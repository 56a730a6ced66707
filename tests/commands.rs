use outbound_redis::command::build_command;
use outbound_redis::types::RedisParameter;

fn args_of(cmd: &redis::Cmd) -> Vec<Vec<u8>> {
    cmd.args_iter()
        .map(|a| match a {
            redis::Arg::Simple(b) => b.to_vec(),
            redis::Arg::Cursor => b"<cursor>".to_vec(),
        })
        .collect()
}

#[test]
fn command_holds_name_then_parameters_in_order() {
    let cmd = build_command(
        "SET",
        &vec![
            RedisParameter::Binary(b"k".to_vec()),
            RedisParameter::Int64(-42),
            RedisParameter::Int64(i64::MIN),
            RedisParameter::Binary(vec![]),
        ],
    );
    assert_eq!(
        args_of(&cmd),
        vec![
            b"SET".to_vec(),
            b"k".to_vec(),
            b"-42".to_vec(),
            b"-9223372036854775808".to_vec(),
            vec![],
        ]
    );
}

#[test]
fn command_without_parameters_is_its_name() {
    let cmd = build_command("PING", &vec![]);
    assert_eq!(args_of(&cmd), vec![b"PING".to_vec()]);
    let cmd = build_command("INCRBY", &vec![RedisParameter::Binary(b"n".to_vec()), RedisParameter::Int64(0)]);
    assert_eq!(args_of(&cmd), vec![b"INCRBY".to_vec(), b"n".to_vec(), b"0".to_vec()]);
}

use outbound_redis::normalize::flatten;
use outbound_redis::outbound::execute_result;
use outbound_redis::sqlite::column_names;
use outbound_redis::types::{DriverFailure, Error, RedisResult, Reply};

#[test]
fn flatten_of_nil_is_empty() {
    assert_eq!(flatten(Reply::Nil), vec![]);
    assert_eq!(flatten(Reply::Okay), vec![]);
    assert_eq!(flatten(Reply::Bulk(vec![])), vec![]);
}

#[test]
fn flatten_nested_reply_in_order() {
    let reply = Reply::Bulk(vec![
        Reply::Int(1),
        Reply::Bulk(vec![Reply::Data(b"a".to_vec()), Reply::Data(b"b".to_vec())]),
        Reply::Nil,
    ]);
    assert_eq!(
        flatten(reply),
        vec![
            RedisResult::Int64(1),
            RedisResult::Binary(b"a".to_vec()),
            RedisResult::Binary(b"b".to_vec()),
        ]
    );
}

#[test]
fn flatten_keeps_status_and_drops_ok() {
    let reply = Reply::Bulk(vec![
        Reply::Okay,
        Reply::Status("PONG".to_string()),
        Reply::Bulk(vec![Reply::Bulk(vec![Reply::Int(-7)])]),
    ]);
    assert_eq!(
        flatten(reply),
        vec![RedisResult::Status("PONG".to_string()), RedisResult::Int64(-7)]
    );
}

#[test]
fn typed_values_round_trip_through_replies() {
    for v in [
        RedisResult::Int64(i64::MIN),
        RedisResult::Binary(vec![0, 255]),
        RedisResult::Status("OK".to_string()),
    ] {
        assert_eq!(flatten(v.clone().to_reply()), vec![v]);
    }
    assert_eq!(flatten(RedisResult::Nil.to_reply()), vec![]);
}

#[test]
fn execute_result_flattens_or_reports() {
    let ok = execute_result(Ok(Reply::Bulk(vec![Reply::Int(2), Reply::Nil])));
    assert_eq!(ok, Ok(vec![RedisResult::Int64(2)]));
    let err = execute_result(Err(DriverFailure { type_mismatch: false, message: "ERR".to_string() }));
    assert_eq!(err, Err(Error::Other("ERR".to_string())));
}

#[test]
fn column_names_fill_missing_with_empty() {
    let names = column_names(vec![Some("id".to_string()), None, Some("name".to_string())]);
    assert_eq!(names, vec!["id".to_string(), String::new(), "name".to_string()]);
    assert_eq!(column_names(vec![]), Vec::<String>::new());
}

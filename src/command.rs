//! Raw commands: a name and an ordered list of parameters, as the driver sends them.

use vstd::prelude::*;
use vstd::string::StringSliceAdditionalSpecFns;
use crate::types::RedisParameter;

verus! {

#[verifier::external_type_specification]
#[verifier::external_body]
pub struct ExCmd(redis::Cmd);

/// The arguments a command holds, in order, its name first.
pub uninterp spec fn cmd_args(c: redis::Cmd) -> Seq<Seq<u8>>;

/// The ASCII decimal digits of `n`.
pub open spec fn decimal_digits(n: nat) -> Seq<u8>
    decreases n,
{
    if n < 10 {
        seq![(48 + n) as u8]
    } else {
        decimal_digits(n / 10).push((48 + n % 10) as u8)
    }
}

/// The ASCII decimal rendering of `v`, with a leading `-` when negative.
pub open spec fn decimal_i64(v: i64) -> Seq<u8> {
    if v < 0 {
        seq![45u8] + decimal_digits((-(v as int)) as nat)
    } else {
        decimal_digits(v as nat)
    }
}

/// The bytes that stand for one parameter on the wire.
pub open spec fn param_bytes(p: RedisParameter) -> Seq<u8> {
    match p {
        RedisParameter::Int64(v) => decimal_i64(v),
        RedisParameter::Binary(b) => b@,
    }
}

/// Relies on `redis::cmd`: a command whose one argument is the name's bytes.
#[verifier::external_body]
fn new_cmd(name: &str) -> (c: redis::Cmd)
    ensures
        cmd_args(c) == seq![name.spec_bytes()],
{
    redis::cmd(name)
}

/// Relies on `redis::Cmd::arg` with a byte slice: the bytes are appended as
/// one argument, unchanged.
#[verifier::external_body]
fn push_bytes_arg(c: &mut redis::Cmd, b: &[u8])
    ensures
        cmd_args(*final(c)) == cmd_args(*old(c)).push(b@),
{
    c.arg(b);
}

/// Relies on `redis::Cmd::arg` with an `i64`: its decimal rendering (by
/// `itoa`) is appended as one argument.
#[verifier::external_body]
fn push_int_arg(c: &mut redis::Cmd, v: i64)
    ensures
        cmd_args(*final(c)) == cmd_args(*old(c)).push(decimal_i64(v)),
{
    c.arg(v);
}

/// The command `name` with `arguments` in order.
pub fn build_command(name: &str, arguments: &Vec<RedisParameter>) -> (c: redis::Cmd)
    ensures
        cmd_args(c) == seq![name.spec_bytes()] + arguments@.map_values(|p: RedisParameter| param_bytes(p)),
{
    let mut c = new_cmd(name);
    let n = arguments.len();
    let mut i: usize = 0;
    while i < n
        invariant
            n == arguments@.len(),
            0 <= i <= n,
            cmd_args(c) == seq![name.spec_bytes()] + arguments@.subrange(0, i as int).map_values(
                |p: RedisParameter| param_bytes(p),
            ),
        decreases n - i,
    {
        match &arguments[i] {
            RedisParameter::Int64(v) => push_int_arg(&mut c, *v),
            RedisParameter::Binary(b) => push_bytes_arg(&mut c, b.as_slice()),
        }
        proof {
            let f = |p: RedisParameter| param_bytes(p);
            assert(arguments@.subrange(0, i + 1).map_values(f) =~= arguments@.subrange(0, i as int).map_values(f).push(
                param_bytes(arguments@[i as int]),
            ));
        }
        i = i + 1;
    }
    assert(arguments@.subrange(0, n as int) =~= arguments@);
    c
}

} // verus!

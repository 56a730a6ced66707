//! Flattening of nested driver replies into ordered sequences of typed values.

use vstd::prelude::*;
use crate::table::vec_slot_mut;
use crate::types::{RedisResult, Reply};

verus! {

/// The leaves of `r` in depth-first order, without nil and acknowledgement markers.
pub open spec fn flatten_spec(r: Reply) -> Seq<RedisResult>
    decreases r,
{
    match r {
        Reply::Nil | Reply::Okay => Seq::empty(),
        Reply::Int(v) => seq![RedisResult::Int64(v)],
        Reply::Data(b) => seq![RedisResult::Binary(b)],
        Reply::Status(s) => seq![RedisResult::Status(s)],
        Reply::Bulk(items) => flatten_seq(items@),
    }
}

/// The leaves of each reply of `s`, one after the other.
pub open spec fn flatten_seq(s: Seq<Reply>) -> Seq<RedisResult>
    decreases s,
{
    if s.len() == 0 {
        Seq::empty()
    } else {
        flatten_seq(s.drop_last()) + flatten_spec(s.last())
    }
}

/// The reply that stands for one typed value.
pub open spec fn to_reply_spec(v: RedisResult) -> Reply {
    match v {
        RedisResult::Nil => Reply::Nil,
        RedisResult::Int64(i) => Reply::Int(i),
        RedisResult::Binary(b) => Reply::Data(b),
        RedisResult::Status(s) => Reply::Status(s),
    }
}

#[verifier::loop_isolation(false)]
fn append_flattened(out: &mut Vec<RedisResult>, r: Reply)
    ensures
        final(out)@ == old(out)@ + flatten_spec(r),
    decreases r,
{
    let ghost r0 = r;
    match r {
        Reply::Nil | Reply::Okay => {
            assert(out@ =~= out@ + flatten_spec(r0));
        },
        Reply::Int(v) => out.push(RedisResult::Int64(v)),
        Reply::Data(b) => out.push(RedisResult::Binary(b)),
        Reply::Status(s) => out.push(RedisResult::Status(s)),
        Reply::Bulk(items) => {
            let ghost items_v0 = items;
            let ghost items0 = items@;
            let ghost out0 = out@;
            let mut items = items;
            let n = items.len();
            let mut i: usize = 0;
            assert(items0.subrange(0, 0) =~= Seq::<Reply>::empty());
            assert(out@ =~= out0 + flatten_seq(items0.subrange(0, 0)));
            while i < n
                invariant
                    n == items0.len(),
                    0 <= i <= n,
                    items@.len() == n,
                    forall|j: int| i <= j < n ==> #[trigger] items@[j] == items0[j],
                    out@ == out0 + flatten_seq(items0.subrange(0, i as int)),
                    r0 == Reply::Bulk(items_v0),
                    items0 == items_v0@,
                decreases n - i,
            {
                let mut item = Reply::Nil;
                std::mem::swap(&mut item, vec_slot_mut(&mut items, i));
                proof {
                    assert(decreases_to!(items_v0 => items_v0@));
                    assert(decreases_to!(items_v0@ => items_v0@[i as int]));
                }
                append_flattened(out, item);
                proof {
                    assert(items0.subrange(0, i as int + 1).drop_last() =~= items0.subrange(0, i as int));
                    assert(out@ =~= out0 + flatten_seq(items0.subrange(0, i as int + 1)));
                }
                i = i + 1;
            }
            assert(items0.subrange(0, n as int) =~= items0);
        },
    }
}

/// The leaves of `reply` in depth-first order; nil and acknowledgement
/// markers contribute nothing, nested sequences are walked in order.
pub fn flatten(reply: Reply) -> (r: Vec<RedisResult>)
    ensures
        r@ == flatten_spec(reply),
{
    let mut out: Vec<RedisResult> = Vec::new();
    append_flattened(&mut out, reply);
    assert(out@ =~= flatten_spec(reply));
    out
}

impl RedisResult {
    /// The driver reply that carries this value.
    pub fn to_reply(self) -> (r: Reply)
        ensures
            r == to_reply_spec(self),
    {
        match self {
            RedisResult::Nil => Reply::Nil,
            RedisResult::Int64(i) => Reply::Int(i),
            RedisResult::Binary(b) => Reply::Data(b),
            RedisResult::Status(s) => Reply::Status(s),
        }
    }
}

/// A typed value survives the trip to the driver's reply form and back
/// through flattening; the absent value is elided on the way.
pub proof fn lemma_reply_round_trip(v: RedisResult)
    ensures
        flatten_spec(to_reply_spec(v)) == if v is Nil { Seq::<RedisResult>::empty() } else { seq![v] },
{
}

/// Flattening a nil or acknowledgement reply, or an empty nested sequence, gives nothing.
pub proof fn lemma_flatten_empty()
    ensures
        flatten_spec(Reply::Nil) == Seq::<RedisResult>::empty(),
        flatten_spec(Reply::Okay) == Seq::<RedisResult>::empty(),
        forall|items: Vec<Reply>| items@.len() == 0 ==> #[trigger] flatten_spec(Reply::Bulk(items)) == Seq::<RedisResult>::empty(),
{
}

} // verus!

//! The connection manager with its two call surfaces: the handle-based one,
//! and the address-based legacy one that delegates to it.
//!
//! Driver calls are asynchronous I/O and are made by the caller; the manager
//! decides everything around them. Each operation goes: `resolve` the handle,
//! make the driver call on `connection_mut`, then map its outcome with the
//! matching `*_result` function. Opening goes: `check_open`, dial, `finish_open`.

use vstd::prelude::*;
use crate::allowed::{is_allowed, is_allowed_spec, AllowedHostsConfig};
use crate::normalize::{flatten, flatten_spec};
use crate::table::{live_count, slot_of, ConnectionTable};
use crate::types::{DriverFailure, Error, LegacyError, RedisResult, Reply};

verus! {

/// Live connections one guest instance may hold unless told otherwise.
pub const DEFAULT_CAPACITY: usize = 1024;

/// The port of an address that gives none.
pub const DEFAULT_PORT: u16 = 6379;

/// The step of `incr`.
pub const INCR_STEP: i64 = 1;

/// The scheme that addresses of this store must carry.
pub open spec fn redis_scheme() -> Seq<char> {
    seq!['r', 'e', 'd', 'i', 's']
}

/// Whether the driver can read `s` as a connection address.
pub uninterp spec fn redis_url_parses(s: Seq<char>) -> bool;

/// Relies on `redis::Client::open`, which reads the address as a connection
/// URL and makes no connection: success depends on the text alone.
#[verifier::external_body]
fn driver_accepts_address(address: &str) -> (r: bool)
    ensures
        r == redis_url_parses(address@),
{
    redis::Client::open(address).is_ok()
}

/// `address` may be dialed: the policy admits it and the driver can read it.
pub open spec fn may_dial(policy: AllowedHostsConfig, address: Seq<char>) -> bool {
    is_allowed_spec(policy, address, redis_scheme(), DEFAULT_PORT) && redis_url_parses(address)
}

/// Leave to dial one address, handed out by `check_open` once the address
/// has passed the policy and the driver's reading of it.
#[derive(Debug, PartialEq, Eq)]
pub struct DialPermit {
    address: String,
}

impl DialPermit {
    pub closed spec fn spec_address(&self) -> Seq<char> {
        self.address@
    }

    /// The address to dial.
    pub fn address(&self) -> (r: &str)
        ensures
            r@ == self.spec_address(),
    {
        self.address.as_str()
    }
}

/// The connection manager of one guest instance.
pub struct OutboundRedis<C> {
    allowed_hosts: AllowedHostsConfig,
    connections: ConnectionTable<C>,
}

impl<C> OutboundRedis<C> {
    pub closed spec fn policy(&self) -> AllowedHostsConfig {
        self.allowed_hosts
    }

    /// The connection table.
    pub closed spec fn table(&self) -> ConnectionTable<C> {
        self.connections
    }

    /// The slots of the connection table.
    pub open spec fn slots(&self) -> Seq<Option<C>> {
        self.table()@
    }

    /// The bound on live connections: the table's capacity.
    pub open spec fn spec_capacity(&self) -> nat {
        self.table().spec_capacity()
    }

    pub closed spec fn wf(&self) -> bool {
        self.connections.wf()
    }

    /// `h` names a live connection.
    pub open spec fn is_live(&self, h: u32) -> bool {
        self.table().is_live(h)
    }

    /// A manager under `allowed_hosts` that holds at most `capacity` live connections.
    pub fn new(allowed_hosts: AllowedHostsConfig, capacity: usize) -> (m: Self)
        ensures
            m.wf(),
            m.policy() == allowed_hosts,
            m.slots() == Seq::<Option<C>>::empty(),
            m.table().generations() == Seq::<u16>::empty(),
            m.table().retired() == Seq::<bool>::empty(),
            m.spec_capacity() == capacity,
    {
        OutboundRedis { allowed_hosts, connections: ConnectionTable::new(capacity) }
    }

    /// Number of live connections.
    pub fn live_connections(&self) -> (n: usize)
        requires
            self.wf(),
        ensures
            n == live_count(self.slots()),
    {
        self.connections.len()
    }

    /// The bound on live connections.
    pub fn capacity(&self) -> (n: usize)
        ensures
            n == self.spec_capacity(),
    {
        self.connections.capacity()
    }

    /// Whether the policy admits `address` for this store.
    pub fn is_address_allowed(&self, address: &str) -> (r: bool)
        ensures
            r == is_allowed_spec(self.policy(), address@, redis_scheme(), DEFAULT_PORT),
    {
        let scheme = "redis";
        proof {
            reveal_strlit("redis");
            assert(scheme@ =~= redis_scheme());
        }
        is_allowed(&self.allowed_hosts, address, scheme, DEFAULT_PORT)
    }

    /// First half of `open`: whether `address` may be dialed. Nothing
    /// changes. The permit it hands out is the only way to `finish_open`.
    pub fn check_open(&self, address: &str) -> (r: Result<DialPermit, Error>)
        ensures
            match r {
                Ok(p) => may_dial(self.policy(), address@) && p.spec_address() == address@,
                Err(e) => !may_dial(self.policy(), address@) && e == Error::InvalidAddress,
            },
    {
        if !self.is_address_allowed(address) {
            return Err(Error::InvalidAddress);
        }
        if !driver_accepts_address(address) {
            return Err(Error::InvalidAddress);
        }
        Ok(DialPermit { address: address.to_owned() })
    }

    /// Second half of `open`: files the connection that dialing produced and
    /// returns its handle. A failed dial is reported with the driver's
    /// message; a full table refuses the connection and is left as it was.
    pub fn finish_open(&mut self, permit: DialPermit, dialed: Result<C, String>) -> (r: Result<u32, Error>)
        requires
            old(self).wf(),
            may_dial(old(self).policy(), permit.spec_address()),
        ensures
            final(self).wf(),
            final(self).policy() == old(self).policy(),
            final(self).spec_capacity() == old(self).spec_capacity(),
            match dialed {
                Err(msg) => r == Err::<u32, Error>(Error::Other(msg)) && final(self).table().same_contents(&old(self).table()),
                Ok(c) => if old(self).table().has_room() {
                    r is Ok && final(self).table().filled(&old(self).table(), c, r->Ok_0)
                } else {
                    r == Err::<u32, Error>(Error::TooManyConnections) && final(self).table().same_contents(&old(self).table())
                },
            },
            forall|g: u32| #[trigger] old(self).table().is_stale(g) ==> final(self).table().is_stale(g),
    {
        match dialed {
            Err(msg) => Err(Error::Other(msg)),
            Ok(c) => match self.connections.push(c) {
                Ok(h) => Ok(h),
                Err(_) => Err(Error::TooManyConnections),
            },
        }
    }

    /// Whether `h` names a live connection; `NotFound` when it does not.
    pub fn resolve(&self, h: u32) -> (r: Result<(), Error>)
        requires
            self.wf(),
        ensures
            r == if self.is_live(h) { Ok::<(), Error>(()) } else { Err(Error::NotFound) },
    {
        if self.connections.contains(h) {
            Ok(())
        } else {
            Err(Error::NotFound)
        }
    }

    /// The live connection under `h`, for one driver call.
    pub fn connection_mut(&mut self, h: u32) -> (c: &mut C)
        requires
            old(self).wf(),
            old(self).is_live(h),
        ensures
            *c == old(self).table().entry(h),
            final(self).wf(),
            final(self).policy() == old(self).policy(),
            final(self).spec_capacity() == old(self).spec_capacity(),
            final(self).table().generations() == old(self).table().generations(),
            final(self).table().retired() == old(self).table().retired(),
            final(self).slots() == old(self).slots().update(slot_of(h), Some(*final(c))),
    {
        self.connections.get_mut(h)
    }

    /// Releases the connection under `h`; does nothing when `h` is not live.
    pub fn close(&mut self, h: u32)
        requires
            old(self).wf(),
        ensures
            final(self).wf(),
            final(self).policy() == old(self).policy(),
            !final(self).is_live(h),
            forall|g: u32| g != h ==> (#[trigger] final(self).is_live(g) <==> old(self).is_live(g)),
            forall|g: u32| g != h && #[trigger] old(self).is_live(g) ==> final(self).table().entry(g) == old(self).table().entry(g),
            forall|g: u32| #[trigger] old(self).table().is_stale(g) ==> final(self).table().is_stale(g),
            if old(self).is_live(h) {
                final(self).table().emptied(&old(self).table(), h)
            } else {
                final(self).table().same_contents(&old(self).table())
            },
    {
        let _ = self.connections.remove(h);
    }
}

impl<C> Default for OutboundRedis<C> {
    /// A manager that permits no endpoint and holds at most `DEFAULT_CAPACITY` connections.
    fn default() -> (m: Self)
        ensures
            m.wf(),
            m.policy() is SpecificHosts && m.policy()->SpecificHosts_0@.len() == 0,
            m.slots() == Seq::<Option<C>>::empty(),
            m.spec_capacity() == DEFAULT_CAPACITY,
    {
        OutboundRedis::new(AllowedHostsConfig::SpecificHosts(Vec::new()), DEFAULT_CAPACITY)
    }
}

/// An address that the policy does not admit is never dialed; `check_open`
/// then reports `InvalidAddress` and, taking the manager by shared
/// reference, consumes no slot.
pub proof fn lemma_denied_address_is_not_dialed(policy: AllowedHostsConfig, address: Seq<char>)
    requires
        !is_allowed_spec(policy, address, redis_scheme(), DEFAULT_PORT),
    ensures
        !may_dial(policy, address),
{
}

/// A manager never holds more live connections than its capacity.
pub proof fn lemma_live_count_within_capacity<C>(m: OutboundRedis<C>)
    requires
        m.wf(),
    ensures
        live_count(m.slots()) <= m.spec_capacity(),
{
    m.connections.lemma_within_bounds();
}

/// The slot, generation and retirement records of a manager's table line up.
pub proof fn lemma_table_lengths<C>(m: OutboundRedis<C>)
    requires
        m.wf(),
    ensures
        m.table().generations().len() == m.slots().len(),
        m.table().retired().len() == m.slots().len(),
{
    m.connections.lemma_lengths();
}

/// A closed handle stays closed: once `close` has made a handle stale, no
/// later `close` or `finish_open` makes it fresh again (their contracts keep
/// every stale handle stale), and a stale handle never resolves.
pub proof fn lemma_closed_handle_never_resolves<C>(m: OutboundRedis<C>, h: u32)
    requires
        m.wf(),
        m.table().is_stale(h),
    ensures
        !m.is_live(h),
{
    m.connections.lemma_stale_is_not_live(h);
}

/// What the handle-based surface reports for the outcome of a driver call.
pub open spec fn driver_result_spec<T>(outcome: Result<T, DriverFailure>) -> Result<T, Error> {
    match outcome {
        Ok(v) => Ok(v),
        Err(f) => Err(Error::Other(f.message)),
    }
}

/// Maps the outcome of a driver call: a failure becomes `Other` with the
/// driver's message. Used by publish, get, set, incr, del, smembers and srem.
pub fn driver_result<T>(outcome: Result<T, DriverFailure>) -> (r: Result<T, Error>)
    ensures
        r == driver_result_spec(outcome),
{
    match outcome {
        Ok(v) => Ok(v),
        Err(f) => Err(Error::Other(f.message)),
    }
}

/// What the handle-based surface reports for a set-add: a key that holds a
/// value of another kind is a `TypeError`, not a generic failure.
pub open spec fn sadd_result_spec(outcome: Result<u32, DriverFailure>) -> Result<u32, Error> {
    match outcome {
        Ok(n) => Ok(n),
        Err(f) => if f.type_mismatch {
            Err(Error::TypeError)
        } else {
            Err(Error::Other(f.message))
        },
    }
}

/// Maps the outcome of a set-add.
pub fn sadd_result(outcome: Result<u32, DriverFailure>) -> (r: Result<u32, Error>)
    ensures
        r == sadd_result_spec(outcome),
{
    match outcome {
        Ok(n) => Ok(n),
        Err(f) => if f.type_mismatch {
            Err(Error::TypeError)
        } else {
            Err(Error::Other(f.message))
        },
    }
}

/// Maps the outcome of a raw command: the reply, however nested, is flattened.
pub fn execute_result(outcome: Result<Reply, DriverFailure>) -> (r: Result<Vec<RedisResult>, Error>)
    ensures
        match outcome {
            Ok(reply) => r is Ok && r->Ok_0@ == flatten_spec(reply),
            Err(f) => r == Err::<Vec<RedisResult>, Error>(Error::Other(f.message)),
        },
{
    match outcome {
        Ok(reply) => Ok(flatten(reply)),
        Err(f) => Err(Error::Other(f.message)),
    }
}

/// The legacy surface's view of a handle-based result: every error is the one coarse error.
pub open spec fn coarse_spec<T>(r: Result<T, Error>) -> Result<T, LegacyError> {
    match r {
        Ok(v) => Ok(v),
        Err(_) => Err(LegacyError::Error),
    }
}

/// The legacy surface's value for a lookup: an absent key reads as empty bytes.
pub open spec fn legacy_value_spec(v: Option<Vec<u8>>) -> Seq<u8> {
    match v {
        Some(b) => b@,
        None => Seq::empty(),
    }
}

impl<C> OutboundRedis<C> {
    /// First step of a legacy call: whether `address` may be dialed. Nothing changes.
    pub fn legacy_check_open(&self, address: &str) -> (r: Result<DialPermit, LegacyError>)
        ensures
            match r {
                Ok(p) => may_dial(self.policy(), address@) && p.spec_address() == address@,
                Err(e) => !may_dial(self.policy(), address@) && e == LegacyError::Error,
            },
    {
        match self.check_open(address) {
            Ok(p) => Ok(p),
            Err(_) => Err(LegacyError::Error),
        }
    }

    /// Second step of a legacy call: files the dialed connection for the one
    /// call that follows; any failure is the coarse error.
    pub fn legacy_finish_open(&mut self, permit: DialPermit, dialed: Result<C, String>) -> (r: Result<u32, LegacyError>)
        requires
            old(self).wf(),
            may_dial(old(self).policy(), permit.spec_address()),
        ensures
            final(self).wf(),
            final(self).policy() == old(self).policy(),
            r is Ok <==> (dialed is Ok && old(self).table().has_room()),
            r is Ok ==> final(self).table().filled(&old(self).table(), dialed->Ok_0, r->Ok_0),
            r is Err ==> r == Err::<u32, LegacyError>(LegacyError::Error)
                && final(self).table().same_contents(&old(self).table()),
            forall|g: u32| #[trigger] old(self).table().is_stale(g) ==> final(self).table().is_stale(g),
    {
        match self.finish_open(permit, dialed) {
            Ok(h) => Ok(h),
            Err(_) => Err(LegacyError::Error),
        }
    }

    /// Last step of a legacy call: releases the connection it used and
    /// narrows the handle-based result to the coarse error.
    pub fn legacy_finish<T>(&mut self, h: u32, result: Result<T, Error>) -> (r: Result<T, LegacyError>)
        requires
            old(self).wf(),
        ensures
            r == coarse_spec(result),
            final(self).wf(),
            final(self).policy() == old(self).policy(),
            !final(self).is_live(h),
            forall|g: u32| g != h ==> (#[trigger] final(self).is_live(g) <==> old(self).is_live(g)),
            forall|g: u32| g != h && #[trigger] old(self).is_live(g) ==> final(self).table().entry(g) == old(self).table().entry(g),
            forall|g: u32| #[trigger] old(self).table().is_stale(g) ==> final(self).table().is_stale(g),
            if old(self).is_live(h) {
                final(self).table().emptied(&old(self).table(), h)
            } else {
                final(self).table().same_contents(&old(self).table())
            },
    {
        self.close(h);
        match result {
            Ok(v) => Ok(v),
            Err(_) => Err(LegacyError::Error),
        }
    }
}

/// The legacy lookup result: an absent key reads as empty bytes, not as an error.
pub fn legacy_value(v: Option<Vec<u8>>) -> (r: Vec<u8>)
    ensures
        r@ == legacy_value_spec(v),
{
    match v {
        Some(b) => b,
        None => Vec::new(),
    }
}

/// The legacy count: the handle-based unsigned count, widened to a signed one.
pub fn legacy_count(n: u32) -> (r: i64)
    ensures
        r == n as int,
{
    n as i64
}

/// What a lookup on `h` reports when the driver answered `reply`.
pub open spec fn get_result_spec<C>(m: OutboundRedis<C>, h: u32, reply: Result<Option<Vec<u8>>, DriverFailure>) -> Result<Option<Vec<u8>>, Error> {
    if m.is_live(h) {
        driver_result_spec(reply)
    } else {
        Err(Error::NotFound)
    }
}

impl<C> OutboundRedis<C> {
    /// Completes a lookup on `h` that the driver answered with `reply`:
    /// `NotFound` when `h` is not live, otherwise the driver's answer, where
    /// an absent key is `Ok(None)`.
    pub fn get(&self, h: u32, reply: Result<Option<Vec<u8>>, DriverFailure>) -> (r: Result<Option<Vec<u8>>, Error>)
        requires
            self.wf(),
        ensures
            r == get_result_spec(*self, h, reply),
    {
        match self.resolve(h) {
            Ok(()) => driver_result(reply),
            Err(e) => Err(e),
        }
    }

    /// Last step of a legacy lookup: releases the connection it used and
    /// reads an absent key as empty bytes.
    pub fn legacy_get(&mut self, h: u32, result: Result<Option<Vec<u8>>, Error>) -> (r: Result<Vec<u8>, LegacyError>)
        requires
            old(self).wf(),
        ensures
            match result {
                Ok(v) => r is Ok && r->Ok_0@ == legacy_value_spec(v),
                Err(_) => r == Err::<Vec<u8>, LegacyError>(LegacyError::Error),
            },
            final(self).wf(),
            final(self).policy() == old(self).policy(),
            !final(self).is_live(h),
            forall|g: u32| g != h ==> (#[trigger] final(self).is_live(g) <==> old(self).is_live(g)),
            forall|g: u32| g != h && #[trigger] old(self).is_live(g) ==> final(self).table().entry(g) == old(self).table().entry(g),
            forall|g: u32| #[trigger] old(self).table().is_stale(g) ==> final(self).table().is_stale(g),
            if old(self).is_live(h) {
                final(self).table().emptied(&old(self).table(), h)
            } else {
                final(self).table().same_contents(&old(self).table())
            },
    {
        match self.legacy_finish(h, result) {
            Ok(v) => Ok(legacy_value(v)),
            Err(e) => Err(e),
        }
    }
}

/// A missing key is no error on either surface: on a live handle, a lookup
/// that the driver answers with no value is `Ok(None)`, and the legacy
/// surface reads it as empty bytes.
pub proof fn lemma_missing_key_is_not_an_error<C>(m: OutboundRedis<C>, h: u32)
    requires
        m.is_live(h),
    ensures
        get_result_spec(m, h, Ok(None)) == Ok::<Option<Vec<u8>>, Error>(None),
        coarse_spec(get_result_spec(m, h, Ok(None))) == Ok::<Option<Vec<u8>>, LegacyError>(None),
        legacy_value_spec(None) == Seq::<u8>::empty(),
{
}

/// A set-add on a key of another kind is a `TypeError` on the handle-based
/// surface and the coarse error on the legacy one, whatever the driver's message.
pub proof fn lemma_sadd_type_mismatch(f: DriverFailure)
    requires
        f.type_mismatch,
    ensures
        sadd_result_spec(Err(f)) == Err::<u32, Error>(Error::TypeError),
        coarse_spec(sadd_result_spec(Err(f))) == Err::<u32, LegacyError>(LegacyError::Error),
{
}

} // verus!

//! A capacity-bounded slot table mapping small integer handles to live objects.

use vstd::prelude::*;

verus! {

/// Number of occupied slots in `s`.
pub open spec fn live_count<C>(s: Seq<Option<C>>) -> nat
    decreases s.len(),
{
    if s.len() == 0 {
        0
    } else {
        live_count(s.drop_last()) + if s.last() is Some { 1nat } else { 0nat }
    }
}

/// Slot `j` can take a new entry: it is empty and not retired.
pub open spec fn is_free<C>(s: Seq<Option<C>>, retired: Seq<bool>, j: int) -> bool {
    s[j] is None && !retired[j]
}

/// `h` is the lowest free slot of `s`, or `s.len()` when no slot is free.
pub open spec fn is_lowest_free<C>(s: Seq<Option<C>>, retired: Seq<bool>, h: int) -> bool {
    &&& 0 <= h <= s.len()
    &&& h < s.len() ==> is_free(s, retired, h)
    &&& forall|j: int| 0 <= j < h ==> !#[trigger] is_free(s, retired, j)
}

/// Occupied slots never outnumber the slots.
pub proof fn lemma_live_count_bound<C>(s: Seq<Option<C>>)
    ensures
        live_count(s) <= s.len(),
        (forall|j: int| 0 <= j < s.len() ==> #[trigger] s[j] is Some) ==> live_count(s) == s.len(),
    decreases s.len(),
{
    if s.len() > 0 {
        lemma_live_count_bound(s.drop_last());
        if forall|j: int| 0 <= j < s.len() ==> #[trigger] s[j] is Some {
            assert forall|j: int| 0 <= j < s.drop_last().len() implies #[trigger] s.drop_last()[j] is Some by {
                assert(s[j] is Some);
            }
            assert(s.last() is Some);
        }
    }
}

/// Appending one slot adds one to the count exactly when the slot is occupied.
pub proof fn lemma_live_count_push<C>(s: Seq<Option<C>>, v: Option<C>)
    ensures
        live_count(s.push(v)) == live_count(s) + if v is Some { 1nat } else { 0nat },
{
    assert(s.push(v).drop_last() =~= s);
}

/// Filling an empty slot adds one to the count; emptying a full slot takes one away.
pub proof fn lemma_live_count_update<C>(s: Seq<Option<C>>, i: int, v: Option<C>)
    requires
        0 <= i < s.len(),
    ensures
        live_count(s.update(i, v)) + (if s[i] is Some { 1nat } else { 0nat })
            == live_count(s) + (if v is Some { 1nat } else { 0nat }),
    decreases s.len(),
{
    if i == s.len() - 1 {
        assert(s.update(i, v).drop_last() =~= s.drop_last());
    } else {
        lemma_live_count_update(s.drop_last(), i, v);
        assert(s.update(i, v).drop_last() =~= s.drop_last().update(i, v));
    }
}

/// Slots a table can have: the low 16 bits of a handle name the slot.
pub const MAX_SLOTS: usize = 65536;

/// The slot that handle `h` names.
pub open spec fn slot_of(h: u32) -> int {
    h as int % 65536
}

/// The generation of its slot that handle `h` was issued in.
pub open spec fn generation_of(h: u32) -> int {
    h as int / 65536
}

/// The generation that follows `g`; the last one stays, and its slot is retired.
pub open spec fn next_generation(g: u16) -> u16 {
    if g == u16::MAX { g } else { (g + 1) as u16 }
}

proof fn lemma_handle_parts(slot: u32, generation: u16)
    requires
        slot < 65536,
    ensures
        generation as int * 65536 + slot as int <= u32::MAX,
        slot_of((generation as int * 65536 + slot as int) as u32) == slot,
        generation_of((generation as int * 65536 + slot as int) as u32) == generation,
{
    let h = generation as int * 65536 + slot as int;
    assert(h <= u32::MAX) by (nonlinear_arith)
        requires generation <= 65535, slot < 65536, h == generation as int * 65536 + slot as int;
    assert(h % 65536 == slot as int && h / 65536 == generation as int) by (nonlinear_arith)
        requires 0 <= slot < 65536, 0 <= generation, h == generation as int * 65536 + slot as int;
}

/// A handle is fixed by its slot and its generation.
proof fn lemma_handle_determined(a: u32, b: u32)
    requires
        slot_of(a) == slot_of(b),
        generation_of(a) == generation_of(b),
    ensures
        a == b,
{
    let (x, y) = (a as int, b as int);
    assert(x == 65536 * (x / 65536) + x % 65536) by (nonlinear_arith);
    assert(y == 65536 * (y / 65536) + y % 65536) by (nonlinear_arith);
}

/// A table of at most `capacity` live entries. A handle names a slot and
/// the generation of that slot it was issued in. Emptying a slot starts its
/// next generation; a slot whose last generation has been used is retired
/// and never filled again. So a handle of a removed entry never names an
/// entry again.
pub struct ConnectionTable<C> {
    slots: Vec<Option<C>>,
    generations: Vec<u16>,
    retired: Vec<bool>,
    live: usize,
    capacity: usize,
}

impl<C> View for ConnectionTable<C> {
    type V = Seq<Option<C>>;

    closed spec fn view(&self) -> Seq<Option<C>> {
        self.slots@
    }
}

impl<C> ConnectionTable<C> {
    /// The bound on live entries that the table was made with.
    pub closed spec fn spec_capacity(&self) -> nat {
        self.capacity as nat
    }

    /// The current generation of each slot.
    pub closed spec fn generations(&self) -> Seq<u16> {
        self.generations@
    }

    /// Which slots are retired.
    pub closed spec fn retired(&self) -> Seq<bool> {
        self.retired@
    }

    pub closed spec fn wf(&self) -> bool {
        &&& self.slots@.len() <= MAX_SLOTS
        &&& self.generations@.len() == self.slots@.len()
        &&& self.retired@.len() == self.slots@.len()
        &&& self.live == live_count(self.slots@)
        &&& self.live <= self.capacity
        &&& forall|j: int| 0 <= j < self.slots@.len() && #[trigger] self.retired@[j]
            ==> self.slots@[j] is None && self.generations@[j] == u16::MAX
    }

    /// `h` names an occupied slot in the slot's current generation.
    pub open spec fn is_live(&self, h: u32) -> bool {
        &&& slot_of(h) < self@.len()
        &&& self@[slot_of(h)] is Some
        &&& self.generations()[slot_of(h)] as int == generation_of(h)
    }

    /// `h` was issued and its entry removed: its slot has moved past `h`'s
    /// generation or is retired.
    pub open spec fn is_stale(&self, h: u32) -> bool {
        &&& slot_of(h) < self@.len()
        &&& (generation_of(h) < self.generations()[slot_of(h)] as int || self.retired()[slot_of(h)])
    }

    /// A new entry fits: fewer than `capacity` are live, and some slot is
    /// free or a new slot can still be named by a handle.
    pub open spec fn has_room(&self) -> bool {
        &&& live_count(self@) < self.spec_capacity()
        &&& (self@.len() < MAX_SLOTS || exists|j: int| 0 <= j < self@.len() && #[trigger] is_free(self@, self.retired(), j))
    }

    /// Both tables hold the same entries in the same slots and generations.
    pub open spec fn same_contents(&self, o: &Self) -> bool {
        &&& self@ == o@
        &&& self.generations() == o.generations()
        &&& self.retired() == o.retired()
        &&& self.spec_capacity() == o.spec_capacity()
    }

    /// This table is `o` with `c` stored in its lowest free slot (a new one
    /// when none is free) under the handle `h`.
    pub open spec fn filled(&self, o: &Self, c: C, h: u32) -> bool {
        let k = slot_of(h);
        &&& is_lowest_free(o@, o.retired(), k)
        &&& self.spec_capacity() == o.spec_capacity()
        &&& self@ == if k < o@.len() { o@.update(k, Some(c)) } else { o@.push(Some(c)) }
        &&& self.generations() == if k < o@.len() { o.generations() } else { o.generations().push(0) }
        &&& self.retired() == if k < o@.len() { o.retired() } else { o.retired().push(false) }
        &&& h as int == self.generations()[k] as int * 65536 + k
        &&& self.is_live(h)
        &&& self.entry(h) == c
        &&& forall|g: u32| g != h ==> (#[trigger] self.is_live(g) <==> o.is_live(g))
        &&& forall|g: u32| g != h && #[trigger] o.is_live(g) ==> self.entry(g) == o.entry(g)
        &&& live_count(self@) == live_count(o@) + 1
    }

    /// This table is `o` with the entry of the live handle `h` taken out,
    /// and its slot in the next generation, or retired after the last one.
    pub open spec fn emptied(&self, o: &Self, h: u32) -> bool {
        let k = slot_of(h);
        &&& self.spec_capacity() == o.spec_capacity()
        &&& self.is_stale(h)
        &&& self@ == o@.update(k, None)
        &&& self.generations() == o.generations().update(k, next_generation(o.generations()[k]))
        &&& self.retired() == o.retired().update(k, o.generations()[k] == u16::MAX)
        &&& live_count(self@) + 1 == live_count(o@)
    }

    /// The entry under a live handle `h`.
    pub open spec fn entry(&self, h: u32) -> C {
        self@[slot_of(h)]->Some_0
    }

    /// A well-formed table holds no more live entries than its capacity or
    /// its slots, and no more slots than handles can name.
    pub proof fn lemma_within_bounds(&self)
        requires
            self.wf(),
        ensures
            live_count(self@) <= self.spec_capacity(),
            live_count(self@) <= self@.len(),
            self@.len() <= MAX_SLOTS,
    {
        lemma_live_count_bound(self@);
    }

    /// The slot, generation and retirement records line up.
    pub proof fn lemma_lengths(&self)
        requires
            self.wf(),
        ensures
            self.generations().len() == self@.len(),
            self.retired().len() == self@.len(),
    {
    }

    /// A stale handle does not name a live entry.
    pub proof fn lemma_stale_is_not_live(&self, h: u32)
        requires
            self.wf(),
            self.is_stale(h),
        ensures
            !self.is_live(h),
    {
    }

    /// An empty table that will hold at most `capacity` entries.
    pub fn new(capacity: usize) -> (t: Self)
        ensures
            t.wf(),
            t@ == Seq::<Option<C>>::empty(),
            t.generations() == Seq::<u16>::empty(),
            t.retired() == Seq::<bool>::empty(),
            t.spec_capacity() == capacity,
    {
        ConnectionTable { slots: Vec::new(), generations: Vec::new(), retired: Vec::new(), live: 0, capacity }
    }

    /// Number of live entries.
    pub fn len(&self) -> (n: usize)
        requires
            self.wf(),
        ensures
            n == live_count(self@),
    {
        self.live
    }

    pub fn capacity(&self) -> (n: usize)
        ensures
            n == self.spec_capacity(),
    {
        self.capacity
    }

    /// Whether `h` names a live entry.
    pub fn contains(&self, h: u32) -> (r: bool)
        requires
            self.wf(),
        ensures
            r == self.is_live(h),
    {
        let slot = (h % 65536) as usize;
        slot < self.slots.len() && self.slots[slot].is_some() && self.generations[slot] as u32 == h / 65536
    }

    /// Stores `c` in the lowest free slot, or in a new slot when none is
    /// free, and returns its handle. Without room the table is left as it
    /// was and `c` is handed back.
    pub fn push(&mut self, c: C) -> (r: Result<u32, C>)
        requires
            old(self).wf(),
        ensures
            final(self).wf(),
            final(self).spec_capacity() == old(self).spec_capacity(),
            old(self).has_room() <==> r is Ok,
            forall|g: u32| #[trigger] old(self).is_stale(g) ==> final(self).is_stale(g),
            match r {
                Ok(h) => final(self).filled(old(self), c, h),
                Err(back) => back == c && final(self).same_contents(old(self)),
            },
    {
        proof {
            lemma_live_count_bound(self.slots@);
        }
        if self.live >= self.capacity {
            return Err(c);
        }
        let n = self.slots.len();
        let mut i: usize = 0;
        while i < n && !(self.slots[i].is_none() && !self.retired[i])
            invariant
                n == self.slots@.len(),
                n == self.retired@.len(),
                0 <= i <= n,
                forall|j: int| 0 <= j < i ==> !#[trigger] is_free(self.slots@, self.retired@, j),
            decreases n - i,
        {
            i = i + 1;
        }
        if i == n && n >= MAX_SLOTS {
            return Err(c);
        }
        proof {
            if i < n {
                assert(is_free(self@, self.retired(), i as int));
            }
            assert(self.has_room());
        }
        if i < n {
            proof {
                lemma_live_count_update(self.slots@, i as int, Some(c));
            }
            self.slots.set(i, Some(c));
        } else {
            proof {
                lemma_live_count_push(self.slots@, Some(c));
            }
            self.slots.push(Some(c));
            self.generations.push(0);
            self.retired.push(false);
        }
        self.live = self.live + 1;
        let g = self.generations[i];
        proof {
            lemma_handle_parts(i as u32, g);
            let h = (g as int * 65536 + i as int) as u32;
            assert forall|k: u32| k != h && #[trigger] self.is_live(k) implies slot_of(k) != i by {
                if slot_of(k) == i {
                    lemma_handle_determined(k, h);
                }
            }
        }
        Ok(g as u32 * 65536 + i as u32)
    }

    /// The entry under `h`.
    pub fn get(&self, h: u32) -> (c: &C)
        requires
            self.is_live(h),
        ensures
            *c == self.entry(h),
    {
        self.slots[(h % 65536) as usize].as_ref().unwrap()
    }

    /// The entry under `h`, for the caller to change in place.
    pub fn get_mut(&mut self, h: u32) -> (c: &mut C)
        requires
            old(self).wf(),
            old(self).is_live(h),
        ensures
            *c == old(self).entry(h),
            final(self).wf(),
            final(self).spec_capacity() == old(self).spec_capacity(),
            final(self).generations() == old(self).generations(),
            final(self).retired() == old(self).retired(),
            final(self)@ == old(self)@.update(slot_of(h), Some(*final(c))),
    {
        let i = (h % 65536) as usize;
        proof {
            assert forall|x: C| live_count(#[trigger] self.slots@.update(i as int, Some(x))) == live_count(self.slots@) by {
                lemma_live_count_update(self.slots@, i as int, Some(x));
            }
        }
        let slot = vec_slot_mut(&mut self.slots, i);
        match slot {
            Some(c) => c,
            None => unreached(),
        }
    }

    /// Takes the entry under `h` out of the table and starts the slot's next
    /// generation, or retires the slot when its last generation is used;
    /// does nothing when `h` is not live.
    pub fn remove(&mut self, h: u32) -> (r: Option<C>)
        requires
            old(self).wf(),
        ensures
            final(self).wf(),
            final(self).spec_capacity() == old(self).spec_capacity(),
            !final(self).is_live(h),
            forall|g: u32| g != h ==> (#[trigger] final(self).is_live(g) <==> old(self).is_live(g)),
            forall|g: u32| g != h && #[trigger] old(self).is_live(g) ==> final(self).entry(g) == old(self).entry(g),
            forall|g: u32| #[trigger] old(self).is_stale(g) ==> final(self).is_stale(g),
            if old(self).is_live(h) {
                r == Some(old(self).entry(h)) && final(self).emptied(old(self), h)
            } else {
                r is None && final(self).same_contents(old(self))
            },
    {
        if !self.contains(h) {
            return None;
        }
        let i = (h % 65536) as usize;
        proof {
            lemma_live_count_update(self.slots@, i as int, None);
            assert forall|g: u32| g != h && #[trigger] self.is_live(g) implies slot_of(g) != slot_of(h) by {
                if slot_of(g) == slot_of(h) {
                    lemma_handle_determined(g, h);
                }
            }
        }
        let mut out: Option<C> = None;
        std::mem::swap(&mut out, vec_slot_mut(&mut self.slots, i));
        let g = self.generations[i];
        if g == u16::MAX {
            self.retired.set(i, true);
        } else {
            self.generations.set(i, g + 1);
        }
        self.live = self.live - 1;
        proof {
            let k = slot_of(h);
            assert(self.is_stale(h));
            assert(self@ == old(self)@.update(k, None));
            assert(self.generations() == old(self).generations().update(k, next_generation(old(self).generations()[k])));
            assert(self.retired() == old(self).retired().update(k, old(self).generations()[k] == u16::MAX));
            assert(out == Some(old(self).entry(h)));
        }
        out
    }
}

/// The element at `i`, for the caller to change in place.
pub(crate) fn vec_slot_mut<T>(v: &mut Vec<T>, i: usize) -> (e: &mut T)
    requires
        i < old(v)@.len(),
    ensures
        *e == old(v)@[i as int],
        final(v)@ == old(v)@.update(i as int, *final(e)),
{
    &mut v[i]
}

} // verus!

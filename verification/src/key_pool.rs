//! A session-wide pool of keyboard keys handed out to GBA slots.
//!
//! The pool holds 72 safe, real keyboard keys, ordered from the most
//! desirable (letters) to the least. Each slot may request up to 18 of them.
//! Keys are handed out in pool order and never reused within a session.

use std::collections::HashMap;
use vstd::prelude::*;

verus! {

broadcast use vstd::std_specs::hash::group_hash_axioms;

/// Number of keys in the pool.
pub const POOL_SIZE: usize = 72;

/// Most keys one slot may hold.
pub const MAX_KEYS_PER_SLOT: usize = 18;

/// The pool key at position `j`: letters A-Z, digits 0-9, F1-F10, F12,
/// numpad 0-9 and '.', the four arrows (up, down, left, right), Insert,
/// Delete, Home, End, PgUp, PgDn, and the numpad operators `* / + -`.
pub open spec fn pool_key(j: int) -> u16 {
    if j < 26 {
        (0x41 + j) as u16
    } else if j < 36 {
        (0x30 + (j - 26)) as u16
    } else if j < 46 {
        (0x70 + (j - 36)) as u16
    } else if j == 46 {
        0x7B
    } else if j < 57 {
        (0x60 + (j - 47)) as u16
    } else if j == 57 {
        0x6E
    } else if j == 58 {
        0x26
    } else if j == 59 {
        0x28
    } else if j == 60 {
        0x25
    } else if j == 61 {
        0x27
    } else if j == 62 {
        0x2D
    } else if j == 63 {
        0x2E
    } else if j == 64 {
        0x24
    } else if j == 65 {
        0x23
    } else if j == 66 {
        0x21
    } else if j == 67 {
        0x22
    } else if j == 68 {
        0x6A
    } else if j == 69 {
        0x6F
    } else if j == 70 {
        0x6B
    } else {
        0x6D
    }
}

/// The whole pool, in hand-out order.
pub open spec fn pool_keys() -> Seq<u16> {
    Seq::new(POOL_SIZE as nat, |j: int| pool_key(j))
}

/// Position of a key in the pool (inverse of `pool_key`).
pub open spec fn pool_pos(v: u16) -> int {
    if 0x41 <= v <= 0x5A {
        v - 0x41
    } else if 0x30 <= v <= 0x39 {
        v - 0x30 + 26
    } else if 0x70 <= v <= 0x79 {
        v - 0x70 + 36
    } else if v == 0x7B {
        46
    } else if 0x60 <= v <= 0x69 {
        v - 0x60 + 47
    } else if v == 0x6E {
        57
    } else if v == 0x26 {
        58
    } else if v == 0x28 {
        59
    } else if v == 0x25 {
        60
    } else if v == 0x27 {
        61
    } else if v == 0x2D {
        62
    } else if v == 0x2E {
        63
    } else if v == 0x24 {
        64
    } else if v == 0x23 {
        65
    } else if v == 0x21 {
        66
    } else if v == 0x22 {
        67
    } else if v == 0x6A {
        68
    } else if v == 0x6F {
        69
    } else if v == 0x6B {
        70
    } else {
        71
    }
}

proof fn lemma_pool_pos_inverts(j: int)
    requires
        0 <= j < POOL_SIZE,
    ensures
        pool_pos(pool_key(j)) == j,
{
}

/// No key occurs twice in the pool.
pub proof fn lemma_pool_distinct(j: int, k: int)
    requires
        0 <= j < POOL_SIZE,
        0 <= k < POOL_SIZE,
        j != k,
    ensures
        pool_key(j) != pool_key(k),
{
    lemma_pool_pos_inverts(j);
    lemma_pool_pos_inverts(k);
}

/// `v` is the pool key at a position below `next`: it has been handed out
/// once `next` keys have been handed out.
pub open spec fn handed_out(v: u16, next: nat) -> bool {
    0 <= pool_pos(v) < next && pool_key(pool_pos(v)) == v
}

/// The keys a slot holds, in hand-out order (empty for a slot never seen).
pub open spec fn slot_list(a: Map<u8, Seq<u16>>, slot: u8) -> Seq<u16> {
    if a.contains_key(slot) { a[slot] } else { Seq::empty() }
}

/// How many keys the slots hold together.
pub open spec fn held_count(a: Map<u8, Seq<u16>>) -> nat {
    slot_list(a, 1).len() + slot_list(a, 2).len() + slot_list(a, 3).len() + slot_list(a, 4).len()
}

/// Some slot holds key `v`.
pub open spec fn is_held(a: Map<u8, Seq<u16>>, v: u16) -> bool {
    exists|s: u8, i: int| a.contains_key(s) && 0 <= i < a[s].len() && #[trigger] a[s][i] == v
}

/// Consistency of the assignment table after `next` keys were handed out:
/// only slots 1 to 4 appear, each holds between 1 and 18 keys, the slots
/// together hold `next` keys, every held key is one of the first `next` pool
/// keys, no key is held twice (by one slot or by two), and every one of the
/// first `next` pool keys is held by a slot.
pub open spec fn pool_state_ok(a: Map<u8, Seq<u16>>, next: nat) -> bool {
    &&& next <= POOL_SIZE
    &&& forall|s: u8| #[trigger] a.contains_key(s) ==> 1 <= s <= 4 && 1 <= a[s].len() <= MAX_KEYS_PER_SLOT
    &&& held_count(a) == next
    &&& forall|s: u8, i: int|
        a.contains_key(s) && 0 <= i < a[s].len() ==> handed_out(#[trigger] a[s][i], next)
    &&& forall|s1: u8, i1: int, s2: u8, i2: int|
        a.contains_key(s1) && a.contains_key(s2) && 0 <= i1 < a[s1].len() && 0 <= i2 < a[s2].len()
            && (s1 != s2 || i1 != i2) ==> #[trigger] a[s1][i1] != #[trigger] a[s2][i2]
    &&& forall|j: int| 0 <= j < next ==> #[trigger] is_held(a, pool_key(j))
}

/// What `request_key` answers for `slot` given the table `a` after `next`
/// keys were handed out: nothing for a slot outside 1 to 4, for a slot that
/// already holds 18 keys, or once the pool is exhausted; otherwise the
/// slot's next index and the next pool key.
pub open spec fn request_result(a: Map<u8, Seq<u16>>, next: nat, slot: u8) -> Option<(usize, u16)> {
    if !(1 <= slot <= 4) || slot_list(a, slot).len() >= MAX_KEYS_PER_SLOT || next >= POOL_SIZE {
        None
    } else {
        Some((slot_list(a, slot).len() as usize, pool_key(next as int)))
    }
}

/// The table after `request_key(slot)`. A valid slot is always entered in
/// the table (with no keys if it had none and none could be given).
pub open spec fn table_after_request(a: Map<u8, Seq<u16>>, next: nat, slot: u8) -> Map<u8, Seq<u16>> {
    if !(1 <= slot <= 4) {
        a
    } else if slot_list(a, slot).len() >= MAX_KEYS_PER_SLOT || next >= POOL_SIZE {
        a.insert(slot, slot_list(a, slot))
    } else {
        a.insert(slot, slot_list(a, slot).push(pool_key(next as int)))
    }
}

/// The key held by `slot` at index `gba_idx`, if any.
pub open spec fn lookup_vk(a: Map<u8, Seq<u16>>, slot: u8, gba_idx: int) -> Option<u16> {
    if a.contains_key(slot) && 0 <= gba_idx < a[slot].len() {
        Some(a[slot][gba_idx])
    } else {
        None
    }
}

/// The number of keys handed out after `request_key(slot)`.
pub open spec fn next_after_request(a: Map<u8, Seq<u16>>, next: nat, slot: u8) -> nat {
    if request_result(a, next, slot) is Some { next + 1 } else { next }
}

/// Requesting a key keeps the assignment table consistent: in particular a
/// key handed out is never held by anyone else.
pub proof fn lemma_request_keeps_consistency(a: Map<u8, Seq<u16>>, next: nat, slot: u8)
    requires
        pool_state_ok(a, next),
    ensures
        pool_state_ok(table_after_request(a, next, slot), next_after_request(a, next, slot)),
{
    let b = table_after_request(a, next, slot);
    let n2 = next_after_request(a, next, slot);
    if !(1 <= slot <= 4) {
    } else if slot_list(a, slot).len() >= MAX_KEYS_PER_SLOT || next >= POOL_SIZE {
        assert(b =~= a.insert(slot, slot_list(a, slot)));
        assert forall|s: u8| #[trigger] b.contains_key(s) implies 1 <= s <= 4 && b[s].len() <= MAX_KEYS_PER_SLOT by {
            if s != slot { assert(a.contains_key(s)); }
        }
        assert forall|s: u8, i: int| b.contains_key(s) && 0 <= i < b[s].len() implies handed_out(
            #[trigger] b[s][i],
            n2,
        ) by {
            assert(a.contains_key(s));
        }
        assert forall|s1: u8, i1: int, s2: u8, i2: int|
            b.contains_key(s1) && b.contains_key(s2) && 0 <= i1 < b[s1].len() && 0 <= i2 < b[s2].len()
                && (s1 != s2 || i1 != i2) implies #[trigger] b[s1][i1] != #[trigger] b[s2][i2] by {
            assert(a.contains_key(s1) && a.contains_key(s2));
            assert(b[s1][i1] == a[s1][i1]);
            assert(b[s2][i2] == a[s2][i2]);
        }
        assert forall|j: int| 0 <= j < n2 implies #[trigger] is_held(b, pool_key(j)) by {
            assert(is_held(a, pool_key(j)));
            let (s0, i0) = choose|s: u8, i: int|
                a.contains_key(s) && 0 <= i < a[s].len() && #[trigger] a[s][i] == pool_key(j);
            assert(b[s0][i0] == a[s0][i0]);
        }
    } else {
        let v = pool_key(next as int);
        let old_list = slot_list(a, slot);
        let new_list = old_list.push(v);
        lemma_pool_pos_inverts(next as int);
        assert forall|s: u8| #[trigger] b.contains_key(s) implies 1 <= s <= 4 && b[s].len() <= MAX_KEYS_PER_SLOT by {
            if s != slot { assert(a.contains_key(s)); }
        }
        assert forall|s: u8, i: int| b.contains_key(s) && 0 <= i < b[s].len() implies handed_out(
            #[trigger] b[s][i],
            n2,
        ) by {
            if s == slot && i == old_list.len() {
                assert(b[s][i] == v);
            } else {
                assert(a.contains_key(s));
                assert(b[s][i] == a[s][i]);
            }
        }
        assert forall|s1: u8, i1: int, s2: u8, i2: int|
            b.contains_key(s1) && b.contains_key(s2) && 0 <= i1 < b[s1].len() && 0 <= i2 < b[s2].len()
                && (s1 != s2 || i1 != i2) implies #[trigger] b[s1][i1] != #[trigger] b[s2][i2] by {
            let new1 = s1 == slot && i1 == old_list.len();
            let new2 = s2 == slot && i2 == old_list.len();
            if new1 && !new2 {
                assert(a[s2][i2] == b[s2][i2]);
                assert(handed_out(a[s2][i2], next));
            } else if new2 && !new1 {
                assert(a[s1][i1] == b[s1][i1]);
                assert(handed_out(a[s1][i1], next));
            } else if !new1 && !new2 {
                assert(a[s1][i1] == b[s1][i1]);
                assert(a[s2][i2] == b[s2][i2]);
            }
        }
        assert forall|j: int| 0 <= j < n2 implies #[trigger] is_held(b, pool_key(j)) by {
            if j == next {
                assert(b[slot][old_list.len() as int] == v);
            } else {
                assert(is_held(a, pool_key(j)));
                let (s0, i0) = choose|s: u8, i: int|
                    a.contains_key(s) && 0 <= i < a[s].len() && #[trigger] a[s][i] == pool_key(j);
                assert(b[s0][i0] == a[s0][i0]);
            }
        }
    }
}

/// A key handed out by `request_key` is read back by `get_vk` at the index
/// it was handed out with, and every earlier assignment reads back unchanged.
pub proof fn lemma_request_then_lookup(a: Map<u8, Seq<u16>>, next: nat, slot: u8, other: u8, idx: int)
    requires
        pool_state_ok(a, next),
    ensures
        request_result(a, next, slot) matches Some((gba_idx, vk)) ==> lookup_vk(
            table_after_request(a, next, slot),
            slot,
            gba_idx as int,
        ) == Some(vk),
        lookup_vk(a, other, idx) is Some ==> lookup_vk(table_after_request(a, next, slot), other, idx)
            == lookup_vk(a, other, idx),
{
}

/// Once all 72 keys are handed out, each of the four slots holds 18.
pub proof fn lemma_exhausted_pool_is_full(a: Map<u8, Seq<u16>>)
    requires
        pool_state_ok(a, POOL_SIZE as nat),
    ensures
        forall|s: u8| 1 <= s <= 4 ==> #[trigger] a.contains_key(s) && a[s].len() == MAX_KEYS_PER_SLOT,
{
    assert(a.contains_key(1) ==> a[1].len() <= 18);
    assert(a.contains_key(2) ==> a[2].len() <= 18);
    assert(a.contains_key(3) ==> a[3].len() <= 18);
    assert(a.contains_key(4) ==> a[4].len() <= 18);
}

/// The table and count after a sequence of `request_key` calls on a fresh
/// pool, one per slot in `slots`.
pub open spec fn run_requests(slots: Seq<u8>) -> (Map<u8, Seq<u16>>, nat)
    decreases slots.len(),
{
    if slots.len() == 0 {
        (Map::empty(), 0)
    } else {
        let (a, n) = run_requests(slots.drop_last());
        (table_after_request(a, n, slots.last()), next_after_request(a, n, slots.last()))
    }
}

/// The keys that the calls of `slots` (on a fresh pool) returned to slot
/// `s`, in call order.
pub open spec fn returned_to(slots: Seq<u8>, s: u8) -> Seq<u16>
    decreases slots.len(),
{
    if slots.len() == 0 {
        Seq::empty()
    } else {
        let before = returned_to(slots.drop_last(), s);
        let (a, n) = run_requests(slots.drop_last());
        if slots.last() == s && request_result(a, n, s) is Some {
            before.push((request_result(a, n, s)->0).1)
        } else {
            before
        }
    }
}

/// History of a pool: after any sequence of requests on a fresh pool, the
/// table is consistent, a slot appears in it exactly when some request for
/// it succeeded, and it lists the keys returned to that slot, in call order.
pub proof fn lemma_request_history(slots: Seq<u8>, s: u8)
    ensures
        pool_state_ok(run_requests(slots).0, run_requests(slots).1),
        slot_list(run_requests(slots).0, s) == returned_to(slots, s),
        run_requests(slots).0.contains_key(s) <==> returned_to(slots, s).len() > 0,
    decreases slots.len(),
{
    if slots.len() == 0 {
        assert(pool_state_ok(Map::<u8, Seq<u16>>::empty(), 0)) by {
            assert forall|j: int| 0 <= j < 0 implies #[trigger] is_held(Map::<u8, Seq<u16>>::empty(), pool_key(j)) by {}
        }
    } else {
        let prev = slots.drop_last();
        lemma_request_history(prev, s);
        let (a, n) = run_requests(prev);
        let t = slots.last();
        lemma_request_keeps_consistency(a, n, t);
        if 1 <= t <= 4 && !(slot_list(a, t).len() >= MAX_KEYS_PER_SLOT) && n >= POOL_SIZE {
            lemma_exhausted_pool_is_full(a);
        }
    }
}

/// A pool built by `KeyPool::new` and the requests of `slots` is in the
/// state `run_requests(slots)`; so the history law applies to it.
pub proof fn lemma_pool_follows_requests(p_old: KeyPool, p_new: KeyPool, slots: Seq<u8>, slot: u8)
    requires
        p_old.assignments() == run_requests(slots).0,
        p_old.next() == run_requests(slots).1,
        p_new.assignments() == table_after_request(p_old.assignments(), p_old.next(), slot),
        p_new.next() == next_after_request(p_old.assignments(), p_old.next(), slot),
    ensures
        p_new.assignments() == run_requests(slots.push(slot)).0,
        p_new.next() == run_requests(slots.push(slot)).1,
{
    assert(slots.push(slot).drop_last() =~= slots);
}

/// Pool of keys plus the per-slot assignment record.
pub struct KeyPool {
    /// All keys of the pool, in hand-out order.
    available: Vec<u16>,
    /// Position in `available` of the next key to hand out.
    next_idx: usize,
    /// Slot -> keys assigned to it; the index in the list is the GBA index.
    assigned: HashMap<u8, Vec<u16>>,
}

impl KeyPool {
    /// How many keys have been handed out.
    pub closed spec fn next(&self) -> nat {
        self.next_idx as nat
    }

    /// The assignment table: slot -> keys in hand-out order.
    pub closed spec fn assignments(&self) -> Map<u8, Seq<u16>> {
        self.assigned@.map_values(|v: Vec<u16>| v@)
    }

    /// Well-formedness: the pool is the fixed key list and the table is
    /// consistent with the number of keys handed out.
    pub closed spec fn wf(&self) -> bool {
        &&& self.available@ == pool_keys()
        &&& pool_state_ok(self.assignments(), self.next())
    }
}

fn push_range(v: &mut Vec<u16>, lo: u16, hi: u16)
    requires
        lo <= hi,
        old(v)@.len() + (hi - lo) <= POOL_SIZE,
    ensures
        final(v)@ == old(v)@ + Seq::new((hi - lo) as nat, |k: int| (lo + k) as u16),
{
    let ghost start = old(v)@;
    let mut k = lo;
    while k < hi
        invariant
            lo <= k <= hi,
            v@ == start + Seq::new((k - lo) as nat, |m: int| (lo + m) as u16),
        decreases hi - k,
    {
        v.push(k);
        k = k + 1;
        assert(v@ =~= start + Seq::new((k - lo) as nat, |m: int| (lo + m) as u16));
    }
    assert(v@ =~= start + Seq::new((hi - lo) as nat, |m: int| (lo + m) as u16));
}

impl KeyPool {
    /// A fresh pool: all 72 keys available, nothing assigned.
    pub fn new() -> (p: KeyPool)
        ensures
            p.wf(),
            p.next() == 0,
            p.assignments() == Map::<u8, Seq<u16>>::empty(),
    {
        let mut available: Vec<u16> = Vec::new();
        // 0-25: letters A-Z
        push_range(&mut available, 0x41, 0x5B);
        // 26-35: digits 0-9
        push_range(&mut available, 0x30, 0x3A);
        // 36-46: F1-F10, then F12
        push_range(&mut available, 0x70, 0x7A);
        available.push(0x7B);
        // 47-57: numpad 0-9 and decimal
        push_range(&mut available, 0x60, 0x6A);
        available.push(0x6E);
        // 58-61: arrows up, down, left, right
        available.push(0x26);
        available.push(0x28);
        available.push(0x25);
        available.push(0x27);
        // 62-67: Insert, Delete, Home, End, PgUp, PgDn
        available.push(0x2D);
        available.push(0x2E);
        available.push(0x24);
        available.push(0x23);
        available.push(0x21);
        available.push(0x22);
        // 68-71: numpad operators * / + -
        available.push(0x6A);
        available.push(0x6F);
        available.push(0x6B);
        available.push(0x6D);
        assert(available@ =~= pool_keys());
        let p = KeyPool { available, next_idx: 0, assigned: HashMap::new() };
        assert(p.assignments() =~= Map::<u8, Seq<u16>>::empty());
        p
    }

    /// Requests the next pool key for a slot. Returns `(gba_idx, vk)` where
    /// `gba_idx` is the slot's sequential index (0 to 17). Returns `None` for
    /// a slot outside 1 to 4, when the slot already holds 18 keys, or when the
    /// pool is exhausted. A valid slot is entered in the table either way.
    pub fn request_key(&mut self, slot: u8) -> (r: Option<(usize, u16)>)
        requires
            old(self).wf(),
        ensures
            final(self).wf(),
            r == request_result(old(self).assignments(), old(self).next(), slot),
            final(self).assignments() == table_after_request(old(self).assignments(), old(self).next(), slot),
            final(self).next() == next_after_request(old(self).assignments(), old(self).next(), slot),
    {
        proof {
            lemma_request_keeps_consistency(self.assignments(), self.next(), slot);
        }
        if slot < 1 || slot > 4 {
            return None;
        }
        let ghost a = self.assignments();
        let mut slot_keys: Vec<u16> = match self.assigned.remove(&slot) {
            Some(v) => v,
            None => Vec::new(),
        };
        assert(slot_keys@ == slot_list(a, slot));
        let r = if slot_keys.len() >= MAX_KEYS_PER_SLOT || self.next_idx >= self.available.len() {
            None
        } else {
            let vk = self.available[self.next_idx];
            self.next_idx = self.next_idx + 1;
            let gba_idx = slot_keys.len();
            slot_keys.push(vk);
            Some((gba_idx, vk))
        };
        self.assigned.insert(slot, slot_keys);
        assert(self.assignments() =~= table_after_request(a, old(self).next(), slot));
        r
    }

    /// The key assigned to a slot at a GBA index, if any.
    pub fn get_vk(&self, slot: u8, gba_idx: usize) -> (r: Option<u16>)
        requires
            self.wf(),
        ensures
            r == lookup_vk(self.assignments(), slot, gba_idx as int),
    {
        match self.assigned.get(&slot) {
            Some(keys) => {
                if gba_idx < keys.len() {
                    Some(keys[gba_idx])
                } else {
                    None
                }
            },
            None => None,
        }
    }

    /// All keys assigned to a slot, in GBA-index order, if the slot has been
    /// entered in the table.
    pub fn slot_assigned(&self, slot: u8) -> (r: Option<&Vec<u16>>)
        requires
            self.wf(),
        ensures
            r is Some <==> self.assignments().contains_key(slot),
            r matches Some(v) ==> v@ == self.assignments()[slot],
    {
        self.assigned.get(&slot)
    }
}

/// A well-formed pool's table is consistent (the consistency laws above
/// apply to it).
pub proof fn lemma_wf_consistent(p: KeyPool)
    requires
        p.wf(),
    ensures
        pool_state_ok(p.assignments(), p.next()),
{
}

/// A fresh pool is the state before any request.
pub proof fn lemma_fresh_pool_is_start(p: KeyPool)
    requires
        p.next() == 0,
        p.assignments() == Map::<u8, Seq<u16>>::empty(),
    ensures
        p.assignments() == run_requests(Seq::empty()).0,
        p.next() == run_requests(Seq::empty()).1,
{
}

impl Default for KeyPool {
    fn default() -> (p: KeyPool)
        ensures
            p.wf(),
            p.next() == 0,
            p.assignments() == Map::<u8, Seq<u16>>::empty(),
    {
        KeyPool::new()
    }
}

} // verus!

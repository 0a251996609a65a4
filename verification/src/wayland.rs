//! Capture sources on Wayland. The desktop portal hands over one PipeWire
//! node per window the user picked; each becomes a source with a session-wide
//! id, and the user assigns sources to GBA slots (at most one source per slot).

use vstd::prelude::*;
use crate::text::{concat, decimal, decimal_string};

verus! {

/// A captured window as offered to the frontend.
#[derive(Debug)]
pub struct WaylandSource {
    pub id: u64,
    pub label: String,
    pub node_id: u32,
    pub gba_slot: Option<u8>,
}

/// A copy of a source.
pub fn copy_source(s: &WaylandSource) -> (c: WaylandSource)
    ensures
        c == *s,
{
    WaylandSource { id: s.id, label: s.label.clone(), node_id: s.node_id, gba_slot: s.gba_slot }
}

/// Copies of a list of sources.
pub fn copy_sources(v: &Vec<WaylandSource>) -> (c: Vec<WaylandSource>)
    ensures
        c@ == v@,
{
    let mut c: Vec<WaylandSource> = Vec::new();
    for i in 0..v.len()
        invariant
            c@ == v@.take(i as int),
    {
        c.push(copy_source(&v[i]));
        assert(c@ =~= v@.take(i + 1));
    }
    assert(v@.take(v@.len() as int) =~= v@);
    c
}

/// Whether the login session is a Wayland one: `WAYLAND_DISPLAY` is set, or
/// `XDG_SESSION_TYPE` is "wayland" in any ASCII case.
pub open spec fn wayland_session(display_set: bool, session_type: Option<Seq<char>>) -> bool {
    display_set || match session_type {
        Some(t) => ascii_eq_ignore_case(t, "wayland"@),
        None => false,
    }
}

/// ASCII lowercase of one character.
pub open spec fn ascii_lower(c: char) -> char {
    if 'A' <= c <= 'Z' { ((c as u32) + 32) as char } else { c }
}

/// Equal up to ASCII case (`str::eq_ignore_ascii_case`).
pub open spec fn ascii_eq_ignore_case(a: Seq<char>, b: Seq<char>) -> bool {
    a.len() == b.len() && forall|i: int| 0 <= i < a.len() ==> ascii_lower(#[trigger] a[i]) == ascii_lower(b[i])
}

fn lower_char(c: char) -> (r: char)
    ensures
        r == ascii_lower(c),
{
    if 'A' <= c && c <= 'Z' {
        let code = (c as u32) + 32;
        char_from_ascii(code)
    } else {
        c
    }
}

fn char_from_ascii(code: u32) -> (c: char)
    requires
        code < 128,
    ensures
        c as u32 == code,
{
    (code as u8) as char
}

/// Whether two texts are equal up to ASCII case.
pub fn eq_ignore_ascii_case(a: &str, b: &str) -> (r: bool)
    ensures
        r == ascii_eq_ignore_case(a@, b@),
{
    let x = crate::text::chars_of(a);
    let y = crate::text::chars_of(b);
    if x.len() != y.len() {
        return false;
    }
    for i in 0..x.len()
        invariant
            x@ == a@,
            y@ == b@,
            x@.len() == y@.len(),
            forall|j: int| 0 <= j < i ==> ascii_lower(#[trigger] a@[j]) == ascii_lower(b@[j]),
    {
        if lower_char(x[i]) != lower_char(y[i]) {
            return false;
        }
    }
    true
}

/// Decides whether the login session is a Wayland one from the environment:
/// whether `WAYLAND_DISPLAY` is set and the value of `XDG_SESSION_TYPE`.
pub fn is_wayland_session(wayland_display_set: bool, session_type: Option<&str>) -> (r: bool)
    ensures
        r == wayland_session(wayland_display_set, match session_type {
            Some(t) => Some(t@),
            None => None,
        }),
{
    if wayland_display_set {
        return true;
    }
    match session_type {
        Some(t) => eq_ignore_ascii_case(t, "wayland"),
        None => false,
    }
}

/// Label shown for the source of a PipeWire node.
pub open spec fn source_label(node_id: u32) -> Seq<char> {
    "Source #"@ + decimal(node_id as nat)
}

/// Slot given automatically to the source at position `i` of a selection:
/// the first four get GBA1 to GBA4, the others none.
pub open spec fn auto_slot(i: int) -> Option<u8> {
    if 0 <= i < 4 { Some((i + 1) as u8) } else { None }
}

/// The listing of the nodes `order` (in selection order) with ids
/// `next_id + 1`, `next_id + 2`, ... and automatic slots.
pub open spec fn fresh_listing(next_id: u64, order: Seq<u32>, out: Seq<WaylandSource>) -> bool {
    &&& out.len() == order.len()
    &&& forall|i: int| 0 <= i < out.len() ==> {
        let s = #[trigger] out[i];
        &&& s.id == next_id + i + 1
        &&& s.node_id == order[i]
        &&& s.label@ == source_label(order[i])
        &&& s.gba_slot == auto_slot(i)
    }
}

/// The sources that a portal selection produces when ids were handed out up
/// to `next_id`. Portals return streams last-picked first, so the nodes are
/// taken in reverse: the first window the user picked comes first, gets the
/// next id and GBA1, the second GBA2, and so on up to GBA4.
pub open spec fn fresh_sources(next_id: u64, nodes: Seq<u32>, out: Seq<WaylandSource>) -> bool {
    fresh_listing(next_id, nodes.reverse(), out)
}

/// Ids strictly increase along the list and none exceeds `next_id`; every
/// assigned slot is 1 to 4 and held by one source only.
pub open spec fn sources_ok(srcs: Seq<WaylandSource>, next_id: u64) -> bool {
    &&& forall|i: int, j: int| 0 <= i < j < srcs.len() ==> #[trigger] srcs[i].id < #[trigger] srcs[j].id
    &&& forall|i: int| 0 <= i < srcs.len() ==> #[trigger] srcs[i].id <= next_id
    &&& forall|i: int| 0 <= i < srcs.len() && #[trigger] srcs[i].gba_slot is Some ==> 1 <= srcs[i].gba_slot->0 <= 4
    &&& forall|i: int, j: int|
        0 <= i < j < srcs.len() && #[trigger] srcs[i].gba_slot is Some ==> #[trigger] srcs[j].gba_slot
            != srcs[i].gba_slot
}

proof fn lemma_index_of_unique(srcs: Seq<WaylandSource>, i: int)
    requires
        0 <= i < srcs.len(),
        forall|a: int, b: int| 0 <= a < b < srcs.len() ==> #[trigger] srcs[a].id < #[trigger] srcs[b].id,
    ensures
        index_of_id(srcs, srcs[i].id) == Some(i),
{
    let id = srcs[i].id;
    assert(srcs[i].id == id);
    let k = choose|j: int| 0 <= j < srcs.len() && #[trigger] srcs[j].id == id;
    if k < i {
        assert(srcs[k].id < srcs[i].id);
    } else if k > i {
        assert(srcs[i].id < srcs[k].id);
    }
}

proof fn lemma_index_of_none(srcs: Seq<WaylandSource>, id: u64)
    requires
        forall|j: int| 0 <= j < srcs.len() ==> #[trigger] srcs[j].id != id,
    ensures
        index_of_id(srcs, id) is None,
{
}

/// Clearing a slot keeps ids, order and consistency, and leaves the slot free.
proof fn lemma_cleared_ok(srcs: Seq<WaylandSource>, next: u64, s: u8)
    requires
        sources_ok(srcs, next),
    ensures
        sources_ok(slot_cleared(srcs, s), next),
        slot_cleared(srcs, s).len() == srcs.len(),
        forall|k: int| 0 <= k < srcs.len() ==> #[trigger] slot_cleared(srcs, s)[k].id == srcs[k].id,
        forall|k: int| 0 <= k < srcs.len() ==> #[trigger] slot_cleared(srcs, s)[k].gba_slot != Some(s),
{
    let c = slot_cleared(srcs, s);
    assert forall|i: int, j: int| 0 <= i < j < c.len() && #[trigger] c[i].gba_slot is Some implies #[trigger] c[j].gba_slot
        != c[i].gba_slot by {
        assert(srcs[i].gba_slot is Some);
    }
}

/// Assigning a slot keeps the source list consistent: ids are unchanged and
/// a slot is never held by two sources. The target is found in the cleared
/// list exactly when it is in the original one.
pub proof fn lemma_assign_keeps_ok(srcs: Seq<WaylandSource>, next: u64, source_id: u64, slot: Option<u8>)
    requires
        sources_ok(srcs, next),
    ensures
        sources_ok(sources_after_assign(srcs, source_id, slot), next),
        (match slot {
            Some(s) => index_of_id(slot_cleared(srcs, s), source_id) == index_of_id(srcs, source_id),
            None => true,
        }),
{
    match slot {
        Some(s) => {
            if 1 <= s <= 4 {
                lemma_cleared_ok(srcs, next, s);
                let base = slot_cleared(srcs, s);
                if exists|j: int| 0 <= j < srcs.len() && #[trigger] srcs[j].id == source_id {
                    let i = choose|j: int| 0 <= j < srcs.len() && #[trigger] srcs[j].id == source_id;
                    lemma_index_of_unique(srcs, i);
                    assert(base[i].id == source_id);
                    lemma_index_of_unique(base, i);
                    let after = with_slot(base, i, slot);
                    assert forall|a: int, b: int| 0 <= a < b < after.len() && #[trigger] after[a].gba_slot is Some
                        implies #[trigger] after[b].gba_slot != after[a].gba_slot by {
                        if a != i && b != i {
                            assert(base[a].gba_slot is Some);
                        }
                    }
                    assert(sources_ok(after, next));
                } else {
                    lemma_index_of_none(srcs, source_id);
                    lemma_index_of_none(base, source_id);
                }
            }
        },
        None => {
            if exists|j: int| 0 <= j < srcs.len() && #[trigger] srcs[j].id == source_id {
                let i = choose|j: int| 0 <= j < srcs.len() && #[trigger] srcs[j].id == source_id;
                lemma_index_of_unique(srcs, i);
                let after = with_slot(srcs, i, slot);
                assert forall|a: int, b: int| 0 <= a < b < after.len() && #[trigger] after[a].gba_slot is Some
                    implies #[trigger] after[b].gba_slot != after[a].gba_slot by {
                    assert(srcs[a].gba_slot is Some);
                }
            }
        },
    }
}

/// After assigning slot `s` to an existing source, that source holds `s`
/// and no other source does.
pub proof fn lemma_assign_gives_slot(srcs: Seq<WaylandSource>, next: u64, source_id: u64, s: u8)
    requires
        sources_ok(srcs, next),
        1 <= s <= 4,
        index_of_id(srcs, source_id) is Some,
    ensures
        ({
            let after = sources_after_assign(srcs, source_id, Some(s));
            let i = index_of_id(srcs, source_id)->0;
            &&& after[i].id == source_id
            &&& after[i].gba_slot == Some(s)
            &&& forall|k: int| 0 <= k < after.len() && k != i ==> #[trigger] after[k].gba_slot != Some(s)
        }),
{
    lemma_cleared_ok(srcs, next, s);
    lemma_assign_keeps_ok(srcs, next, source_id, Some(s));
}

/// A new portal selection never reuses an id: ids handed out before it are
/// not found among the new sources.
pub proof fn lemma_fresh_ids_exclude_old(next_id: u64, nodes: Seq<u32>, out: Seq<WaylandSource>, id: u64)
    requires
        fresh_sources(next_id, nodes, out),
        id <= next_id,
    ensures
        index_of_id(out, id) is None,
{
    assert forall|j: int| 0 <= j < out.len() implies #[trigger] out[j].id != id by {
        assert(out[j].id == next_id + j + 1);
    }
}

/// Captured sources and their slot assignments.
pub struct WaylandData {
    sources: Vec<WaylandSource>,
    next_id: u64,
}

/// The source with the given id, if any.
pub open spec fn index_of_id(srcs: Seq<WaylandSource>, id: u64) -> Option<int> {
    if exists|i: int| 0 <= i < srcs.len() && #[trigger] srcs[i].id == id {
        Some(choose|i: int| 0 <= i < srcs.len() && #[trigger] srcs[i].id == id)
    } else {
        None
    }
}

/// `srcs` with `slot` taken away from whichever source held it.
pub open spec fn slot_cleared(srcs: Seq<WaylandSource>, slot: u8) -> Seq<WaylandSource> {
    srcs.map_values(
        |s: WaylandSource|
            if s.gba_slot == Some(slot) {
                WaylandSource { id: s.id, label: s.label, node_id: s.node_id, gba_slot: None }
            } else {
                s
            },
    )
}

/// The list after assigning `slot` (or no slot) to the source at index `i`.
pub open spec fn with_slot(srcs: Seq<WaylandSource>, i: int, slot: Option<u8>) -> Seq<WaylandSource> {
    let s = srcs[i];
    srcs.update(i, WaylandSource { id: s.id, label: s.label, node_id: s.node_id, gba_slot: slot })
}

/// The list after `assign_slot(source_id, slot)`, successful or not: a slot
/// outside 1 to 4 changes nothing; otherwise the slot is first taken from
/// whoever held it, then given to the source (if it exists).
pub open spec fn sources_after_assign(srcs: Seq<WaylandSource>, source_id: u64, slot: Option<u8>) -> Seq<WaylandSource> {
    match slot {
        Some(s) if !(1 <= s <= 4) => srcs,
        _ => {
            let base = match slot {
                Some(s) => slot_cleared(srcs, s),
                None => srcs,
            };
            match index_of_id(base, source_id) {
                Some(i) => with_slot(base, i, slot),
                None => base,
            }
        },
    }
}

/// The error of `assign_slot`, if it fails.
pub open spec fn assign_error(srcs: Seq<WaylandSource>, source_id: u64, slot: Option<u8>) -> Option<Seq<char>> {
    match slot {
        Some(s) if !(1 <= s <= 4) => Some("Slot non valido: "@ + decimal(s as nat)),
        _ => if index_of_id(srcs, source_id) is None {
            Some("Source "@ + decimal(source_id as nat) + " non trovato"@)
        } else {
            None
        },
    }
}

impl WaylandData {
    /// The captured sources, in portal order.
    pub closed spec fn sources(&self) -> Seq<WaylandSource> {
        self.sources@
    }

    /// The last id handed out.
    pub closed spec fn last_id(&self) -> u64 {
        self.next_id
    }

    /// Well-formedness of the source list.
    pub closed spec fn wf(&self) -> bool {
        sources_ok(self.sources@, self.next_id)
    }

    /// No sources yet.
    pub fn new() -> (d: WaylandData)
        ensures
            d.wf(),
            d.sources() == Seq::<WaylandSource>::empty(),
            d.last_id() == 0,
    {
        WaylandData { sources: Vec::new(), next_id: 0 }
    }

    /// The last id handed out.
    pub fn last_id_value(&self) -> (id: u64)
        ensures
            id == self.last_id(),
    {
        self.next_id
    }

    /// The captured sources.
    pub fn list(&self) -> (v: Vec<WaylandSource>)
        ensures
            v@ == self.sources(),
    {
        copy_sources(&self.sources)
    }

    /// Looks up a source by id: its PipeWire node and label.
    pub fn lookup(&self, id: u64) -> (r: Option<(u32, String)>)
        requires
            self.wf(),
        ensures
            r is Some <==> index_of_id(self.sources(), id) is Some,
            r matches Some((node, label)) ==> {
                let i = index_of_id(self.sources(), id)->0;
                node == self.sources()[i].node_id && label == self.sources()[i].label
            },
    {
        let mut i: usize = 0;
        while i < self.sources.len()
            invariant
                self.wf(),
                i <= self.sources@.len(),
                forall|j: int| 0 <= j < i ==> #[trigger] self.sources@[j].id != id,
            decreases self.sources@.len() - i,
        {
            if self.sources[i].id == id {
                proof {
                    let srcs = self.sources@;
                    assert(srcs[i as int].id == id);
                    assert(exists|j: int| 0 <= j < srcs.len() && #[trigger] srcs[j].id == id);
                    let k = choose|j: int| 0 <= j < srcs.len() && #[trigger] srcs[j].id == id;
                    assert(index_of_id(srcs, id) == Some(k));
                    assert(0 <= k < srcs.len() && srcs[k].id == id);
                    if k != i {
                        if k < i {
                            assert(self.sources@[k].id < self.sources@[i as int].id);
                        } else {
                            assert(self.sources@[i as int].id < self.sources@[k].id);
                        }
                    }
                }
                return Some((self.sources[i].node_id, self.sources[i].label.clone()));
            }
            i = i + 1;
        }
        None
    }

    /// Replaces the sources by those of a new portal selection, one per
    /// PipeWire node (the portal lists them last-picked first), with fresh
    /// ids and slots GBA1 to GBA4 given in picking order; returns the new list.
    pub fn replace_sources(&mut self, node_ids: &[u32]) -> (out: Vec<WaylandSource>)
        requires
            old(self).wf(),
            old(self).last_id() + node_ids@.len() <= u64::MAX,
        ensures
            final(self).wf(),
            fresh_sources(old(self).last_id(), node_ids@, final(self).sources()),
            final(self).last_id() == old(self).last_id() + node_ids@.len(),
            out@ == final(self).sources(),
    {
        let ghost first = self.next_id;
        let ghost order = node_ids@.reverse();
        self.sources = Vec::new();
        let n = node_ids.len();
        for i in 0..n
            invariant
                n == node_ids@.len(),
                order == node_ids@.reverse(),
                first + node_ids@.len() <= u64::MAX,
                self.next_id == first + i,
                fresh_listing(first, order.take(i as int), self.sources@),
        {
            self.next_id = self.next_id + 1;
            let node_id = node_ids[n - 1 - i];
            assert(node_id == order[i as int]);
            let label = concat("Source #", decimal_string(node_id as u64).as_str());
            let gba_slot: Option<u8> = if i < 4 { Some((i + 1) as u8) } else { None };
            let ghost before = self.sources@;
            self.sources.push(WaylandSource { id: self.next_id, label, node_id, gba_slot });
            assert(fresh_listing(first, order.take(i + 1), self.sources@)) by {
                assert forall|k: int| 0 <= k < self.sources@.len() implies {
                    let s = #[trigger] self.sources@[k];
                    &&& s.id == first + k + 1
                    &&& s.node_id == order.take(i + 1)[k]
                    &&& s.label@ == source_label(order.take(i + 1)[k])
                    &&& s.gba_slot == auto_slot(k)
                } by {
                    if k < i {
                        assert(self.sources@[k] == before[k]);
                        assert(order.take(i + 1)[k] == order.take(i as int)[k]);
                    }
                }
            }
        }
        assert(order.take(n as int) =~= order);
        assert(sources_ok(self.sources@, self.next_id)) by {
            let srcs = self.sources@;
            assert forall|a: int, b: int| 0 <= a < b < srcs.len() && #[trigger] srcs[a].gba_slot is Some
                implies #[trigger] srcs[b].gba_slot != srcs[a].gba_slot by {
                assert(srcs[a].gba_slot == auto_slot(a));
                assert(srcs[b].gba_slot == auto_slot(b));
            }
        }
        copy_sources(&self.sources)
    }

    /// Assigns a source to a slot, or clears its slot with `None`. A slot
    /// held by another source is taken from it first. Returns the updated list.
    pub fn assign_slot(&mut self, source_id: u64, slot: Option<u8>) -> (r: Result<Vec<WaylandSource>, String>)
        requires
            old(self).wf(),
        ensures
            final(self).wf(),
            final(self).last_id() == old(self).last_id(),
            final(self).sources() == sources_after_assign(old(self).sources(), source_id, slot),
            r is Err <==> assign_error(old(self).sources(), source_id, slot) is Some,
            r matches Err(e) ==> assign_error(old(self).sources(), source_id, slot) == Some(e@),
            r matches Ok(v) ==> v@ == final(self).sources(),
    {
        if let Some(s) = slot {
            if s < 1 || s > 4 {
                return Err(concat("Slot non valido: ", decimal_string(s as u64).as_str()));
            }
        }
        let ghost srcs0 = self.sources@;
        if let Some(s) = slot {
            let n = self.sources.len();
            for i in 0..n
                invariant
                    n == srcs0.len(),
                    self.sources@.len() == n,
                    self.next_id == old(self).next_id,
                    forall|k: int| 0 <= k < i ==> #[trigger] self.sources@[k] == slot_cleared(srcs0, s)[k],
                    forall|k: int| i <= k < n ==> #[trigger] self.sources@[k] == srcs0[k],
            {
                if self.sources[i].gba_slot == Some(s) {
                    let c = WaylandSource {
                        id: self.sources[i].id,
                        label: self.sources[i].label.clone(),
                        node_id: self.sources[i].node_id,
                        gba_slot: None,
                    };
                    self.sources.set(i, c);
                }
            }
            assert(self.sources@ =~= slot_cleared(srcs0, s));
        }
        let ghost base = self.sources@;
        assert(base == match slot {
            Some(s) => slot_cleared(srcs0, s),
            None => srcs0,
        });
        assert(forall|k: int| 0 <= k < base.len() ==> #[trigger] base[k].id == srcs0[k].id);
        let mut i: usize = 0;
        while i < self.sources.len()
            invariant
                self.sources@ == base,
                self.next_id == old(self).next_id,
                srcs0 == old(self).sources@,
                sources_ok(srcs0, self.next_id),
                slot matches Some(s) ==> 1 <= s <= 4,
                base == match slot {
                    Some(s) => slot_cleared(srcs0, s),
                    None => srcs0,
                },
                base.len() == srcs0.len(),
                forall|k: int| 0 <= k < base.len() ==> #[trigger] base[k].id == srcs0[k].id,
                i <= base.len(),
                forall|j: int| 0 <= j < i ==> #[trigger] base[j].id != source_id,
            decreases base.len() - i,
        {
            if self.sources[i].id == source_id {
                let c = WaylandSource {
                    id: self.sources[i].id,
                    label: self.sources[i].label.clone(),
                    node_id: self.sources[i].node_id,
                    gba_slot: slot,
                };
                self.sources.set(i, c);
                proof {
                    assert forall|a: int, b: int| 0 <= a < b < base.len() implies #[trigger] base[a].id
                        < #[trigger] base[b].id by {
                        assert(srcs0[a].id < srcs0[b].id);
                    }
                    lemma_index_of_unique(base, i as int);
                    lemma_index_of_unique(srcs0, i as int);
                    lemma_assign_keeps_ok(srcs0, self.next_id, source_id, slot);
                    assert(self.sources@ =~= with_slot(base, i as int, slot));
                }
                return Ok(copy_sources(&self.sources));
            }
            i = i + 1;
        }
        proof {
            assert forall|j: int| 0 <= j < srcs0.len() implies #[trigger] srcs0[j].id != source_id by {
                assert(base[j].id == srcs0[j].id);
            }
            lemma_index_of_none(base, source_id);
            lemma_index_of_none(srcs0, source_id);
            lemma_assign_keeps_ok(srcs0, self.next_id, source_id, slot);
        }
        Err(concat(concat("Source ", decimal_string(source_id).as_str()).as_str(), " non trovato"))
    }
}

/// A well-formed source list is consistent (the laws on `sources_ok` apply
/// to it).
pub proof fn lemma_wf_consistent(d: WaylandData)
    requires
        d.wf(),
    ensures
        sources_ok(d.sources(), d.last_id()),
{
}

impl Default for WaylandData {
    fn default() -> (d: WaylandData)
        ensures
            d.wf(),
            d.sources() == Seq::<WaylandSource>::empty(),
            d.last_id() == 0,
    {
        WaylandData::new()
    }
}

} // verus!

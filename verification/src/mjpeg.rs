//! Incremental splitter for FFmpeg's multipart JPEG output. Bytes arrive
//! from the ingest socket in chunks of any size; they leave as whole parts,
//! each running from one boundary line to the next, ready to be relayed to
//! viewers. Whatever follows the last boundary line seen is held back until
//! the next boundary line arrives.

use vstd::prelude::*;

verus! {

/// Length of the boundary line.
pub const BOUNDARY_LEN: usize = 10;

/// The boundary line that opens every part of FFmpeg's `mpjpeg` muxer:
/// `--ffmpeg` followed by CR LF.
pub open spec fn boundary() -> Seq<u8> {
    seq![45u8, 45u8, 102u8, 102u8, 109u8, 112u8, 101u8, 103u8, 13u8, 10u8]
}

/// A whole boundary line starts at position `i` of `s`.
pub open spec fn boundary_at(s: Seq<u8>, i: int) -> bool {
    0 <= i && i + 10 <= s.len() && s.subrange(i, i + 10) == boundary()
}

/// Position of the first whole boundary line that starts at `i` or later.
pub open spec fn next_boundary(s: Seq<u8>, i: int) -> Option<int>
    decreases s.len() - i,
{
    if i + 10 > s.len() {
        None
    } else if boundary_at(s, i) {
        Some(i)
    } else {
        next_boundary(s, i + 1)
    }
}

/// Splits `s` from the cut at `start`: a part runs from the cut to the
/// first boundary line that starts after the cut's first byte, where the
/// next cut is made. Gives the parts and the position of the last cut,
/// from which the bytes are held back.
pub open spec fn split_from(s: Seq<u8>, start: int) -> (Seq<Seq<u8>>, int)
    decreases s.len() - start,
{
    match next_boundary(s, start + 1) {
        Some(k) => if start < k <= s.len() {
            let rest = split_from(s, k);
            (seq![s.subrange(start, k)] + rest.0, rest.1)
        } else {
            (Seq::empty(), start)
        },
        None => (Seq::empty(), start),
    }
}

/// The whole parts a byte stream holds.
pub open spec fn parts_of(s: Seq<u8>) -> Seq<Seq<u8>> {
    split_from(s, 0).0
}

/// The bytes of a stream that follow its last cut, held back.
pub open spec fn leftover_of(s: Seq<u8>) -> Seq<u8> {
    s.subrange(split_from(s, 0).1, s.len() as int)
}

/// The bytes of a list of parts.
pub open spec fn part_bytes(parts: Seq<Vec<u8>>) -> Seq<Seq<u8>> {
    parts.map_values(|p: Vec<u8>| p@)
}

/// What `next_boundary` finds: the first boundary line at or after `i`,
/// or none at all.
pub proof fn lemma_next_boundary(s: Seq<u8>, i: int)
    requires
        0 <= i,
    ensures
        next_boundary(s, i) matches Some(k) ==> i <= k && k + 10 <= s.len() && boundary_at(s, k)
            && forall|j: int| i <= j < k ==> !boundary_at(s, j),
        next_boundary(s, i) is None ==> forall|j: int| i <= j ==> !boundary_at(s, j),
    decreases s.len() - i,
{
    if i + 10 <= s.len() && !boundary_at(s, i) {
        lemma_next_boundary(s, i + 1);
    }
}

/// The cuts stay within the stream, every part has at least one byte, and
/// the parts followed by the held-back bytes give back the bytes from the
/// first cut on.
pub proof fn lemma_split_from(s: Seq<u8>, start: int)
    requires
        0 <= start <= s.len(),
    ensures
        start <= split_from(s, start).1 <= s.len(),
        forall|i: int| 0 <= i < split_from(s, start).0.len() ==> #[trigger] split_from(s, start).0[i].len() > 0,
        split_from(s, start).0.flatten() + s.subrange(split_from(s, start).1, s.len() as int)
            == s.subrange(start, s.len() as int),
    decreases s.len() - start,
{
    match next_boundary(s, start + 1) {
        Some(k) => {
            if start < k <= s.len() {
                lemma_split_from(s, k);
                let rest = split_from(s, k);
                let head = s.subrange(start, k);
                let ps = seq![head] + rest.0;
                assert(ps.drop_first() =~= rest.0);
                assert(ps.first() == head);
                assert(ps.flatten() == head + rest.0.flatten());
                assert(s.subrange(start, s.len() as int) =~= head + s.subrange(k, s.len() as int));
                assert(ps.flatten() + s.subrange(rest.1, s.len() as int) =~= head + (rest.0.flatten()
                    + s.subrange(rest.1, s.len() as int)));
                assert forall|i: int| 0 <= i < ps.len() implies #[trigger] ps[i].len() > 0 by {
                    if i > 0 {
                        assert(ps[i] == rest.0[i - 1]);
                    }
                }
            } else {
                assert(s.subrange(start, s.len() as int) =~= Seq::<Seq<u8>>::empty().flatten() + s.subrange(
                    start,
                    s.len() as int,
                ));
            }
        },
        None => {
            assert(s.subrange(start, s.len() as int) =~= Seq::<Seq<u8>>::empty().flatten() + s.subrange(
                start,
                s.len() as int,
            ));
        },
    }
}

/// Nothing is lost, duplicated or reordered: the parts handed out, followed
/// by the bytes held back, are exactly the bytes fed in, and no part is
/// empty.
pub proof fn lemma_parts_lossless(s: Seq<u8>)
    ensures
        parts_of(s).flatten() + leftover_of(s) == s,
        forall|i: int| 0 <= i < parts_of(s).len() ==> #[trigger] parts_of(s)[i].len() > 0,
{
    lemma_split_from(s, 0);
    assert(s.subrange(0, s.len() as int) =~= s);
}

/// Two boundary lines never overlap: the one that starts later starts at
/// least a whole line later.
proof fn lemma_boundaries_apart(s: Seq<u8>, k: int, j: int)
    requires
        boundary_at(s, k),
        boundary_at(s, j),
        k < j,
    ensures
        k + 10 <= j,
{
    if j < k + 10 {
        assert(s.subrange(k, k + 10)[j - k] == s[j]);
        assert(s.subrange(j, j + 10)[0] == s[j]);
        if j - k == 1 {
            assert(s.subrange(k, k + 10)[2] == s[j + 1]);
            assert(s.subrange(j, j + 10)[1] == s[j + 1]);
        }
    }
}

/// Where the cuts fall: every part after the first begins with a boundary
/// line, the bytes from the last cut on begin with one once a part has
/// been cut, and the first part does too when the stream does.
proof fn lemma_split_cuts(s: Seq<u8>, start: int)
    requires
        0 <= start <= s.len(),
    ensures
        forall|i: int| 0 < i < split_from(s, start).0.len() ==> (#[trigger] split_from(s, start).0[i]).len()
            >= 10 && split_from(s, start).0[i].take(10) == boundary(),
        split_from(s, start).0.len() > 0 ==> boundary_at(s, split_from(s, start).1),
        boundary_at(s, start) && split_from(s, start).0.len() > 0 ==> split_from(s, start).0[0].len() >= 10
            && split_from(s, start).0[0].take(10) == boundary(),
    decreases s.len() - start,
{
    match next_boundary(s, start + 1) {
        Some(k) => {
            lemma_next_boundary(s, start + 1);
            lemma_split_cuts(s, k);
            let rest = split_from(s, k);
            let head = s.subrange(start, k);
            let ps = seq![head] + rest.0;
            assert forall|i: int| 0 < i < ps.len() implies (#[trigger] ps[i]).len() >= 10 && ps[i].take(10)
                == boundary() by {
                assert(ps[i] == rest.0[i - 1]);
            }
            if boundary_at(s, start) {
                lemma_boundaries_apart(s, start, k);
                assert(head.take(10) =~= s.subrange(start, start + 10));
            }
        },
        None => {},
    }
}

/// Only the very first part of a stream can carry bytes from before the
/// first boundary line: every later part begins with a whole boundary
/// line, so do the held-back bytes once a part has been cut, and so does
/// the first part when the stream itself begins with one.
pub proof fn lemma_parts_start_at_boundaries(s: Seq<u8>)
    ensures
        forall|i: int| 0 < i < parts_of(s).len() ==> (#[trigger] parts_of(s)[i]).len() >= 10 && parts_of(
            s,
        )[i].take(10) == boundary(),
        parts_of(s).len() > 0 ==> leftover_of(s).len() >= 10 && leftover_of(s).take(10) == boundary(),
        s.len() >= 10 && s.take(10) == boundary() && parts_of(s).len() > 0 ==> parts_of(s)[0].take(10)
            == boundary(),
{
    lemma_split_cuts(s, 0);
    lemma_split_from(s, 0);
    let r = split_from(s, 0).1;
    if parts_of(s).len() > 0 {
        assert(leftover_of(s).take(10) =~= s.subrange(r, r + 10));
    }
    if s.len() >= 10 && s.take(10) == boundary() {
        assert(s.subrange(0, 10) =~= s.take(10));
    }
}

/// Bytes appended after a boundary line that was already whole do not
/// change where it is found.
proof fn lemma_next_boundary_extend(s: Seq<u8>, b: Seq<u8>, i: int)
    requires
        0 <= i,
        next_boundary(s, i) is Some,
    ensures
        next_boundary(s + b, i) == next_boundary(s, i),
    decreases s.len() - i,
{
    assert((s + b).subrange(i, i + 10) =~= s.subrange(i, i + 10));
    if !boundary_at(s, i) {
        lemma_next_boundary_extend(s, b, i + 1);
    }
}

/// Looking for a boundary line from `i` on in `t` is looking from `i - r`
/// on in `t` without its first `r` bytes.
proof fn lemma_next_boundary_shift(t: Seq<u8>, r: int, i: int)
    requires
        0 <= r <= i,
        r <= t.len(),
    ensures
        next_boundary(t, i) matches Some(k) ==> next_boundary(t.subrange(r, t.len() as int), i - r)
            == Some(k - r),
        next_boundary(t, i) is None ==> next_boundary(t.subrange(r, t.len() as int), i - r) is None,
    decreases t.len() - i,
{
    let u = t.subrange(r, t.len() as int);
    if i + 10 <= t.len() {
        assert(u.subrange(i - r, i - r + 10) =~= t.subrange(i, i + 10));
        if !boundary_at(t, i) {
            lemma_next_boundary_shift(t, r, i + 1);
        }
    }
}

/// Cutting `s + b` from a cut of `s` makes the cuts of `s` first, then
/// goes on from the last of them.
proof fn lemma_split_extend(s: Seq<u8>, b: Seq<u8>, start: int)
    requires
        0 <= start <= s.len(),
    ensures
        split_from(s + b, start).0 == split_from(s, start).0 + split_from(s + b, split_from(s, start).1).0,
        split_from(s + b, start).1 == split_from(s + b, split_from(s, start).1).1,
    decreases s.len() - start,
{
    let t = s + b;
    match next_boundary(s, start + 1) {
        Some(k) => {
            lemma_next_boundary(s, start + 1);
            lemma_next_boundary_extend(s, b, start + 1);
            lemma_split_extend(s, b, k);
            assert(t.subrange(start, k) =~= s.subrange(start, k));
            let head = s.subrange(start, k);
            assert(seq![head] + split_from(t, k).0 =~= seq![head] + split_from(s, k).0 + split_from(
                t,
                split_from(s, k).1,
            ).0);
        },
        None => {
            assert(split_from(t, start).0 =~= Seq::<Seq<u8>>::empty() + split_from(t, start).0);
        },
    }
}

/// Cutting `t` from a cut at `c` past `r` is cutting `t` without its first
/// `r` bytes from `c - r`.
proof fn lemma_split_shift(t: Seq<u8>, r: int, c: int)
    requires
        0 <= r <= c <= t.len(),
    ensures
        split_from(t, c).0 == split_from(t.subrange(r, t.len() as int), c - r).0,
        split_from(t, c).1 == r + split_from(t.subrange(r, t.len() as int), c - r).1,
    decreases t.len() - c,
{
    let u = t.subrange(r, t.len() as int);
    lemma_next_boundary_shift(t, r, c + 1);
    match next_boundary(t, c + 1) {
        Some(k) => {
            if c < k <= t.len() {
                lemma_split_shift(t, r, k);
                assert(u.subrange(c - r, k - r) =~= t.subrange(c, k));
            }
        },
        None => {},
    }
}

/// Chunking does not matter: feeding `a` and then `b` hands out the same
/// parts, in the same order, and holds back the same bytes as feeding
/// `a + b` at once (with `h` held back before).
pub proof fn lemma_push_chunking(h: Seq<u8>, a: Seq<u8>, b: Seq<u8>)
    ensures
        parts_of(h + a) + parts_of(leftover_of(h + a) + b) == parts_of(h + a + b),
        leftover_of(leftover_of(h + a) + b) == leftover_of(h + a + b),
{
    let s = h + a;
    let t = s + b;
    lemma_split_from(s, 0);
    let r = split_from(s, 0).1;
    lemma_split_extend(s, b, 0);
    lemma_split_shift(t, r, r);
    let u = t.subrange(r, t.len() as int);
    assert(u =~= leftover_of(s) + b);
    lemma_split_from(u, 0);
    assert(t.subrange(split_from(t, 0).1, t.len() as int) =~= u.subrange(split_from(u, 0).1, u.len() as int));
}

fn boundary_here(s: &Vec<u8>, i: usize) -> (r: bool)
    requires
        i + 10 <= s@.len(),
    ensures
        r == boundary_at(s@, i as int),
{
    let m: Vec<u8> = vec![45u8, 45u8, 102u8, 102u8, 109u8, 112u8, 101u8, 103u8, 13u8, 10u8];
    assert(m@ =~= boundary());
    let n = s.len();
    let mut j: usize = 0;
    while j < BOUNDARY_LEN
        invariant
            j <= 10,
            n == s@.len(),
            i + 10 <= n,
            m@ == boundary(),
            forall|t: int| 0 <= t < j ==> s@[i + t] == m@[t],
        decreases 10 - j,
    {
        if s[i + j] != m[j] {
            assert(s@.subrange(i as int, i + 10)[j as int] != boundary()[j as int]);
            return false;
        }
        j = j + 1;
    }
    assert(s@.subrange(i as int, i + 10) =~= boundary());
    true
}

fn find_boundary(s: &Vec<u8>, from: usize) -> (r: Option<usize>)
    ensures
        r matches Some(k) ==> next_boundary(s@, from as int) == Some(k as int),
        r is None ==> next_boundary(s@, from as int) is None,
{
    let mut i = from;
    while i < s.len() && s.len() - i >= BOUNDARY_LEN
        invariant
            from <= i,
            next_boundary(s@, from as int) == next_boundary(s@, i as int),
        decreases s@.len() - i,
    {
        if boundary_here(s, i) {
            return Some(i);
        }
        i = i + 1;
    }
    None
}

fn copy_range(v: &Vec<u8>, lo: usize, hi: usize) -> (r: Vec<u8>)
    requires
        lo <= hi <= v@.len(),
    ensures
        r@ == v@.subrange(lo as int, hi as int),
{
    let mut r: Vec<u8> = Vec::new();
    let mut i = lo;
    while i < hi
        invariant
            lo <= i <= hi,
            hi <= v@.len(),
            r@ == v@.subrange(lo as int, i as int),
        decreases hi - i,
    {
        r.push(v[i]);
        i = i + 1;
        assert(r@ =~= v@.subrange(lo as int, i as int));
    }
    r
}

/// Incremental splitter of one FFmpeg MJPEG stream.
pub struct MjpegParser {
    buf: Vec<u8>,
}

impl View for MjpegParser {
    type V = Seq<u8>;

    /// The bytes held back, waiting for the next boundary line.
    closed spec fn view(&self) -> Seq<u8> {
        self.buf@
    }
}

impl MjpegParser {
    /// A splitter that holds nothing yet.
    pub fn new() -> (p: MjpegParser)
        ensures
            p@ == Seq::<u8>::empty(),
    {
        MjpegParser { buf: Vec::new() }
    }

    /// Feeds the next chunk read from FFmpeg and returns the parts it
    /// completes, in stream order. The held-back bytes and the chunk are
    /// split as one stream; what follows its last cut is held back.
    pub fn push(&mut self, data: &[u8]) -> (parts: Vec<Vec<u8>>)
        ensures
            part_bytes(parts@) == parts_of(old(self)@ + data@),
            final(self)@ == leftover_of(old(self)@ + data@),
    {
        let mut total: Vec<u8> = Vec::new();
        std::mem::swap(&mut total, &mut self.buf);
        let ghost held = total@;
        let mut d: usize = 0;
        while d < data.len()
            invariant
                d <= data@.len(),
                total@ == held + data@.take(d as int),
            decreases data@.len() - d,
        {
            total.push(data[d]);
            d = d + 1;
            assert(total@ =~= held + data@.take(d as int));
        }
        assert(data@.take(data@.len() as int) =~= data@);
        let ghost s = total@;
        let mut parts: Vec<Vec<u8>> = Vec::new();
        let mut start: usize = 0;
        loop
            invariant
                total@ == s,
                start <= s.len(),
                split_from(s, 0).0 == part_bytes(parts@) + split_from(s, start as int).0,
                split_from(s, 0).1 == split_from(s, start as int).1,
            ensures
                total@ == s,
                start <= s.len(),
                split_from(s, 0).0 == part_bytes(parts@),
                split_from(s, 0).1 == start,
            decreases s.len() - start,
        {
            if start >= total.len() {
                assert(next_boundary(s, start + 1) is None);
                assert(part_bytes(parts@) + split_from(s, start as int).0 =~= part_bytes(parts@));
                break;
            }
            match find_boundary(&total, start + 1) {
                Some(k) => {
                    proof {
                        lemma_next_boundary(s, start + 1);
                    }
                    let part = copy_range(&total, start, k);
                    let ghost before = parts@;
                    parts.push(part);
                    let ghost rest = split_from(s, k as int);
                    assert(part_bytes(parts@) =~= part_bytes(before).push(s.subrange(start as int, k as int)));
                    assert(part_bytes(before) + split_from(s, start as int).0 =~= part_bytes(parts@) + rest.0);
                    start = k;
                },
                None => {
                    assert(part_bytes(parts@) + split_from(s, start as int).0 =~= part_bytes(parts@));
                    break;
                },
            }
        }
        proof {
            lemma_split_from(s, 0);
        }
        self.buf = copy_range(&total, start, total.len());
        parts
    }
}

} // verus!

//! Character-level string helpers with exact specifications.

use vstd::prelude::*;
use vstd::std_specs::iter::IteratorSpec;

verus! {

/// Appends one character to a `String` (`String::push`).
/// Trusted: the standard library documents that `push` appends the given
/// character at the end of the string.
#[verifier::external_body]
pub(crate) fn push_char(s: &mut String, c: char)
    ensures
        final(s)@ == old(s)@.push(c),
{
    s.push(c);
}

/// The characters of a string slice, in order.
pub fn chars_of(s: &str) -> (v: Vec<char>)
    ensures
        v@ == s@,
{
    let mut v: Vec<char> = Vec::new();
    broadcast use vstd::string::group_string_axioms;
    for c in it: s.chars()
        invariant
            it.seq() == s@,
            v@ == s@.take(it.index() as int),
    {
        v.push(c);
    }
    assert(v@ == s@);
    v
}

/// A string holding exactly the given characters.
pub fn string_of(cs: &[char]) -> (s: String)
    ensures
        s@ == cs@,
{
    let mut s = String::new();
    for i in 0..cs.len()
        invariant
            s@ == cs@.take(i as int),
    {
        push_char(&mut s, cs[i]);
    }
    assert(cs@.take(cs.len() as int) == cs@);
    s
}

/// `a` followed by `b`.
pub fn concat(a: &str, b: &str) -> (s: String)
    ensures
        s@ == a@ + b@,
{
    let mut s = String::from_str(a);
    s.append(b);
    s
}

/// The decimal digit character for `d < 10`.
pub open spec fn digit_char(d: nat) -> char {
    if d == 0 { '0' }
    else if d == 1 { '1' }
    else if d == 2 { '2' }
    else if d == 3 { '3' }
    else if d == 4 { '4' }
    else if d == 5 { '5' }
    else if d == 6 { '6' }
    else if d == 7 { '7' }
    else if d == 8 { '8' }
    else { '9' }
}

/// Shortest decimal representation of `n` (as `Display` prints an unsigned integer).
pub open spec fn decimal(n: nat) -> Seq<char>
    decreases n,
{
    if n < 10 {
        seq![digit_char(n)]
    } else {
        decimal(n / 10).push(digit_char(n % 10))
    }
}

fn digit(d: u64) -> (c: char)
    requires
        d < 10,
    ensures
        c == digit_char(d as nat),
{
    if d == 0 { '0' }
    else if d == 1 { '1' }
    else if d == 2 { '2' }
    else if d == 3 { '3' }
    else if d == 4 { '4' }
    else if d == 5 { '5' }
    else if d == 6 { '6' }
    else if d == 7 { '7' }
    else if d == 8 { '8' }
    else { '9' }
}

/// Decimal text of an unsigned integer.
pub fn decimal_string(n: u64) -> (s: String)
    ensures
        s@ == decimal(n as nat),
{
    let cs = decimal_chars(n);
    string_of(cs.as_slice())
}

fn decimal_chars(n: u64) -> (v: Vec<char>)
    ensures
        v@ == decimal(n as nat),
    decreases n,
{
    if n < 10 {
        let mut v = Vec::new();
        v.push(digit(n));
        v
    } else {
        let mut v = decimal_chars(n / 10);
        v.push(digit(n % 10));
        v
    }
}

/// `needle` occurs in `hay` starting at index `i`.
pub open spec fn occurs_at(hay: Seq<char>, needle: Seq<char>, i: int) -> bool {
    0 <= i && i + needle.len() <= hay.len() && hay.subrange(i, i + needle.len()) == needle
}

/// `needle` occurs somewhere in `hay` (`str::contains` on a string pattern).
pub open spec fn contains_seq(hay: Seq<char>, needle: Seq<char>) -> bool {
    exists|i: int| occurs_at(hay, needle, i)
}

fn matches_at(hay: &[char], needle: &[char], i: usize) -> (r: bool)
    requires
        i + needle@.len() <= hay@.len(),
    ensures
        r == occurs_at(hay@, needle@, i as int),
{
    let mut k: usize = 0;
    while k < needle.len()
        invariant
            i + needle.len() <= hay.len(),
            k <= needle.len(),
            forall|j: int| 0 <= j < k ==> hay@[i + j] == needle@[j],
        decreases needle@.len() - k,
    {
        assert(i + k < hay@.len());
        if hay[i + k] != needle[k] {
            assert(hay@.subrange(i as int, i + needle@.len())[k as int] != needle@[k as int]);
            return false;
        }
        k = k + 1;
    }
    assert(hay@.subrange(i as int, i + needle@.len()) =~= needle@);
    true
}

/// Whether `needle` occurs in `hay`.
pub fn contains(hay: &[char], needle: &[char]) -> (r: bool)
    ensures
        r == contains_seq(hay@, needle@),
{
    if needle.len() > hay.len() {
        return false;
    }
    let last = hay.len() - needle.len();
    let mut i: usize = 0;
    loop
        invariant
            last + needle@.len() == hay@.len(),
            i <= last,
            forall|j: int| 0 <= j < i ==> !occurs_at(hay@, needle@, j),
        ensures
            forall|j: int| 0 <= j <= last ==> !occurs_at(hay@, needle@, j),
        decreases last - i,
    {
        if matches_at(hay, needle, i) {
            return true;
        }
        if i == last {
            break;
        }
        i = i + 1;
    }
    assert forall|j: int| !occurs_at(hay@, needle@, j) by {
        if 0 <= j && j + needle@.len() <= hay@.len() {
            assert(j <= last);
        }
    }
    false
}

/// `s` with every non-overlapping occurrence of the non-empty `pat`, scanned
/// from the left, replaced by `rep` (what `str::replace` computes).
pub open spec fn replace_all(s: Seq<char>, pat: Seq<char>, rep: Seq<char>) -> Seq<char>
    decreases s.len(),
{
    if pat.len() == 0 || s.len() < pat.len() {
        s
    } else if s.take(pat.len() as int) == pat {
        rep + replace_all(s.skip(pat.len() as int), pat, rep)
    } else {
        seq![s[0]] + replace_all(s.skip(1), pat, rep)
    }
}

/// Replaces every occurrence of `pat` in `s` by `rep`, left to right.
pub fn replace(s: &[char], pat: &[char], rep: &[char]) -> (r: Vec<char>)
    requires
        pat@.len() > 0,
    ensures
        r@ == replace_all(s@, pat@, rep@),
{
    let mut out: Vec<char> = Vec::new();
    let mut i: usize = 0;
    let n = s.len();
    let m = pat.len();
    assert(s@.skip(0) == s@);
    while i < n
        invariant
            n == s@.len(),
            m == pat@.len(),
            m > 0,
            i <= n,
            out@ + replace_all(s@.skip(i as int), pat@, rep@) == replace_all(s@, pat@, rep@),
        decreases n - i,
    {
        let ghost rest = s@.skip(i as int);
        if m <= n - i {
            let hit = matches_at(s, pat, i);
            assert(rest.take(m as int) =~= s@.subrange(i as int, i + m));
            if hit {
                let ghost before = out@;
                for k in 0..rep.len()
                    invariant
                        out@ == before + rep@.take(k as int),
                {
                    out.push(rep[k]);
                }
                assert(rep@.take(rep@.len() as int) == rep@);
                assert(rest.skip(m as int) =~= s@.skip(i + m));
                assert(out@ + replace_all(s@.skip(i + m), pat@, rep@) =~= before
                    + replace_all(rest, pat@, rep@));
                i = i + m;
            } else {
                assert(rest.skip(1) =~= s@.skip(i + 1));
                let ghost before = out@;
                out.push(s[i]);
                assert(out@ + replace_all(s@.skip(i + 1), pat@, rep@) =~= before
                    + replace_all(rest, pat@, rep@));
                i = i + 1;
            }
        } else {
            let ghost before = out@;
            let ghost start = i as int;
            while i < n
                invariant
                    n == s@.len(),
                    rest == s@.skip(start),
                    0 <= start <= i <= n,
                    out@ == before + s@.subrange(start, i as int),
                decreases n - i,
            {
                out.push(s[i]);
                i = i + 1;
                assert(s@.subrange(start, i as int) =~= s@.subrange(start, i - 1).push(s@[i - 1]));
            }
            assert(out@ =~= before + rest);
        }
    }
    assert(s@.skip(n as int) =~= Seq::<char>::empty());
    out
}

/// No character occurs in both `a` and `b`.
pub open spec fn no_common_char(a: Seq<char>, b: Seq<char>) -> bool {
    forall|i: int, j: int| 0 <= i < a.len() && 0 <= j < b.len() ==> a[i] != b[j]
}

/// `c` is one of the decimal digits `0` to `9`.
pub open spec fn is_digit(c: char) -> bool {
    '0' as u32 <= c as u32 <= '9' as u32
}

/// A decimal representation is non-empty and made of digits only.
pub proof fn lemma_decimal_digits(n: nat)
    ensures
        decimal(n).len() > 0,
        forall|i: int| 0 <= i < decimal(n).len() ==> is_digit(#[trigger] decimal(n)[i]),
    decreases n,
{
    if n >= 10 {
        lemma_decimal_digits(n / 10);
    }
}

/// If the replacement shares no character with `w`, a prefix `w` of the
/// replaced text is already a prefix of the original text.
proof fn lemma_replace_prefix(u: Seq<char>, pat: Seq<char>, rep: Seq<char>, w: Seq<char>)
    requires
        pat.len() > 0,
        rep.len() > 0,
        no_common_char(rep, w),
        w.len() <= replace_all(u, pat, rep).len(),
        replace_all(u, pat, rep).take(w.len() as int) == w,
    ensures
        w.len() <= u.len(),
        u.take(w.len() as int) == w,
    decreases u.len(),
{
    let out = replace_all(u, pat, rep);
    let l = w.len() as int;
    if u.len() < pat.len() {
    } else if u.take(pat.len() as int) == pat {
        if l > 0 {
            assert(out[0] == rep[0]);
            assert(out.take(l)[0] == w[0]);
        }
    } else if l > 0 {
        let r = replace_all(u.skip(1), pat, rep);
        assert(out == seq![u[0]] + r);
        assert(r.take(l - 1) =~= w.skip(1));
        assert(no_common_char(rep, w.skip(1))) by {
            assert forall|i: int, j: int| 0 <= i < rep.len() && 0 <= j < w.skip(1).len() implies rep[i]
                != w.skip(1)[j] by {
                assert(w.skip(1)[j] == w[j + 1]);
            }
        }
        lemma_replace_prefix(u.skip(1), pat, rep, w.skip(1));
        assert(out.take(l)[0] == w[0]);
        assert(u.take(l) =~= seq![u[0]] + u.skip(1).take(l - 1));
        assert(w =~= seq![w[0]] + w.skip(1));
    }
}

/// Replacing a pattern by a non-empty text that shares no character with
/// `q` leaves no `q` behind when `q` is the pattern itself, and creates
/// none when the text had none.
pub proof fn lemma_replace_leaves_none(s: Seq<char>, pat: Seq<char>, rep: Seq<char>, q: Seq<char>)
    requires
        pat.len() > 0,
        q.len() > 0,
        rep.len() > 0,
        no_common_char(rep, q),
        q == pat || !contains_seq(s, q),
    ensures
        !contains_seq(replace_all(s, pat, rep), q),
    decreases s.len(),
{
    let out = replace_all(s, pat, rep);
    let m = pat.len() as int;
    let n = q.len() as int;
    if s.len() < pat.len() {
        assert forall|k: int| !occurs_at(out, q, k) by {
            if occurs_at(out, q, k) && q == pat {
                assert(k + n <= s.len());
            }
        }
    } else if s.take(m) == pat {
        let r = s.skip(m);
        if q != pat {
            assert forall|i: int| !occurs_at(r, q, i) by {
                if occurs_at(r, q, i) {
                    assert(s.subrange(i + m, i + m + n) =~= r.subrange(i, i + n));
                    assert(occurs_at(s, q, i + m));
                }
            }
        }
        lemma_replace_leaves_none(r, pat, rep, q);
        let rr = replace_all(r, pat, rep);
        assert(out == rep + rr);
        assert forall|k: int| !occurs_at(out, q, k) by {
            if occurs_at(out, q, k) {
                if k < rep.len() {
                    assert(out[k] == rep[k]);
                    assert(out.subrange(k, k + n)[0] == q[0]);
                } else {
                    assert(rr.subrange(k - rep.len(), k - rep.len() + n) =~= out.subrange(k, k + n));
                    assert(occurs_at(rr, q, k - rep.len()));
                }
            }
        }
    } else {
        let r = s.skip(1);
        if q != pat {
            assert forall|i: int| !occurs_at(r, q, i) by {
                if occurs_at(r, q, i) {
                    assert(s.subrange(i + 1, i + 1 + n) =~= r.subrange(i, i + n));
                    assert(occurs_at(s, q, i + 1));
                }
            }
        }
        lemma_replace_leaves_none(r, pat, rep, q);
        let rr = replace_all(r, pat, rep);
        assert(out == seq![s[0]] + rr);
        assert forall|k: int| !occurs_at(out, q, k) by {
            if occurs_at(out, q, k) {
                if k >= 1 {
                    assert(rr.subrange(k - 1, k - 1 + n) =~= out.subrange(k, k + n));
                    assert(occurs_at(rr, q, k - 1));
                } else {
                    assert(out.subrange(0, n) == q);
                    assert(rr.take(n - 1) =~= q.skip(1));
                    assert(no_common_char(rep, q.skip(1))) by {
                        assert forall|i: int, j: int| 0 <= i < rep.len() && 0 <= j < q.skip(1).len()
                            implies rep[i] != q.skip(1)[j] by {
                            assert(q.skip(1)[j] == q[j + 1]);
                        }
                    }
                    lemma_replace_prefix(r, pat, rep, q.skip(1));
                    assert(out.subrange(0, n)[0] == q[0]);
                    assert(s.subrange(0, n) =~= seq![s[0]] + r.take(n - 1));
                    assert(q =~= seq![q[0]] + q.skip(1));
                    assert(occurs_at(s, q, 0));
                    if q == pat {
                        assert(s.take(m) =~= s.subrange(0, n));
                    }
                }
            }
        }
    }
}

} // verus!

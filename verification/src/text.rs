//! Character-level string helpers with exact contracts.
//!
//! Everything here works on the `char` view of a string (`s@`), so that the
//! contracts of the rest of the crate can be stated over `Seq<char>`.
use vstd::prelude::*;

verus! {

broadcast use vstd::string::group_string_axioms;

/// Unicode `White_Space`, the property that `str::trim` strips.
pub open spec fn is_whitespace(c: char) -> bool {
    ||| c == ' '
    ||| ('\u{9}' <= c && c <= '\u{d}')
    ||| c == '\u{85}'
    ||| c == '\u{a0}'
    ||| c == '\u{1680}'
    ||| ('\u{2000}' <= c && c <= '\u{200a}')
    ||| c == '\u{2028}'
    ||| c == '\u{2029}'
    ||| c == '\u{202f}'
    ||| c == '\u{205f}'
    ||| c == '\u{3000}'
}

/// `s` without its leading and trailing whitespace.
pub open spec fn trimmed(s: Seq<char>) -> Seq<char>
    decreases s.len(),
{
    if s.len() > 0 && is_whitespace(s[0]) {
        trimmed(s.drop_first())
    } else if s.len() > 0 && is_whitespace(s.last()) {
        trimmed(s.drop_last())
    } else {
        s
    }
}

/// Does `pat` occur in `s` starting at index `i`?
pub open spec fn occurs_at(s: Seq<char>, pat: Seq<char>, i: int) -> bool {
    0 <= i && i + pat.len() <= s.len() && s.subrange(i, i + pat.len()) == pat
}

/// Does `pat` occur anywhere in `s`?
pub open spec fn contains_seq(s: Seq<char>, pat: Seq<char>) -> bool {
    exists|i: int| occurs_at(s, pat, i)
}

/// The lowercase mapping of `s` as computed by `str::to_lowercase`.
pub uninterp spec fn std_lowercase(s: Seq<char>) -> Seq<char>;

/// Calls `str::to_lowercase`. Its result is given the name `std_lowercase`:
/// the full Unicode case-mapping tables are not restated here.
#[verifier::external_body]
pub(crate) fn to_lowercase(s: &str) -> (r: String)
    ensures
        r@ == std_lowercase(s@),
{
    s.to_lowercase()
}

/// Calls `String::push`, which appends one character.
#[verifier::external_body]
pub(crate) fn push_char(s: &mut String, c: char)
    ensures
        final(s)@ == old(s)@.push(c),
{
    s.push(c);
}

/// Appends `t` to `s`.
pub fn push_str(s: &mut String, t: &str)
    ensures
        final(s)@ == old(s)@ + t@,
{
    s.append(t);
}

/// A fresh `String` holding the characters of `s`.
pub fn string_of(s: &str) -> (r: String)
    ensures
        r@ == s@,
{
    String::from_str(s)
}

/// The characters of `s`, collected into a vector.
pub fn chars_of(s: &str) -> (r: Vec<char>)
    ensures
        r@ == s@,
{
    let mut out: Vec<char> = Vec::new();
    for c in it: s.chars()
        invariant
            it.seq() == s@,
            out@ == s@.take(it.index() as int),
    {
        out.push(c);
    }
    out
}

/// A `String` made of the characters `cs[from..to]`.
pub fn string_from_chars(cs: &[char], from: usize, to: usize) -> (r: String)
    requires
        from <= to <= cs@.len(),
    ensures
        r@ == cs@.subrange(from as int, to as int),
{
    let mut out = String::new();
    let mut i = from;
    while i < to
        invariant
            from <= i <= to <= cs@.len(),
            out@ == cs@.subrange(from as int, i as int),
        decreases to - i,
    {
        push_char(&mut out, cs[i]);
        proof {
            assert(cs@.subrange(from as int, i + 1) =~= cs@.subrange(from as int, i as int).push(
                cs@[i as int],
            ));
        }
        i = i + 1;
    }
    out
}

/// Character-wise equality of two string slices.
pub fn str_eq(a: &str, b: &str) -> (r: bool)
    ensures
        r == (a@ == b@),
{
    let ac = chars_of(a);
    let bc = chars_of(b);
    proof {
        assert(ac@.subrange(0, ac@.len() as int) =~= ac@);
    }
    chars_eq(&ac, 0, ac.len(), &bc)
}

/// Is `a[from..to]` equal to all of `b`?
pub fn chars_eq(a: &[char], from: usize, to: usize, b: &[char]) -> (r: bool)
    requires
        from <= to <= a@.len(),
    ensures
        r == (a@.subrange(from as int, to as int) == b@),
{
    if to - from != b.len() {
        proof {
            assert(a@.subrange(from as int, to as int).len() != b@.len());
        }
        return false;
    }
    let mut i: usize = 0;
    while i < b.len()
        invariant
            from <= to <= a@.len(),
            to - from == b@.len(),
            i <= b@.len(),
            forall|k: int| 0 <= k < i ==> a@[from + k] == b@[k],
        decreases b@.len() - i,
    {
        if a[from + i] != b[i] {
            proof {
                assert(a@.subrange(from as int, to as int)[i as int] != b@[i as int]);
            }
            return false;
        }
        i = i + 1;
    }
    proof {
        assert(a@.subrange(from as int, to as int) =~= b@);
    }
    true
}

/// Does `s` start with `p`?
pub fn starts_with(s: &str, p: &str) -> (r: bool)
    ensures
        r == p@.is_prefix_of(s@),
{
    let sc = chars_of(s);
    let pc = chars_of(p);
    if pc.len() > sc.len() {
        return false;
    }
    let r = chars_eq(&sc, 0, pc.len(), &pc);
    proof {
        assert(r == (s@.subrange(0, p@.len() as int) == p@));
        if r {
            assert forall|i: int| 0 <= i < p@.len() implies p@[i] == s@[i] by {
                assert(s@.subrange(0, p@.len() as int)[i] == s@[i]);
            }
        } else {
            if p@.is_prefix_of(s@) {
                assert(s@.subrange(0, p@.len() as int) =~= p@);
            }
        }
    }
    r
}

/// Does `pat` occur somewhere in `s`?
pub fn contains(s: &str, pat: &str) -> (r: bool)
    ensures
        r == contains_seq(s@, pat@),
{
    let sc = chars_of(s);
    let pc = chars_of(pat);
    if pc.len() > sc.len() {
        proof {
            assert forall|i: int| !occurs_at(s@, pat@, i) by {}
        }
        return false;
    }
    let last = sc.len() - pc.len();
    let mut i: usize = 0;
    loop
        invariant
            sc@ == s@,
            pc@ == pat@,
            last == sc.len() - pc.len(),
            i <= last,
            forall|k: int| 0 <= k < i ==> !occurs_at(s@, pat@, k),
        decreases last - i,
    {
        if chars_eq(&sc, i, i + pc.len(), &pc) {
            proof {
                assert(occurs_at(s@, pat@, i as int));
            }
            return true;
        }
        if i == last {
            proof {
                assert forall|k: int| !occurs_at(s@, pat@, k) by {
                    if 0 <= k && k + pat@.len() <= s@.len() {
                        assert(k <= i);
                    }
                }
            }
            return false;
        }
        i = i + 1;
    }
}

proof fn lemma_trim_front(t: Seq<char>)
    requires
        t.len() > 0,
        is_whitespace(t[0]),
    ensures
        trimmed(t) == trimmed(t.drop_first()),
{
}

proof fn lemma_trim_back(t: Seq<char>)
    requires
        t.len() > 0,
        !is_whitespace(t[0]),
        is_whitespace(t.last()),
    ensures
        trimmed(t) == trimmed(t.drop_last()),
{
}

proof fn lemma_trim_done(t: Seq<char>)
    requires
        t.len() > 0 ==> !is_whitespace(t[0]) && !is_whitespace(t.last()),
    ensures
        trimmed(t) == t,
{
}

/// `s` with leading and trailing whitespace removed (`str::trim`).
pub fn trim(s: &str) -> (r: String)
    ensures
        r@ == trimmed(s@),
{
    let cs = chars_of(s);
    let mut lo: usize = 0;
    let mut hi: usize = cs.len();
    proof {
        assert(cs@.subrange(0, cs@.len() as int) =~= cs@);
    }
    while lo < hi && is_whitespace_char(cs[lo])
        invariant
            cs@ == s@,
            lo <= hi <= cs@.len(),
            hi == cs@.len(),
            trimmed(s@) == trimmed(cs@.subrange(lo as int, hi as int)),
        decreases hi - lo,
    {
        proof {
            let t = cs@.subrange(lo as int, hi as int);
            assert(t.drop_first() =~= cs@.subrange(lo + 1, hi as int));
            lemma_trim_front(t);
        }
        lo = lo + 1;
    }
    while lo < hi && is_whitespace_char(cs[hi - 1])
        invariant
            cs@ == s@,
            lo <= hi <= cs@.len(),
            lo < hi ==> !is_whitespace(cs@[lo as int]),
            trimmed(s@) == trimmed(cs@.subrange(lo as int, hi as int)),
        decreases hi - lo,
    {
        proof {
            let t = cs@.subrange(lo as int, hi as int);
            assert(t.drop_last() =~= cs@.subrange(lo as int, hi - 1));
            assert(t[0] == cs@[lo as int]);
            lemma_trim_back(t);
        }
        hi = hi - 1;
    }
    proof {
        let t = cs@.subrange(lo as int, hi as int);
        if lo < hi {
            assert(t[0] == cs@[lo as int]);
            assert(t.last() == cs@[hi - 1]);
        }
        lemma_trim_done(t);
    }
    string_from_chars(&cs, lo, hi)
}

/// Executable form of [`is_whitespace`].
pub fn is_whitespace_char(c: char) -> (r: bool)
    ensures
        r == is_whitespace(c),
{
    c == ' ' || ('\u{9}' <= c && c <= '\u{d}') || c == '\u{85}' || c == '\u{a0}' || c
        == '\u{1680}' || ('\u{2000}' <= c && c <= '\u{200a}') || c == '\u{2028}' || c == '\u{2029}'
        || c == '\u{202f}' || c == '\u{205f}' || c == '\u{3000}'
}

} // verus!

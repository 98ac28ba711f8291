//! Small verified string utilities shared by the envelope formats, and the
//! one trusted conversion from raw bytes back to text.

use vstd::prelude::*;

use vstd::string::StrSliceExecFns;
use vstd::string::StringExecFns;

verus! {

/// True when `pat` occurs in `s` starting at position `at`.
pub open spec fn occurs_at(s: Seq<char>, pat: Seq<char>, at: int) -> bool {
    &&& 0 <= at
    &&& at + pat.len() <= s.len()
    &&& s.subrange(at, at + pat.len()) == pat
}

/// True when `pat` occurs nowhere in `s`.
pub open spec fn marker_free(s: Seq<char>, pat: Seq<char>) -> bool {
    forall|i: int| !occurs_at(s, pat, i)
}

/// Decides whether `pat` occurs in `s` at position `at`.
pub fn match_at(s: &str, pat: &str, at: usize) -> (r: bool)
    requires
        at + pat@.len() <= s@.len(),
    ensures
        r == occurs_at(s@, pat@, at as int),
{
    let n = s.unicode_len();
    let m = pat.unicode_len();
    let mut j: usize = 0;
    while j < m
        invariant
            j <= m,
            n == s@.len(),
            m == pat@.len(),
            at + m <= n,
            forall|k: int| 0 <= k < j ==> s@[at + k] == pat@[k],
        decreases m - j,
    {
        if s.get_char(at + j) != pat.get_char(j) {
            proof {
                assert(s@.subrange(at as int, at + m) != pat@) by {
                    assert(s@.subrange(at as int, at + m)[j as int] != pat@[j as int]);
                }
            }
            return false;
        }
        j = j + 1;
    }
    proof {
        assert(s@.subrange(at as int, at + m) =~= pat@);
    }
    true
}

/// Finds the first occurrence of `pat` in `s`, scanning left to right.
pub fn find_first(s: &str, pat: &str) -> (r: Option<usize>)
    ensures
        match r {
            Some(i) => occurs_at(s@, pat@, i as int) && forall|k: int|
                0 <= k < i ==> !occurs_at(s@, pat@, k),
            None => marker_free(s@, pat@),
        },
{
    let n = s.unicode_len();
    let m = pat.unicode_len();
    if m > n {
        proof {
            assert forall|i: int| !occurs_at(s@, pat@, i) by {}
        }
        return None;
    }
    if m == 0 {
        proof {
            assert(s@.subrange(0, 0) =~= pat@);
        }
        return Some(0);
    }
    let mut i: usize = 0;
    while i <= n - m
        invariant
            0 < m <= n,
            n == s@.len(),
            m == pat@.len(),
            i <= n - m + 1,
            forall|k: int| 0 <= k < i ==> !occurs_at(s@, pat@, k),
        decreases n - i,
    {
        if match_at(s, pat, i) {
            return Some(i);
        }
        i = i + 1;
    }
    proof {
        assert forall|k: int| !occurs_at(s@, pat@, k) by {
            if 0 <= k && k + pat@.len() <= s@.len() {
                assert(k < i);
            }
        }
    }
    None
}

/// The characters of `s` with every newline removed.
pub open spec fn strip_newlines(s: Seq<char>) -> Seq<char>
    decreases s.len(),
{
    if s.len() == 0 {
        s
    } else if s[0] == '\n' {
        strip_newlines(s.skip(1))
    } else {
        seq![s[0]] + strip_newlines(s.skip(1))
    }
}

/// Removing newlines distributes over concatenation.
pub proof fn lemma_strip_append(a: Seq<char>, b: Seq<char>)
    ensures
        strip_newlines(a + b) == strip_newlines(a) + strip_newlines(b),
    decreases a.len(),
{
    if a.len() == 0 {
        assert(a + b =~= b);
        assert(strip_newlines(a) + strip_newlines(b) =~= strip_newlines(b));
    } else {
        assert((a + b).skip(1) =~= a.skip(1) + b);
        lemma_strip_append(a.skip(1), b);
        if a[0] == '\n' {
            assert(strip_newlines(a + b) =~= strip_newlines(a) + strip_newlines(b));
        } else {
            assert(strip_newlines(a + b) =~= strip_newlines(a) + strip_newlines(b));
        }
    }
}

/// A string without newlines is untouched by [`strip_newlines`].
pub proof fn lemma_strip_clean(s: Seq<char>)
    requires
        forall|i: int| 0 <= i < s.len() ==> s[i] != '\n',
    ensures
        strip_newlines(s) == s,
    decreases s.len(),
{
    if s.len() == 0 {
    } else {
        lemma_strip_clean(s.skip(1));
        assert(strip_newlines(s) =~= s);
    }
}

/// Removes every newline of the substring of `s` that starts at `from`.
pub fn strip_newlines_exec(s: &str, from: usize) -> (r: String)
    requires
        from <= s@.len(),
    ensures
        r@ == strip_newlines(s@.skip(from as int)),
{
    let n = s.unicode_len();
    let mut out = String::new();
    let mut i: usize = from;
    proof {
        assert(strip_newlines(s@.skip(from as int).take(0)) =~= Seq::<char>::empty());
    }
    while i < n
        invariant
            from <= i <= n,
            n == s@.len(),
            out@ == strip_newlines(s@.skip(from as int).take(i - from)),
        decreases n - i,
    {
        let c = s.get_char(i);
        if c != '\n' {
            out.append(s.substring_char(i, i + 1));
        }
        proof {
            let t = s@.skip(from as int);
            assert(t.take(i - from + 1) =~= t.take(i - from) + seq![s@[i as int]]);
            lemma_strip_append(t.take(i - from), seq![s@[i as int]]);
            assert(strip_newlines(Seq::<char>::empty()) =~= Seq::<char>::empty());
            assert(seq![s@[i as int]].skip(1) =~= Seq::<char>::empty());
            assert(strip_newlines(seq![s@[i as int]].skip(1)) =~= Seq::<char>::empty());
            if c == '\n' {
                assert(strip_newlines(seq![s@[i as int]]) =~= Seq::<char>::empty());
                assert(out@ =~= strip_newlines(t.take(i - from + 1)));
            } else {
                assert(strip_newlines(seq![s@[i as int]]) =~= seq![s@[i as int]]);
                assert(s@.subrange(i as int, i + 1) =~= seq![s@[i as int]]);
                assert(out@ =~= strip_newlines(t.take(i - from + 1)));
            }
        }
        i = i + 1;
    }
    proof {
        assert(s@.skip(from as int).take(n - from) =~= s@.skip(from as int));
    }
    out
}

/// What `String::from_utf8_lossy` makes of a byte string: a pure function of
/// the bytes, and the inverse of UTF-8 encoding on encoded text.
pub uninterp spec fn utf8_lossy(b: Seq<u8>) -> Seq<char>;

/// Relies on `String::from_utf8_lossy`: the decoding depends on the bytes
/// alone, and bytes that are the UTF-8 encoding of a character sequence
/// decode back to exactly that sequence.
#[verifier::external_body]
pub fn bytes_to_string_lossy(b: &[u8]) -> (r: String)
    ensures
        r@ == utf8_lossy(b@),
        forall|t: Seq<char>| b@ == vstd::utf8::encode_utf8(t) ==> r@ == t,
{
    String::from_utf8_lossy(b).into_owned()
}

} // verus!

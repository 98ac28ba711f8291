//! Base64 codec: the byte/text conversion under every envelope.
//!
//! `encode_bytes` is total and deterministic; `decode_string` accepts exactly
//! the outputs of `encode_bytes` and inverts them, and rejects everything
//! else with [`KdtErr::MalformedEncoding`].  The two directions are related
//! by [`lemma_base64_round_trip`] and [`lemma_base64_parse_inverts`].

use vstd::prelude::*;

use crate::errors::KdtErr;
use vstd::string::StrSliceExecFns;
use vstd::string::StringExecFns;

verus! {

/// The 64 digits of the standard base64 alphabet, in value order.
pub open spec fn b64_alphabet() -> Seq<char> {
    "ABCDEFGHIJKLMNOPQRSTUVWXYZabcdefghijklmnopqrstuvwxyz0123456789+/"@
}

/// The digit that renders the 6-bit value `v`.
pub open spec fn b64_char(v: int) -> char
    recommends
        0 <= v < 64,
{
    b64_alphabet()[v]
}

/// The 6-bit value of the digit `c`, or -1 when `c` is not a base64 digit.
pub open spec fn b64_val(c: char) -> int {
    let n = c as u32;
    if 65 <= n && n <= 90 {
        n - 65
    } else if 97 <= n && n <= 122 {
        n - 71
    } else if 48 <= n && n <= 57 {
        n + 4
    } else if n == 43 {
        62
    } else if n == 47 {
        63
    } else {
        -1
    }
}

/// The base64 rendering of a byte string: four digits for every three bytes,
/// with `=` padding closing a final group of one or two bytes.
pub open spec fn b64_text(b: Seq<u8>) -> Seq<char>
    decreases b.len(),
{
    if b.len() == 0 {
        Seq::empty()
    } else if b.len() == 1 {
        let b0 = b[0] as int;
        seq![b64_char(b0 / 4), b64_char((b0 % 4) * 16), '=', '=']
    } else if b.len() == 2 {
        let b0 = b[0] as int;
        let b1 = b[1] as int;
        seq![
            b64_char(b0 / 4),
            b64_char((b0 % 4) * 16 + b1 / 16),
            b64_char((b1 % 16) * 4),
            '=',
        ]
    } else {
        let b0 = b[0] as int;
        let b1 = b[1] as int;
        let b2 = b[2] as int;
        seq![
            b64_char(b0 / 4),
            b64_char((b0 % 4) * 16 + b1 / 16),
            b64_char((b1 % 16) * 4 + b2 / 64),
            b64_char(b2 % 64),
        ] + b64_text(b.skip(3))
    }
}

/// The three bytes packed in one full group of digit values.
pub open spec fn b64_group3(v1: int, v2: int, v3: int, v4: int) -> Seq<u8> {
    seq![
        (v1 * 4 + v2 / 16) as u8,
        ((v2 % 16) * 16 + v3 / 4) as u8,
        ((v3 % 4) * 64 + v4) as u8,
    ]
}

/// The strict base64 parse of a character string: `Some` exactly on the
/// canonical outputs of [`b64_text`] (padding in the last group only, and the
/// unused bits of a padded group zero), `None` on everything else.
pub open spec fn b64_parse(s: Seq<char>) -> Option<Seq<u8>>
    decreases s.len(),
{
    if s.len() == 0 {
        Some(Seq::empty())
    } else if s.len() < 4 {
        None
    } else {
        let v1 = b64_val(s[0]);
        let v2 = b64_val(s[1]);
        let v3 = b64_val(s[2]);
        let v4 = b64_val(s[3]);
        if v1 < 0 || v2 < 0 {
            None
        } else if s.len() == 4 && s[2] == '=' && s[3] == '=' {
            if v2 % 16 == 0 {
                Some(seq![(v1 * 4 + v2 / 16) as u8])
            } else {
                None
            }
        } else if s.len() == 4 && s[3] == '=' {
            if v3 >= 0 && v3 % 4 == 0 {
                Some(seq![(v1 * 4 + v2 / 16) as u8, ((v2 % 16) * 16 + v3 / 4) as u8])
            } else {
                None
            }
        } else if v3 < 0 || v4 < 0 {
            None
        } else {
            match b64_parse(s.skip(4)) {
                Some(rest) => Some(b64_group3(v1, v2, v3, v4) + rest),
                None => None,
            }
        }
    }
}

/// Concrete facts about the alphabet literal: it has 64 ASCII digits, none of
/// them `=`, and [`b64_val`] inverts [`b64_char`] on it.
pub proof fn lemma_alphabet()
    ensures
        b64_alphabet().len() == 64,
        forall|v: int| 0 <= v < 64 ==> #[trigger] b64_val(b64_char(v)) == v,
        forall|v: int| 0 <= v < 64 ==> #[trigger] b64_char(v) != '=',
        forall|v: int| 0 <= v < 64 ==> '\0' <= #[trigger] b64_char(v) <= '\u{7f}',
        forall|v: int| 0 <= v < 64 ==> #[trigger] b64_char(v) != '*' && b64_char(v) != '\n',
{
    reveal_strlit("ABCDEFGHIJKLMNOPQRSTUVWXYZabcdefghijklmnopqrstuvwxyz0123456789+/");
}

/// A base64 digit is uniquely determined by its value: on digits, `b64_char`
/// inverts `b64_val`.
pub proof fn lemma_digit_of_val(c: char)
    requires
        b64_val(c) >= 0,
    ensures
        0 <= b64_val(c) < 64,
        b64_char(b64_val(c)) == c,
        c != '=',
{
    lemma_alphabet();
    reveal_strlit("ABCDEFGHIJKLMNOPQRSTUVWXYZabcdefghijklmnopqrstuvwxyz0123456789+/");
}

/// Rendering distributes over splitting a byte string after a whole number of
/// three-byte groups.
pub proof fn lemma_b64_text_append(x: Seq<u8>, y: Seq<u8>)
    requires
        x.len() % 3 == 0,
    ensures
        b64_text(x + y) == b64_text(x) + b64_text(y),
    decreases x.len(),
{
    if x.len() == 0 {
        assert(x + y =~= y);
        assert(b64_text(x) + b64_text(y) =~= b64_text(y));
    } else {
        let z = x + y;
        assert(z.len() >= 3);
        assert(z[0] == x[0] && z[1] == x[1] && z[2] == x[2]);
        assert(z.skip(3) =~= x.skip(3) + y);
        lemma_b64_text_append(x.skip(3), y);
        if x.len() == 3 && y.len() == 0 {
            assert(x.skip(3) =~= Seq::<u8>::empty());
            assert(b64_text(x + y) =~= b64_text(x) + b64_text(y));
        } else {
            assert(b64_text(x + y) =~= b64_text(x) + b64_text(y));
        }
    }
}

/// A string whose length is not a multiple of four parses to nothing.
pub proof fn lemma_b64_parse_bad_len(s: Seq<char>)
    requires
        s.len() % 4 != 0,
    ensures
        b64_parse(s) is None,
    decreases s.len(),
{
    if s.len() < 4 {
    } else {
        assert(s.skip(4).len() % 4 != 0);
        lemma_b64_parse_bad_len(s.skip(4));
    }
}

/// Every character of a rendering is a base64 digit or the padding sign; in
/// particular none is a `*` delimiter or a newline.
pub proof fn lemma_b64_text_chars(b: Seq<u8>)
    ensures
        forall|i: int|
            0 <= i < b64_text(b).len() ==> #[trigger] b64_text(b)[i] != '*' && b64_text(b)[i]
                != '\n',
    decreases b.len(),
{
    lemma_alphabet();
    reveal_strlit("ABCDEFGHIJKLMNOPQRSTUVWXYZabcdefghijklmnopqrstuvwxyz0123456789+/");
    if b.len() <= 2 {
    } else {
        lemma_b64_text_chars(b.skip(3));
        let s = b64_text(b);
        let rest = b64_text(b.skip(3));
        assert forall|i: int| 0 <= i < s.len() implies #[trigger] s[i] != '*' && s[i] != '\n' by {
            if i >= 4 {
                assert(s[i] == rest[i - 4]);
            }
        }
    }
}

/// Decoding inverts encoding: every byte string comes back unchanged from its
/// own rendering, the empty string included.
pub proof fn lemma_base64_round_trip(b: Seq<u8>)
    ensures
        b64_parse(b64_text(b)) == Some(b),
    decreases b.len(),
{
    lemma_alphabet();
    let s = b64_text(b);
    if b.len() == 0 {
        assert(b64_parse(s) =~= Some(b));
    } else if b.len() == 1 {
        let b0 = b[0] as int;
        let v1 = b0 / 4;
        let v2 = (b0 % 4) * 16;
        assert(s[0] == b64_char(v1) && s[1] == b64_char(v2));
        assert(b64_val(s[0]) == v1 && b64_val(s[1]) == v2);
        assert(v2 % 16 == 0);
        assert(v1 * 4 + v2 / 16 == b0);
        assert(b64_parse(s).unwrap() =~= b);
    } else if b.len() == 2 {
        let b0 = b[0] as int;
        let b1 = b[1] as int;
        let v1 = b0 / 4;
        let v2 = (b0 % 4) * 16 + b1 / 16;
        let v3 = (b1 % 16) * 4;
        assert(b64_val(s[0]) == v1 && b64_val(s[1]) == v2 && b64_val(s[2]) == v3);
        assert(s[2] != '=');
        assert(v3 % 4 == 0);
        assert(v2 / 16 == b0 % 4) by {
            assert(v2 == (b0 % 4) * 16 + b1 / 16 && b1 / 16 < 16);
        }
        assert(v1 * 4 + v2 / 16 == b0);
        assert(v2 % 16 == b1 / 16);
        assert((v2 % 16) * 16 + v3 / 4 == b1);
        assert(b64_parse(s).unwrap() =~= b);
    } else {
        let b0 = b[0] as int;
        let b1 = b[1] as int;
        let b2 = b[2] as int;
        let v1 = b0 / 4;
        let v2 = (b0 % 4) * 16 + b1 / 16;
        let v3 = (b1 % 16) * 4 + b2 / 64;
        let v4 = b2 % 64;
        assert(b64_val(s[0]) == v1 && b64_val(s[1]) == v2 && b64_val(s[2]) == v3 && b64_val(s[3])
            == v4);
        assert(s[2] != '=' && s[3] != '=');
        lemma_base64_round_trip(b.skip(3));
        assert(s.skip(4) =~= b64_text(b.skip(3)));
        assert(s.len() == 4 ==> b.skip(3).len() == 0);
        assert(v2 / 16 == b0 % 4) by {
            assert(v2 == (b0 % 4) * 16 + b1 / 16 && b1 / 16 < 16);
        }
        assert(v3 / 4 == b1 % 16) by {
            assert(v3 == (b1 % 16) * 4 + b2 / 64 && b2 / 64 < 4);
        }
        assert(v1 * 4 + v2 / 16 == b0);
        assert((v2 % 16) * 16 + v3 / 4 == b1) by {
            assert(v2 % 16 == b1 / 16);
        }
        assert((v3 % 4) * 64 + v4 == b2) by {
            assert(v3 % 4 == b2 / 64);
        }
        assert(b64_group3(v1, v2, v3, v4) =~= seq![b0 as u8, b1 as u8, b2 as u8]);
        assert(b64_parse(s).unwrap() =~= b);
    }
}

/// Whatever parses was a rendering: a successful decode names the unique
/// byte string whose encoding is the input.
pub proof fn lemma_base64_parse_inverts(s: Seq<char>)
    requires
        b64_parse(s) is Some,
    ensures
        b64_text(b64_parse(s).unwrap()) == s,
    decreases s.len(),
{
    if s.len() == 0 {
        assert(b64_text(b64_parse(s).unwrap()) =~= s);
    } else {
        let v1 = b64_val(s[0]);
        let v2 = b64_val(s[1]);
        let v3 = b64_val(s[2]);
        let v4 = b64_val(s[3]);
        lemma_digit_of_val(s[0]);
        lemma_digit_of_val(s[1]);
        if s.len() == 4 && s[2] == '=' && s[3] == '=' {
            let b0 = (v1 * 4 + v2 / 16) as u8;
            assert(v2 % 16 == 0);
            assert(v1 * 4 + v2 / 16 < 256);
            assert(b0 / 4 == v1 && b0 % 4 == v2 / 16) by {
                assert(b0 == v1 * 4 + v2 / 16 && v2 / 16 < 4);
            }
            assert((b0 % 4) * 16 == v2);
            assert(b64_text(b64_parse(s).unwrap()) =~= s);
        } else if s.len() == 4 && s[3] == '=' {
            lemma_digit_of_val(s[2]);
            let b0 = (v1 * 4 + v2 / 16) as u8;
            let b1 = ((v2 % 16) * 16 + v3 / 4) as u8;
            assert(v3 % 4 == 0);
            assert(b0 / 4 == v1 && b0 % 4 == v2 / 16) by {
                assert(b0 == v1 * 4 + v2 / 16 && v2 / 16 < 4);
            }
            assert(b1 / 16 == v2 % 16 && b1 % 16 == v3 / 4) by {
                assert(b1 == (v2 % 16) * 16 + v3 / 4 && v3 / 4 < 16);
            }
            assert((b0 % 4) * 16 + b1 / 16 == v2);
            assert((b1 % 16) * 4 == v3);
            assert(b64_text(b64_parse(s).unwrap()) =~= s);
        } else {
            lemma_digit_of_val(s[2]);
            lemma_digit_of_val(s[3]);
            let b0 = (v1 * 4 + v2 / 16) as u8;
            let b1 = ((v2 % 16) * 16 + v3 / 4) as u8;
            let b2 = ((v3 % 4) * 64 + v4) as u8;
            lemma_base64_parse_inverts(s.skip(4));
            let rest = b64_parse(s.skip(4)).unwrap();
            let all = b64_parse(s).unwrap();
            assert(all =~= seq![b0, b1, b2] + rest);
            assert(b0 / 4 == v1 && b0 % 4 == v2 / 16) by {
                assert(b0 == v1 * 4 + v2 / 16 && v2 / 16 < 4);
            }
            assert(b1 / 16 == v2 % 16 && b1 % 16 == v3 / 4) by {
                assert(b1 == (v2 % 16) * 16 + v3 / 4 && v3 / 4 < 16);
            }
            assert(b2 / 64 == v3 % 4 && b2 % 64 == v4) by {
                assert(b2 == (v3 % 4) * 64 + v4 && v4 < 64);
            }
            assert((b0 % 4) * 16 + b1 / 16 == v2);
            assert((b1 % 16) * 4 + b2 / 64 == v3);
            assert(all.len() >= 3);
            assert(all[0] == b0 && all[1] == b1 && all[2] == b2);
            assert(all.skip(3) =~= rest);
            if s.len() == 4 {
                assert(s.skip(4).len() == 0);
                assert(rest.len() == 0);
                assert(b64_text(all) =~= s);
            } else {
                assert(b64_text(all) =~= seq![
                    b64_char(b0 as int / 4),
                    b64_char((b0 as int % 4) * 16 + b1 as int / 16),
                    b64_char((b1 as int % 16) * 4 + b2 as int / 64),
                    b64_char(b2 as int % 64),
                ] + b64_text(rest));
                assert(b64_text(all) =~= s);
            }
        }
    }
}

/// Copies a byte vector; the copy reads back byte for byte.
pub fn clone_bytes(v: &Vec<u8>) -> (r: Vec<u8>)
    ensures
        r@ == v@,
{
    let mut r: Vec<u8> = Vec::new();
    let mut i: usize = 0;
    while i < v.len()
        invariant
            i <= v@.len(),
            r@ == v@.take(i as int),
        decreases v@.len() - i,
    {
        r.push(v[i]);
        proof {
            assert(v@.take(i + 1) =~= v@.take(i as int).push(v@[i as int]));
        }
        i = i + 1;
    }
    proof {
        assert(v@.take(v@.len() as int) =~= v@);
    }
    r
}

/// Minimalist base64 conversion object: it encodes bytes and decodes
/// strings, which is all the envelope formats need.
pub struct Base64;

impl Base64 {
    /// Converts a byte array to its base64 string.
    pub fn encode_bytes(b: &[u8]) -> (r: String)
        ensures
            r@ == b64_text(b@),
    {
        let alpha = "ABCDEFGHIJKLMNOPQRSTUVWXYZabcdefghijklmnopqrstuvwxyz0123456789+/";
        proof {
            lemma_alphabet();
            assert(alpha@ == b64_alphabet());
            assert forall|j: int| 0 <= j < alpha@.len() implies '\0' <= #[trigger] alpha@[j]
                <= '\u{7f}' by {
                assert(alpha@[j] == b64_char(j));
            }
            assert(alpha.is_ascii());
            reveal_strlit("=");
        }
        let mut out = String::new();
        let mut i: usize = 0;
        while b.len() >= 3 && i <= b.len() - 3
            invariant
                i % 3 == 0,
                i <= b.len(),
                out@ == b64_text(b@.take(i as int)),
                alpha@ == b64_alphabet(),
                alpha@.len() == 64,
                alpha.is_ascii(),
            decreases b.len() - i,
        {
            let b0 = b[i];
            let b1 = b[i + 1];
            let b2 = b[i + 2];
            let v1 = b0 / 4;
            let v2 = (b0 % 4) * 16 + b1 / 16;
            let v3 = (b1 % 16) * 4 + b2 / 64;
            let v4 = b2 % 64;
            out.append(alpha.substring_ascii(v1 as usize, v1 as usize + 1));
            out.append(alpha.substring_ascii(v2 as usize, v2 as usize + 1));
            out.append(alpha.substring_ascii(v3 as usize, v3 as usize + 1));
            out.append(alpha.substring_ascii(v4 as usize, v4 as usize + 1));
            proof {
                let pre = b@.take(i as int);
                let grp = b@.subrange(i as int, i + 3);
                assert(pre + grp =~= b@.take(i + 3));
                lemma_b64_text_append(pre, grp);
                assert(grp.len() == 3 && grp[0] == b0 && grp[1] == b1 && grp[2] == b2);
                assert(grp.skip(3) =~= Seq::<u8>::empty());
                assert(b64_text(grp.skip(3)) =~= Seq::<char>::empty());
                assert(b64_text(grp) =~= seq![
                    b64_char(v1 as int),
                    b64_char(v2 as int),
                    b64_char(v3 as int),
                    b64_char(v4 as int),
                ]);
                assert(out@ =~= b64_text(b@.take(i + 3)));
            }
            i = i + 3;
        }
        let rem = b.len() - i;
        if rem == 1 {
            let b0 = b[i];
            let v1 = b0 / 4;
            let v2 = (b0 % 4) * 16;
            out.append(alpha.substring_ascii(v1 as usize, v1 as usize + 1));
            out.append(alpha.substring_ascii(v2 as usize, v2 as usize + 1));
            out.append("=");
            out.append("=");
            proof {
                let pre = b@.take(i as int);
                let grp = b@.subrange(i as int, b@.len() as int);
                assert(pre + grp =~= b@);
                lemma_b64_text_append(pre, grp);
                assert(b64_text(grp) =~= seq![b64_char(v1 as int), b64_char(v2 as int), '=', '=']);
                assert(out@ =~= b64_text(b@));
            }
        } else if rem == 2 {
            let b0 = b[i];
            let b1 = b[i + 1];
            let v1 = b0 / 4;
            let v2 = (b0 % 4) * 16 + b1 / 16;
            let v3 = (b1 % 16) * 4;
            out.append(alpha.substring_ascii(v1 as usize, v1 as usize + 1));
            out.append(alpha.substring_ascii(v2 as usize, v2 as usize + 1));
            out.append(alpha.substring_ascii(v3 as usize, v3 as usize + 1));
            out.append("=");
            proof {
                let pre = b@.take(i as int);
                let grp = b@.subrange(i as int, b@.len() as int);
                assert(pre + grp =~= b@);
                lemma_b64_text_append(pre, grp);
                assert(b64_text(grp) =~= seq![
                    b64_char(v1 as int),
                    b64_char(v2 as int),
                    b64_char(v3 as int),
                    '=',
                ]);
                assert(out@ =~= b64_text(b@));
            }
        } else {
            proof {
                assert(b@.take(i as int) =~= b@);
            }
        }
        out
    }

    /// Converts a base64 string back to the bytes it renders.  Fails with
    /// [`KdtErr::MalformedEncoding`] exactly when the input is not the output
    /// of [`Base64::encode_bytes`] on any byte string.
    pub fn decode_string(s: &str) -> (r: Result<Vec<u8>, KdtErr>)
        ensures
            match r {
                Ok(v) => b64_parse(s@) == Some(v@),
                Err(e) => b64_parse(s@) is None && e == KdtErr::MalformedEncoding,
            },
    {
        let n = s.unicode_len();
        if n % 4 != 0 {
            proof {
                lemma_b64_parse_bad_len(s@);
            }
            return Err(KdtErr::MalformedEncoding);
        }
        if n == 0 {
            let empty: Vec<u8> = Vec::new();
            proof {
                assert(b64_parse(s@) =~= Some(empty@));
            }
            return Ok(empty);
        }
        let mut out: Vec<u8> = Vec::new();
        let mut i: usize = 0;
        proof {
            assert(s@.skip(0) =~= s@);
            assert(b64_parse(s@) is Some ==> out@ + b64_parse(s@).unwrap() =~= b64_parse(
                s@,
            ).unwrap());
        }
        while i < n - 4
            invariant
                i % 4 == 0,
                i + 4 <= n,
                n == s@.len(),
                n % 4 == 0,
                b64_parse(s@) is Some <==> b64_parse(s@.skip(i as int)) is Some,
                b64_parse(s@) is Some ==> b64_parse(s@) == Some(
                    out@ + b64_parse(s@.skip(i as int)).unwrap(),
                ),
            decreases n - i,
        {
            let v1 = Self::char_val(s.get_char(i));
            let v2 = Self::char_val(s.get_char(i + 1));
            let v3 = Self::char_val(s.get_char(i + 2));
            let v4 = Self::char_val(s.get_char(i + 3));
            proof {
                let t = s@.skip(i as int);
                assert(t.len() > 4);
                assert(t[0] == s@[i as int] && t[1] == s@[i + 1] && t[2] == s@[i + 2] && t[3]
                    == s@[i + 3]);
                assert(t.skip(4) =~= s@.skip(i + 4));
            }
            if v1 < 0 || v2 < 0 || v3 < 0 || v4 < 0 {
                return Err(KdtErr::MalformedEncoding);
            }
            out.push((v1 * 4 + v2 / 16) as u8);
            out.push(((v2 % 16) * 16 + v3 / 4) as u8);
            out.push(((v3 % 4) * 64 + v4) as u8);
            proof {
                let t = s@.skip(i as int);
                assert(b64_parse(t) is Some <==> b64_parse(t.skip(4)) is Some);
                if b64_parse(t) is Some {
                    assert(out@ =~= (out@.subrange(0, out@.len() - 3)) + b64_group3(
                        v1 as int,
                        v2 as int,
                        v3 as int,
                        v4 as int,
                    ));
                    assert(out@ + b64_parse(s@.skip(i + 4)).unwrap() =~= out@.subrange(
                        0,
                        out@.len() - 3,
                    ) + b64_parse(t).unwrap());
                }
            }
            i = i + 4;
        }
        // The final four-digit group, where padding may appear.
        let v1 = Self::char_val(s.get_char(i));
        let v2 = Self::char_val(s.get_char(i + 1));
        let c3 = s.get_char(i + 2);
        let c4 = s.get_char(i + 3);
        let v3 = Self::char_val(c3);
        let v4 = Self::char_val(c4);
        proof {
            let t = s@.skip(i as int);
            assert(t.len() == 4);
            assert(t[0] == s@[i as int] && t[1] == s@[i + 1] && t[2] == s@[i + 2] && t[3] == s@[i
                + 3]);
        }
        if v1 < 0 || v2 < 0 {
            return Err(KdtErr::MalformedEncoding);
        }
        if c3 == '=' && c4 == '=' {
            if v2 % 16 != 0 {
                return Err(KdtErr::MalformedEncoding);
            }
            out.push((v1 * 4 + v2 / 16) as u8);
            proof {
                let t = s@.skip(i as int);
                assert(b64_parse(t) == Some(seq![(v1 * 4 + v2 / 16) as u8]));
                assert(out@ =~= out@.subrange(0, out@.len() - 1) + b64_parse(t).unwrap());
            }
            Ok(out)
        } else if c4 == '=' {
            if v3 < 0 || v3 % 4 != 0 {
                return Err(KdtErr::MalformedEncoding);
            }
            out.push((v1 * 4 + v2 / 16) as u8);
            out.push(((v2 % 16) * 16 + v3 / 4) as u8);
            proof {
                let t = s@.skip(i as int);
                assert(b64_parse(t) == Some(seq![
                    (v1 * 4 + v2 / 16) as u8,
                    ((v2 % 16) * 16 + v3 / 4) as u8,
                ]));
                assert(out@ =~= out@.subrange(0, out@.len() - 2) + b64_parse(t).unwrap());
            }
            Ok(out)
        } else {
            if v3 < 0 || v4 < 0 {
                return Err(KdtErr::MalformedEncoding);
            }
            out.push((v1 * 4 + v2 / 16) as u8);
            out.push(((v2 % 16) * 16 + v3 / 4) as u8);
            out.push(((v3 % 4) * 64 + v4) as u8);
            proof {
                let t = s@.skip(i as int);
                assert(t.skip(4) =~= Seq::<char>::empty());
                assert(b64_parse(t.skip(4)) == Some(Seq::<u8>::empty()));
                assert(b64_parse(t).unwrap() =~= b64_group3(
                    v1 as int,
                    v2 as int,
                    v3 as int,
                    v4 as int,
                ));
                assert(out@ =~= out@.subrange(0, out@.len() - 3) + b64_parse(t).unwrap());
            }
            Ok(out)
        }
    }

    /// The 6-bit value of one character, or -1 when it is not a base64 digit.
    fn char_val(c: char) -> (v: i32)
        ensures
            v as int == b64_val(c),
            -1 <= v < 64,
    {
        let n = c as u32;
        if 65 <= n && n <= 90 {
            (n - 65) as i32
        } else if 97 <= n && n <= 122 {
            (n - 71) as i32
        } else if 48 <= n && n <= 57 {
            (n + 4) as i32
        } else if n == 43 {
            62
        } else if n == 47 {
            63
        } else {
            -1
        }
    }
}

} // verus!

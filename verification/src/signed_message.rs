//! The signed-message envelope.  Unlike the field-delimited envelopes it
//! nests the plaintext message, kept exactly as written, above a signature
//! sub-block holding the base64, line-wrapped signature.  Parsing splits at
//! the first signature marker rather than at a field delimiter.

use vstd::prelude::*;

use crate::codec::{b64_parse, b64_text, lemma_b64_text_chars, Base64};
use crate::envelope::{wrap64, wrap64_exec};
use crate::errors::KdtErr;
use crate::text::{
    find_first, lemma_strip_clean, match_at, marker_free, occurs_at, strip_newlines,
    strip_newlines_exec,
};
use vstd::string::StrSliceExecFns;
use vstd::string::StringExecFns;

verus! {

/// The header line opening a signed message.
pub open spec fn signed_header() -> Seq<char> {
    "-----BEGIN KDT SIGNED MESSAGE-----"@
}

/// The marker line that separates the message from its signature block.
pub open spec fn sig_marker() -> Seq<char> {
    "-----BEGIN KDT SIGNATURE-----"@
}

/// The footer line closing the signature block and the whole envelope.
pub open spec fn signed_footer() -> Seq<char> {
    "-----END KDT SIGNATURE-----"@
}

/// The full text of a signed message: header line, the message exactly as
/// written, a blank line, the signature marker, the base64 signature wrapped
/// at 64 columns, and the footer.
pub open spec fn signed_text(message: Seq<char>, sig: Seq<u8>) -> Seq<char> {
    signed_header() + seq!['\n'] + message + seq!['\n', '\n'] + sig_marker() + seq!['\n']
        + wrap64(b64_text(sig)) + seq!['\n'] + signed_footer()
}

/// The position of the first signature marker in `s`, where one occurs.
pub open spec fn first_marker(s: Seq<char>) -> int {
    choose|i: int|
        occurs_at(s, sig_marker(), i) && forall|j: int|
            0 <= j < i ==> !occurs_at(s, sig_marker(), j)
}

/// The structural parse of a signed message: the exact message text and the
/// newline-free base64 of the signature, recovered by matching the literal
/// markers and splitting at the first signature marker.
pub open spec fn signed_structure(s: Seq<char>) -> Option<(Seq<char>, Seq<char>)> {
    let h = signed_header();
    let m = sig_marker();
    let f = signed_footer();
    if s.len() >= h.len() + f.len() + 2 && s.take(h.len() + 1 as int) == h + seq!['\n'] && s.skip(
        s.len() - f.len() - 1 as int,
    ) == seq!['\n'] + f && (exists|i: int| occurs_at(s, m, i)) {
        let i = first_marker(s);
        if h.len() + 3 <= i && i + m.len() + f.len() + 2 <= s.len() && s[i - 1] == '\n' && s[i - 2]
            == '\n' && s[i + m.len()] == '\n' {
            Some(
                (
                    s.subrange(h.len() + 1 as int, i - 2),
                    strip_newlines(s.subrange(i + m.len() + 1, s.len() - f.len() - 1)),
                ),
            )
        } else {
            None
        }
    } else {
        None
    }
}

/// The complete parse: the structural parse followed by base64 decoding of
/// the signature block.
pub open spec fn signed_parse(s: Seq<char>) -> Option<(Seq<char>, Seq<u8>)> {
    match signed_structure(s) {
        None => None,
        Some((message, sigb)) => match b64_parse(sigb) {
            Some(sig) => Some((message, sig)),
            None => None,
        },
    }
}

/// A message carrying a Dilithium signature over its exact UTF-8 bytes.
#[derive(Clone, Debug)]
pub struct KdtSignedMessage {
    /// The signed text, preserved exactly: no trimming of whitespace.
    pub message: String,
    /// Dilithium signature bytes over the message's UTF-8 encoding.
    pub signature: Vec<u8>,
}

impl KdtSignedMessage {
    /// Pairs a message with its signature bytes.
    pub fn new(message: String, signature: Vec<u8>) -> (r: Self)
        ensures
            r.message@ == message@,
            r.signature@ == signature@,
    {
        KdtSignedMessage { message, signature }
    }

    /// Restores a signed message from its envelope text.  Fails with
    /// [`KdtErr::EnvelopeFormat`] when the markers do not line up and with
    /// [`KdtErr::MalformedEncoding`] when the signature block is not valid
    /// base64.
    pub fn from_str(full_signature: String) -> (r: Result<Self, KdtErr>)
        ensures
            match r {
                Ok(sm) => signed_parse(full_signature@) == Some((sm.message@, sm.signature@)),
                Err(e) => {
                    &&& signed_parse(full_signature@) is None
                    &&& e == (if signed_structure(full_signature@) is None {
                        KdtErr::EnvelopeFormat
                    } else {
                        KdtErr::MalformedEncoding
                    })
                },
            },
    {
        let s = full_signature.as_str();
        let n = s.unicode_len();
        let h = "-----BEGIN KDT SIGNED MESSAGE-----";
        let hn = h.unicode_len();
        let m = "-----BEGIN KDT SIGNATURE-----";
        let mn = m.unicode_len();
        let f = "-----END KDT SIGNATURE-----";
        let fnn = f.unicode_len();
        proof {
            reveal_strlit("-----BEGIN KDT SIGNED MESSAGE-----");
            reveal_strlit("-----BEGIN KDT SIGNATURE-----");
            reveal_strlit("-----END KDT SIGNATURE-----");
            assert(hn == 34 && mn == 29 && fnn == 27);
        }
        if n < hn + fnn + 2 {
            return Err(KdtErr::EnvelopeFormat);
        }
        let head_ok = match_at(s, h, 0) && s.get_char(hn) == '\n';
        proof {
            if head_ok {
                assert(s@.take(hn + 1) =~= h@ + seq!['\n']);
            } else {
                if s@.take(hn + 1) == h@ + seq!['\n'] {
                    assert(s@.subrange(0, hn as int) =~= (h@ + seq!['\n']).subrange(0, hn as int));
                    assert((h@ + seq!['\n']).subrange(0, hn as int) =~= h@);
                    assert(s@[hn as int] == (h@ + seq!['\n'])[hn as int]);
                    assert(false);
                }
            }
        }
        if !head_ok {
            return Err(KdtErr::EnvelopeFormat);
        }
        let foot_ok = match_at(s, f, n - fnn) && s.get_char(n - fnn - 1) == '\n';
        proof {
            if foot_ok {
                assert(s@.skip(n - fnn - 1) =~= seq!['\n'] + f@);
            } else {
                if s@.skip(n - fnn - 1) == seq!['\n'] + f@ {
                    assert(s@.subrange(n - fnn, n as int) =~= (seq!['\n'] + f@).subrange(
                        1,
                        fnn + 1,
                    ));
                    assert((seq!['\n'] + f@).subrange(1, fnn + 1) =~= f@);
                    assert(s@[n - fnn - 1] == (seq!['\n'] + f@)[0]);
                    assert(false);
                }
            }
        }
        if !foot_ok {
            return Err(KdtErr::EnvelopeFormat);
        }
        let mi = match find_first(s, m) {
            Some(i) => i,
            None => {
                return Err(KdtErr::EnvelopeFormat);
            },
        };
        proof {
            assert(first_marker(s@) == mi as int) by {
                let i0 = first_marker(s@);
                assert(occurs_at(s@, sig_marker(), mi as int) && forall|j: int|
                    0 <= j < mi as int ==> !occurs_at(s@, sig_marker(), j));
                assert(occurs_at(s@, sig_marker(), i0) && forall|j: int|
                    0 <= j < i0 ==> !occurs_at(s@, sig_marker(), j));
            }
        }
        if !(hn + 3 <= mi && mi + mn <= n - fnn - 2 && s.get_char(mi - 1) == '\n' && s.get_char(
            mi - 2,
        ) == '\n' && s.get_char(mi + mn) == '\n') {
            return Err(KdtErr::EnvelopeFormat);
        }
        let message = String::from_str(s.substring_char(hn + 1, mi - 2));
        let sig_region = s.substring_char(mi + mn + 1, n - fnn - 1);
        let sigb = strip_newlines_exec(sig_region, 0);
        proof {
            assert(sig_region@.skip(0) =~= sig_region@);
            assert(sig_region@ =~= s@.subrange(mi + mn + 1, n - fnn - 1));
        }
        let signature = match Base64::decode_string(sigb.as_str()) {
            Ok(v) => v,
            Err(_) => {
                return Err(KdtErr::MalformedEncoding);
            },
        };
        Ok(KdtSignedMessage { message, signature })
    }

    /// Renders the signed message as its envelope text.
    pub fn to_text(&self) -> (r: String)
        ensures
            r@ == signed_text(self.message@, self.signature@),
    {
        let sigb = Base64::encode_bytes(self.signature.as_slice());
        let wrapped = wrap64_exec(sigb.as_str(), 0);
        let mut out = String::new();
        out.append("-----BEGIN KDT SIGNED MESSAGE-----");
        out.append("\n");
        out.append(self.message.as_str());
        out.append("\n\n");
        out.append("-----BEGIN KDT SIGNATURE-----");
        out.append("\n");
        out.append(wrapped.as_str());
        out.append("\n");
        out.append("-----END KDT SIGNATURE-----");
        proof {
            reveal_strlit("\n");
            reveal_strlit("\n\n");
            assert(sigb@.skip(0) =~= sigb@);
            assert(out@ =~= signed_text(self.message@, self.signature@));
        }
        out
    }
}

/// Parsing inverts rendering: a signed envelope built over a message that
/// does not itself contain the signature marker comes back as exactly that
/// message and signature.
pub proof fn lemma_signed_round_trip(message: Seq<char>, sig: Seq<u8>)
    requires
        marker_free(message, sig_marker()),
    ensures
        signed_parse(signed_text(message, sig)) == Some((message, sig)),
{
    reveal_strlit("-----BEGIN KDT SIGNED MESSAGE-----");
    reveal_strlit("-----BEGIN KDT SIGNATURE-----");
    reveal_strlit("-----END KDT SIGNATURE-----");
    let h = signed_header();
    let m = sig_marker();
    let f = signed_footer();
    let w = wrap64(b64_text(sig));
    let s = signed_text(message, sig);
    let ml = message.len() as int;
    let istar = 37 + ml;
    assert(h.len() == 34 && m.len() == 29 && f.len() == 27);
    assert(s.len() == 34 + 1 + ml + 2 + 29 + 1 + w.len() + 1 + 27);
    assert(s.take(35) =~= h + seq!['\n']);
    assert(s.skip(s.len() - 28) =~= seq!['\n'] + f);
    assert(s.subrange(istar, istar + 29) =~= m);
    assert(occurs_at(s, m, istar));
    assert(forall|k: int| 0 <= k < 29 ==> m[k] != '\n');
    assert(s[34] == '\n' && s[35 + ml] == '\n' && s[36 + ml] == '\n');
    assert forall|j: int| 0 <= j < istar implies !occurs_at(s, m, j) by {
        if occurs_at(s, m, j) {
            assert(s.subrange(j, j + 29) == m);
            if j + 29 <= 34 {
                // Entirely inside the header line: the texts differ.
                if j == 0 {
                    assert(s.subrange(j, j + 29)[19] == s[19]);
                    assert(s[19] == h[19]);
                    assert(m[19] != h[19]);
                } else {
                    assert(s.subrange(j, j + 29)[5 - j] == s[5]);
                    assert(s[5] == h[5]);
                    assert(h[5] == 'B');
                    assert(m[5 - j] == '-');
                }
                assert(false);
            } else if j <= 34 {
                // Covers the newline after the header.
                assert(s.subrange(j, j + 29)[34 - j] == s[34]);
                assert(m[34 - j] != '\n');
                assert(false);
            } else if j + 29 <= 35 + ml {
                // Entirely inside the message: excluded by the premise.
                assert(s.subrange(j, j + 29) =~= message.subrange(j - 35, j - 35 + 29));
                assert(message.subrange(j - 35, j - 35 + 29) =~= message.subrange(
                    j - 35,
                    j - 35 + m.len(),
                ));
                assert(occurs_at(message, m, j - 35));
                assert(false);
            } else if j <= 35 + ml {
                // Covers the first blank-line newline.
                assert(s.subrange(j, j + 29)[35 + ml - j] == s[35 + ml]);
                assert(m[35 + ml - j] != '\n');
                assert(false);
            } else {
                // j == 36 + ml: starts on the second blank-line newline.
                assert(s.subrange(j, j + 29)[36 + ml - j] == s[36 + ml]);
                assert(m[36 + ml - j] != '\n');
                assert(false);
            }
        }
    }
    assert(first_marker(s) == istar) by {
        let i0 = first_marker(s);
        assert(occurs_at(s, m, istar) && forall|j: int| 0 <= j < istar ==> !occurs_at(s, m, j));
        assert(occurs_at(s, m, i0) && forall|j: int| 0 <= j < i0 ==> !occurs_at(s, m, j));
    }
    assert(s[istar - 1] == '\n' && s[istar - 2] == '\n' && s[istar + 29] == '\n');
    assert(s.subrange(35, istar - 2) =~= message);
    assert(s.subrange(istar + 30, s.len() - 28) =~= w);
    lemma_b64_text_chars(sig);
    crate::envelope::lemma_strip_wrap64(b64_text(sig));
    crate::codec::lemma_base64_round_trip(sig);
    assert(signed_structure(s) == Some((message, b64_text(sig))));
}

} // verus!

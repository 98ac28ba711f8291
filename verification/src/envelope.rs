//! The armor format shared by key blocks and encrypted messages: a header
//! line, a body wrapped at 64 columns whose fields are joined by `*`, and a
//! footer line.
//!
//! [`wrap`] renders a field list under a tag; [`unwrap`] parses by matching
//! the literal markers and splitting the body back into fields, and fails
//! with [`KdtErr::EnvelopeFormat`] on anything that does not parse.  The two
//! are inverse on well-formed fields: [`lemma_wrap_unwrap_round_trip`].

use vstd::prelude::*;

use crate::errors::KdtErr;
use crate::text::{
    lemma_strip_append, lemma_strip_clean, match_at, occurs_at, strip_newlines,
    strip_newlines_exec,
};
use vstd::string::StrSliceExecFns;
use vstd::string::StringExecFns;

verus! {

/// The tag of a field-delimited envelope; each tag has its own marker pair.
#[derive(Clone, Copy, Debug, PartialEq, Eq, Structural)]
pub enum Tag {
    /// A public key block: encryption key, signing key, owner.
    PubkeyBlock,
    /// A private key block: encryption key, signing key, owner.
    PrivkeyBlock,
    /// An encrypted message: encapsulated secret, ciphertext, nonce.
    Message,
}

/// The header line of an envelope with the given tag.
pub open spec fn header_text(tag: Tag) -> Seq<char> {
    match tag {
        Tag::PubkeyBlock => "-----BEGIN KDT PUBKEY BLOCK-----"@,
        Tag::PrivkeyBlock => "-----BEGIN KDT PRIVKEY BLOCK-----"@,
        Tag::Message => "-----BEGIN KDT MESSAGE-----"@,
    }
}

/// The footer line of an envelope with the given tag.
pub open spec fn footer_text(tag: Tag) -> Seq<char> {
    match tag {
        Tag::PubkeyBlock => "-----END KDT PUBKEY BLOCK-----"@,
        Tag::PrivkeyBlock => "-----END KDT PRIVKEY BLOCK-----"@,
        Tag::Message => "-----END KDT MESSAGE-----"@,
    }
}

/// How many fields the body of an envelope with this tag carries.
pub open spec fn spec_arity(tag: Tag) -> int {
    3
}

/// The header line as a string slice.
pub fn header_str(tag: Tag) -> (r: &'static str)
    ensures
        r@ == header_text(tag),
{
    match tag {
        Tag::PubkeyBlock => "-----BEGIN KDT PUBKEY BLOCK-----",
        Tag::PrivkeyBlock => "-----BEGIN KDT PRIVKEY BLOCK-----",
        Tag::Message => "-----BEGIN KDT MESSAGE-----",
    }
}

/// The footer line as a string slice.
pub fn footer_str(tag: Tag) -> (r: &'static str)
    ensures
        r@ == footer_text(tag),
{
    match tag {
        Tag::PubkeyBlock => "-----END KDT PUBKEY BLOCK-----",
        Tag::PrivkeyBlock => "-----END KDT PRIVKEY BLOCK-----",
        Tag::Message => "-----END KDT MESSAGE-----",
    }
}

/// How many fields the body of an envelope with this tag carries.
pub fn arity(tag: Tag) -> (r: usize)
    ensures
        r as int == spec_arity(tag),
{
    3
}

/// A field may hold neither the `*` delimiter nor a newline.
pub open spec fn field_wf(f: Seq<char>) -> bool {
    forall|i: int| 0 <= i < f.len() ==> f[i] != '*' && f[i] != '\n'
}

/// The fields joined into one line by the `*` delimiter.
pub open spec fn join_fields(fs: Seq<Seq<char>>) -> Seq<char>
    decreases fs.len(),
{
    if fs.len() == 0 {
        Seq::empty()
    } else if fs.len() == 1 {
        fs[0]
    } else {
        fs[0] + seq!['*'] + join_fields(fs.skip(1))
    }
}

/// The line split at every `*` delimiter; always at least one piece.
pub open spec fn split_star(s: Seq<char>) -> Seq<Seq<char>>
    decreases s.len(),
{
    if s.len() == 0 {
        seq![Seq::<char>::empty()]
    } else if s[0] == '*' {
        seq![Seq::<char>::empty()] + split_star(s.skip(1))
    } else {
        let rest = split_star(s.skip(1));
        seq![seq![s[0]] + rest[0]] + rest.skip(1)
    }
}

/// The line segmented into 64-character rows separated by newlines, the last
/// row left partial and no trailing newline added.
pub open spec fn wrap64(s: Seq<char>) -> Seq<char>
    decreases s.len(),
{
    if s.len() <= 64 {
        s
    } else {
        s.take(64) + seq!['\n'] + wrap64(s.skip(64))
    }
}

/// The whole envelope text under a tag: header line, wrapped body, footer.
pub open spec fn wrap_text(tag: Tag, fs: Seq<Seq<char>>) -> Seq<char> {
    header_text(tag) + seq!['\n'] + wrap64(join_fields(fs)) + seq!['\n'] + footer_text(tag)
}

/// The parse of an envelope: `Some(fields)` when the marker lines stand at
/// the very start and end and the newline-free body splits into exactly the
/// arity of the tag, `None` otherwise.
pub open spec fn unwrap_parse(tag: Tag, s: Seq<char>) -> Option<Seq<Seq<char>>> {
    let h = header_text(tag);
    let f = footer_text(tag);
    if s.len() >= h.len() + f.len() + 2 && s.take(h.len() + 1 as int) == h + seq!['\n']
        && s.skip(s.len() - f.len() - 1 as int) == seq!['\n'] + f {
        let body = s.subrange(h.len() + 1 as int, s.len() - f.len() - 1 as int);
        let fields = split_star(strip_newlines(body));
        if fields.len() == spec_arity(tag) {
            Some(fields)
        } else {
            None
        }
    } else {
        None
    }
}

/// Splitting always yields at least one piece.
pub proof fn lemma_split_nonempty(s: Seq<char>)
    ensures
        split_star(s).len() >= 1,
    decreases s.len(),
{
    if s.len() == 0 {
    } else {
        lemma_split_nonempty(s.skip(1));
    }
}

/// A delimiter-free line splits into just itself.
pub proof fn lemma_split_nostar(s: Seq<char>)
    requires
        forall|i: int| 0 <= i < s.len() ==> s[i] != '*',
    ensures
        split_star(s) == seq![s],
    decreases s.len(),
{
    if s.len() == 0 {
        assert(split_star(s) =~~= seq![s]);
    } else {
        lemma_split_nostar(s.skip(1));
        assert(seq![s[0]] + s.skip(1) =~= s);
        assert(split_star(s) =~~= seq![s]);
    }
}

/// Splitting takes off a delimiter-free first field.
pub proof fn lemma_split_prefix(f: Seq<char>, t: Seq<char>)
    requires
        forall|i: int| 0 <= i < f.len() ==> f[i] != '*',
    ensures
        split_star(f + seq!['*'] + t) == seq![f] + split_star(t),
    decreases f.len(),
{
    let s = f + seq!['*'] + t;
    if f.len() == 0 {
        assert(s[0] == '*');
        assert(s.skip(1) =~= t);
        assert(split_star(s) =~~= seq![f] + split_star(t));
    } else {
        assert(s[0] == f[0]);
        assert(s[0] != '*');
        assert(s.skip(1) =~= f.skip(1) + seq!['*'] + t);
        lemma_split_prefix(f.skip(1), t);
        lemma_split_nonempty(t);
        let rest = split_star(s.skip(1));
        assert(rest == seq![f.skip(1)] + split_star(t));
        assert(rest[0] == f.skip(1));
        assert(seq![s[0]] + rest[0] =~= f);
        assert(rest.skip(1) =~= split_star(t));
        assert(split_star(s) =~~= seq![f] + split_star(t));
    }
}

/// Splitting inverts joining on well-formed fields.
pub proof fn lemma_split_join(fs: Seq<Seq<char>>)
    requires
        fs.len() >= 1,
        forall|k: int| 0 <= k < fs.len() ==> field_wf(#[trigger] fs[k]),
    ensures
        split_star(join_fields(fs)) == fs,
    decreases fs.len(),
{
    if fs.len() == 1 {
        lemma_split_nostar(fs[0]);
        assert(split_star(join_fields(fs)) =~~= fs);
    } else {
        lemma_split_join(fs.skip(1));
        lemma_split_prefix(fs[0], join_fields(fs.skip(1)));
        assert(split_star(join_fields(fs)) =~~= seq![fs[0]] + fs.skip(1));
        assert(seq![fs[0]] + fs.skip(1) =~~= fs);
    }
}

/// A newline-free line survives wrapping and stripping unchanged.
pub proof fn lemma_strip_wrap64(s: Seq<char>)
    requires
        forall|i: int| 0 <= i < s.len() ==> s[i] != '\n',
    ensures
        strip_newlines(wrap64(s)) == s,
    decreases s.len(),
{
    if s.len() <= 64 {
        lemma_strip_clean(s);
    } else {
        lemma_strip_wrap64(s.skip(64));
        lemma_strip_append(s.take(64) + seq!['\n'], wrap64(s.skip(64)));
        lemma_strip_append(s.take(64), seq!['\n']);
        assert(strip_newlines(seq!['\n']) =~= Seq::<char>::empty()) by {
            assert(strip_newlines(Seq::<char>::empty()) =~= Seq::<char>::empty());
            assert(seq!['\n'].skip(1) =~= Seq::<char>::empty());
            assert(strip_newlines(seq!['\n'].skip(1)) =~= Seq::<char>::empty());
        }
        lemma_strip_clean(s.take(64));
        assert(wrap64(s) =~= (s.take(64) + seq!['\n']) + wrap64(s.skip(64)));
        assert(strip_newlines(wrap64(s)) =~= s.take(64) + s.skip(64));
        assert(s.take(64) + s.skip(64) =~= s);
    }
}

/// Joining well-formed fields yields a line without delimiters escaping their
/// place and without newlines.
pub proof fn lemma_join_no_newline(fs: Seq<Seq<char>>)
    requires
        forall|k: int| 0 <= k < fs.len() ==> field_wf(#[trigger] fs[k]),
    ensures
        forall|i: int| 0 <= i < join_fields(fs).len() ==> #[trigger] join_fields(fs)[i] != '\n',
    decreases fs.len(),
{
    if fs.len() <= 1 {
    } else {
        lemma_join_no_newline(fs.skip(1));
        let j = join_fields(fs);
        assert forall|i: int| 0 <= i < j.len() implies #[trigger] j[i] != '\n' by {
            let h = fs[0];
            if i < h.len() {
                assert(j[i] == h[i]);
            } else if i == h.len() {
                assert(j[i] == '*');
            } else {
                assert(j[i] == join_fields(fs.skip(1))[i - h.len() - 1]);
            }
        }
    }
}

/// Unwrapping inverts wrapping: an envelope rendered from a field list of
/// the tag's arity comes back as exactly those fields.
pub proof fn lemma_wrap_unwrap_round_trip(tag: Tag, fs: Seq<Seq<char>>)
    requires
        fs.len() == spec_arity(tag),
        forall|k: int| 0 <= k < fs.len() ==> field_wf(#[trigger] fs[k]),
    ensures
        unwrap_parse(tag, wrap_text(tag, fs)) == Some(fs),
{
    let h = header_text(tag);
    let f = footer_text(tag);
    let j = join_fields(fs);
    let w = wrap64(j);
    let s = wrap_text(tag, fs);
    assert(s.len() == h.len() + 1 + w.len() + 1 + f.len());
    assert(s.take(h.len() + 1 as int) =~= h + seq!['\n']);
    assert(s.skip(s.len() - f.len() - 1 as int) =~= seq!['\n'] + f);
    assert(s.subrange(h.len() + 1 as int, s.len() - f.len() - 1 as int) =~= w);
    lemma_join_no_newline(fs);
    lemma_strip_wrap64(j);
    lemma_split_join(fs);
}

/// Renders the fields as an armored envelope under the given tag.
pub fn wrap(tag: Tag, fields: &Vec<String>) -> (r: String)
    ensures
        r@ == wrap_text(tag, fields@.map_values(|f: String| f@)),
{
    let joined = join_exec(fields);
    let wrapped = wrap64_exec(joined.as_str(), 0);
    let mut out = String::new();
    out.append(header_str(tag));
    out.append("\n");
    out.append(wrapped.as_str());
    out.append("\n");
    out.append(footer_str(tag));
    proof {
        reveal_strlit("\n");
        assert(joined@.skip(0) =~= joined@);
        assert(out@ =~= wrap_text(tag, fields@.map_values(|f: String| f@)));
    }
    out
}

/// Parses an armored envelope under the given tag back into its fields.
pub fn unwrap(tag: Tag, s: &str) -> (r: Result<Vec<String>, KdtErr>)
    ensures
        match r {
            Ok(fs) => unwrap_parse(tag, s@) == Some(fs@.map_values(|f: String| f@)),
            Err(e) => unwrap_parse(tag, s@) is None && e == KdtErr::EnvelopeFormat,
        },
{
    let n = s.unicode_len();
    let h = header_str(tag);
    let hn = h.unicode_len();
    let f = footer_str(tag);
    let fnn = f.unicode_len();
    proof {
        reveal_strlit("-----BEGIN KDT PUBKEY BLOCK-----");
        reveal_strlit("-----BEGIN KDT PRIVKEY BLOCK-----");
        reveal_strlit("-----BEGIN KDT MESSAGE-----");
        reveal_strlit("-----END KDT PUBKEY BLOCK-----");
        reveal_strlit("-----END KDT PRIVKEY BLOCK-----");
        reveal_strlit("-----END KDT MESSAGE-----");
        assert(hn <= 33 && fnn <= 31);
    }
    if n < hn + fnn + 2 {
        return Err(KdtErr::EnvelopeFormat);
    }
    let head_ok = match_at(s, h, 0) && s.get_char(hn) == '\n';
    proof {
        if head_ok {
            assert(s@.take(hn + 1) =~= h@ + seq!['\n']);
        } else {
            if s@.take(hn + 1) == h@ + seq!['\n'] {
                assert(s@.subrange(0, hn as int) =~= (h@ + seq!['\n']).subrange(0, hn as int));
                assert((h@ + seq!['\n']).subrange(0, hn as int) =~= h@);
                assert(s@[hn as int] == (h@ + seq!['\n'])[hn as int]);
                assert(false);
            }
        }
    }
    if !head_ok {
        return Err(KdtErr::EnvelopeFormat);
    }
    let foot_ok = match_at(s, f, n - fnn) && s.get_char(n - fnn - 1) == '\n';
    proof {
        if foot_ok {
            assert(s@.skip(n - fnn - 1) =~= seq!['\n'] + f@);
        } else {
            if s@.skip(n - fnn - 1) == seq!['\n'] + f@ {
                assert(s@.subrange(n - fnn, n as int) =~= (seq!['\n'] + f@).subrange(
                    1,
                    fnn + 1,
                ));
                assert((seq!['\n'] + f@).subrange(1, fnn + 1) =~= f@);
                assert(s@[n - fnn - 1] == (seq!['\n'] + f@)[0]);
                assert(false);
            }
        }
    }
    if !foot_ok {
        return Err(KdtErr::EnvelopeFormat);
    }
    let body = s.substring_char(hn + 1, n - fnn - 1);
    let joined = strip_newlines_exec(body, 0);
    proof {
        assert(body@.skip(0) =~= body@);
        assert(body@ =~= s@.subrange(hn + 1, n - fnn - 1));
    }
    let fields = split_exec(joined.as_str());
    if fields.len() != arity(tag) {
        return Err(KdtErr::EnvelopeFormat);
    }
    Ok(fields)
}

/// Joins the fields with the `*` delimiter.
fn join_exec(fields: &Vec<String>) -> (r: String)
    ensures
        r@ == join_fields(fields@.map_values(|f: String| f@)),
{
    let ghost fsv = fields@.map_values(|f: String| f@);
    let mut out = String::new();
    let mut k: usize = 0;
    proof {
        assert(join_fields(fsv.take(0)) =~= Seq::<char>::empty());
    }
    while k < fields.len()
        invariant
            k <= fields.len(),
            fsv == fields@.map_values(|f: String| f@),
            out@ == join_fields(fsv.take(k as int)),
        decreases fields.len() - k,
    {
        if k > 0 {
            out.append("*");
        }
        out.append(fields[k].as_str());
        proof {
            reveal_strlit("*");
            assert(fsv.take(k + 1) =~= fsv.take(k as int).push(fsv[k as int]));
            lemma_join_snoc(fsv.take(k as int), fsv[k as int]);
        }
        k = k + 1;
    }
    proof {
        assert(fsv.take(fields.len() as int) =~= fsv);
    }
    out
}

/// Appending one more field to a join adds a delimiter and the field.
proof fn lemma_join_snoc(fs: Seq<Seq<char>>, g: Seq<char>)
    ensures
        join_fields(fs.push(g)) == if fs.len() == 0 {
            g
        } else {
            join_fields(fs) + seq!['*'] + g
        },
    decreases fs.len(),
{
    let p = fs.push(g);
    if fs.len() == 0 {
        assert(p.len() == 1);
        assert(p[0] == g);
        assert(join_fields(p) =~= g);
    } else {
        lemma_join_snoc(fs.skip(1), g);
        assert(p.skip(1) =~= fs.skip(1).push(g));
        assert(p[0] == fs[0]);
        if fs.len() == 1 {
            assert(fs.skip(1).len() == 0);
            assert(join_fields(p) =~= join_fields(fs) + seq!['*'] + g);
        } else {
            assert(join_fields(fs.skip(1).push(g)) == join_fields(fs.skip(1)) + seq!['*'] + g);
            assert(join_fields(p) =~= join_fields(fs) + seq!['*'] + g);
        }
    }
}

/// Splits a line at every `*` delimiter.
fn split_exec(s: &str) -> (r: Vec<String>)
    ensures
        r@.map_values(|f: String| f@) == split_star(s@),
{
    let n = s.unicode_len();
    let mut fields: Vec<String> = Vec::new();
    let mut cur = String::new();
    let mut i: usize = 0;
    proof {
        lemma_split_nonempty(s@);
        assert(s@.skip(0) =~= s@);
        assert(split_star(s@) =~= fields@.map_values(|f: String| f@) + seq![cur@ + split_star(
            s@.skip(0),
        )[0]] + split_star(s@.skip(0)).skip(1));
    }
    while i < n
        invariant
            i <= n,
            n == s@.len(),
            split_star(s@.skip(i as int)).len() >= 1,
            split_star(s@) == fields@.map_values(|f: String| f@) + seq![cur@ + split_star(
                s@.skip(i as int),
            )[0]] + split_star(s@.skip(i as int)).skip(1),
        decreases n - i,
    {
        let c = s.get_char(i);
        let ghost cur0 = cur@;
        let ghost fields0 = fields@.map_values(|f: String| f@);
        proof {
            let t = s@.skip(i as int);
            assert(t[0] == s@[i as int]);
            assert(t.skip(1) =~= s@.skip(i + 1));
            lemma_split_nonempty(s@.skip(i + 1));
        }
        if c == '*' {
            fields.push(cur);
            cur = String::new();
            proof {
                let t = s@.skip(i as int);
                let rest = split_star(s@.skip(i + 1));
                assert(split_star(t) == seq![Seq::<char>::empty()] + rest);
                assert(split_star(t)[0] =~= Seq::<char>::empty());
                assert(split_star(t).skip(1) =~= rest);
                assert(rest =~~= seq![rest[0]] + rest.skip(1));
                assert(fields@.map_values(|f: String| f@) =~~= fields0.push(cur0));
                assert(cur0 + split_star(t)[0] =~= cur0);
                assert(cur@ + rest[0] =~= rest[0]);
                assert(split_star(s@) =~~= fields@.map_values(|f: String| f@) + seq![cur@
                    + split_star(s@.skip(i + 1))[0]] + split_star(s@.skip(i + 1)).skip(1));
            }
        } else {
            cur.append(s.substring_char(i, i + 1));
            proof {
                assert(s@.subrange(i as int, i + 1) =~= seq![s@[i as int]]);
                let t = s@.skip(i as int);
                let rest = split_star(s@.skip(i + 1));
                assert(split_star(t) == seq![seq![t[0]] + rest[0]] + rest.skip(1));
                assert(cur@ =~= cur0 + seq![t[0]]);
                assert(cur@ + rest[0] =~= cur0 + (seq![t[0]] + rest[0]));
                assert(cur0 + split_star(t)[0] =~= cur@ + rest[0]);
                assert(split_star(s@) =~~= fields@.map_values(|f: String| f@) + seq![cur@
                    + split_star(s@.skip(i + 1))[0]] + split_star(s@.skip(i + 1)).skip(1));
            }
        }
        i = i + 1;
    }
    fields.push(cur);
    proof {
        assert(s@.skip(n as int) =~= Seq::<char>::empty());
        assert(split_star(Seq::<char>::empty()) =~= seq![Seq::<char>::empty()]);
        let fin = fields@.map_values(|f: String| f@);
        assert(fin =~= fin.drop_last().push(fields@.last()@));
        assert(fin == split_star(s@)) by {
            assert(split_star(s@) =~= fin.drop_last() + seq![fields@.last()@ + Seq::<
                char,
            >::empty()] + seq![Seq::<char>::empty()].skip(1));
            assert(fields@.last()@ + Seq::<char>::empty() =~= fields@.last()@);
            assert(fin.drop_last() + seq![fields@.last()@] =~= fin);
            assert(seq![Seq::<char>::empty()].skip(1) =~= Seq::<Seq<char>>::empty());
        }
    }
    fields
}

/// Wraps the tail of `s` from `from` on into 64-column rows.
pub(crate) fn wrap64_exec(s: &str, from: usize) -> (r: String)
    requires
        from <= s@.len(),
    ensures
        r@ == wrap64(s@.skip(from as int)),
    decreases s@.len() - from,
{
    let n = s.unicode_len();
    if n - from <= 64 {
        let r = String::from_str(s.substring_char(from, n));
        proof {
            assert(s@.subrange(from as int, n as int) =~= s@.skip(from as int));
        }
        r
    } else {
        let mut head = String::from_str(s.substring_char(from, from + 64));
        head.append("\n");
        let tail = wrap64_exec(s, from + 64);
        head.append(tail.as_str());
        proof {
            reveal_strlit("\n");
            let t = s@.skip(from as int);
            assert(t.take(64) =~= s@.subrange(from as int, from + 64));
            assert(t.skip(64) =~= s@.skip(from + 64));
            assert(head@ =~= wrap64(s@.skip(from as int)));
        }
        head
    }
}

} // verus!

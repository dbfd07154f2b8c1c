use vstd::prelude::*;
use vstd::string::StringExecFns;

pub mod errors;
pub mod metadata;
pub mod scanner;
pub mod toml_out;
pub mod yaml;

use crate::errors::{kind_of, ErrKind, ParseResult};
use crate::metadata::{decode_metadata, key_title, spec_decode, spec_decode_err_msg, spec_header,
    MetaView, Metadata};
use crate::scanner::{lemma_find_from_none, lemma_find_from_props, lemma_find_from_some, match_at,
    spec_find_from, Stream};
use crate::toml_out::{lemma_split_tags_at_sep, lemma_split_tags_no_sep, sep_at, spec_escaped,
    spec_joined_rest, spec_list_toml, spec_quoted, spec_split_tags};
use crate::yaml::yaml_entries_of;

verus! {

/// The three-character marker that opens and closes a front-matter block.
pub open spec fn dashes() -> Seq<char> {
    "---"@
}

/// What reading the front matter from `c` at position `pos` yields: the
/// decoded record and the position just past the closing delimiter, or the
/// kind of error that stops the scan. The enclosed block runs from the end
/// of the opening delimiter to the leftmost later occurrence of the
/// delimiter; the failures are, in order: too little input for the opening
/// delimiter, other text in its place, no closing delimiter anywhere after,
/// and a block that does not decode.
pub open spec fn spec_read_header(c: Seq<char>, pos: int) -> Result<(MetaView, int), ErrKind> {
    if pos + 3 > c.len() {
        Err(ErrKind::UnexpectedEndOfInput { expected: dashes() })
    } else if c.subrange(pos, pos + 3) != dashes() {
        Err(ErrKind::DelimiterMismatch { expected: dashes(), actual: c.subrange(pos, pos + 3) })
    } else {
        match spec_find_from(c, dashes(), pos + 3) {
            None => Err(ErrKind::DelimiterNotFound { delimiter: dashes() }),
            Some(k) => match spec_decode(c.subrange(pos + 3, k)) {
                None => Err(
                    ErrKind::MetadataDecodeError {
                        message: spec_decode_err_msg(c.subrange(pos + 3, k)),
                    },
                ),
                Some(m) => Ok((m, k + 3)),
            },
        }
    }
}

impl<'a> Stream<'a> {
    /// Read the front matter at the cursor: consume the opening delimiter,
    /// capture everything up to the closing one, consume that, and decode
    /// the captured block. Any step's failure short-circuits and propagates
    /// unchanged; no partial metadata is ever returned.
    pub fn read_header(&mut self) -> (r: ParseResult<Metadata>)
        requires
            old(self).wf(),
        ensures
            final(self).wf(),
            final(self).contents() == old(self).contents(),
            ({
                let res = spec_read_header(old(self).contents(), old(self).cursor());
                match res {
                    Ok((m, newpos)) => (r matches Ok(md) && md@ == m) && final(self).cursor()
                        == newpos,
                    Err(kind) => (r matches Err(e) && kind_of(e) == kind),
                }
            }),
    {
        proof {
            reveal_strlit("---");
        }
        let ghost c = self.contents();
        let ghost pos = self.cursor();
        if let Err(e) = self.read_string("---") {
            return Err(e);
        }
        let metadata_raw = match self.read_until("---") {
            Ok(s) => s,
            Err(e) => {
                return Err(e);
            },
        };
        proof {
            lemma_find_from_props(c, dashes(), pos + 3);
        }
        // The search above stopped on an occurrence of the delimiter, so
        // consuming it cannot fail: this branch is provably unreachable.
        if let Err(e) = self.read_string("---") {
            proof {
                assert(false);
            }
            return Err(e);
        }
        decode_metadata(metadata_raw)
    }
}

/// What converting a whole document yields: the rendered TOML header
/// followed by the untouched body after the closing delimiter, or the kind
/// of error the scan or the decode stopped with. A given `alias` replaces
/// whatever alias the block itself carried.
pub open spec fn spec_convert(c: Seq<char>, alias: Option<Seq<char>>) -> Result<
    Seq<char>,
    ErrKind,
> {
    match spec_read_header(c, 0) {
        Err(k) => Err(k),
        Ok((m, pos)) => {
            let with_alias = MetaView {
                alias: if alias is Some {
                    alias
                } else {
                    m.alias
                },
                ..m
            };
            Ok(spec_header(with_alias) + c.subrange(pos, c.len() as int))
        },
    }
}

/// Convert one document: scan and decode the front-matter block, re-render
/// it as a TOML header, and concatenate the body unchanged. On failure no
/// output exists at all — never a partially formatted header.
pub fn convert_document(content: &String, alias: Option<&str>) -> (r: ParseResult<String>)
    ensures
        ({
            let res = spec_convert(
                content@,
                match alias {
                    Some(a) => Some(a@),
                    None => None,
                },
            );
            match res {
                Ok(out) => r matches Ok(o) && o@ == out,
                Err(kind) => (r matches Err(e) && kind_of(e) == kind),
            }
        }),
{
    let mut stream = Stream::new(content);
    match stream.read_header() {
        Err(e) => Err(e),
        Ok(mut metadata) => {
            if let Some(a) = alias {
                metadata.alias = Some(a.to_owned());
            }
            let mut buf = metadata.format_header();
            buf.append(stream.current());
            Ok(buf)
        },
    }
}

// What follows states the laws the conversion obeys, over all inputs.

/// The body is never mutated: a document that is exactly the opening
/// delimiter, an enclosed block free of the delimiter, the closing
/// delimiter and then `body` converts to the rendered header followed by
/// `body`, character for character.
pub proof fn lemma_body_preserved(inner: Seq<char>, body: Seq<char>)
    requires
        forall|j: int|
            3 <= j < 3 + inner.len() ==> !match_at(dashes() + inner + dashes() + body, dashes(), j),
        spec_decode(inner) is Some,
    ensures
        ({
            let input = dashes() + inner + dashes() + body;
            let m = spec_decode(inner).unwrap();
            spec_convert(input, None) == Ok::<Seq<char>, ErrKind>(spec_header(m) + body)
        }),
{
    reveal_strlit("---");
    let input = dashes() + inner + dashes() + body;
    assert(input.subrange(0, 3) =~= dashes());
    let k = 3 + inner.len() as int;
    assert(input.subrange(k, k + 3) =~= dashes());
    assert(match_at(input, dashes(), k));
    lemma_find_from_some(input, dashes(), 3, k);
    assert(input.subrange(3, k) =~= inner);
    assert(input.subrange(k + 3, input.len() as int) =~= body);
}

/// A record with only `title` set renders as exactly the opening marker,
/// one title line, and the closing marker: no other field line and no
/// taxonomy section.
pub proof fn lemma_title_only_header(title: Seq<char>)
    ensures
        spec_header(MetaView { title, date: None, tags: None, alias: None }) == "+++\n"@
            + "title = \""@ + spec_escaped(title) + "\"\n"@ + "+++"@,
{
    assert(spec_header(MetaView { title, date: None, tags: None, alias: None }) =~= "+++\n"@
        + "title = \""@ + spec_escaped(title) + "\"\n"@ + "+++"@);
}

/// Two tags joined by the separator render as a two-element list, in their
/// original left-to-right order, each quoted.
pub proof fn lemma_two_tags(t1: Seq<char>, t2: Seq<char>)
    requires
        forall|j: int| !sep_at(t1, j),
        forall|j: int| !sep_at(t2, j),
    ensures
        spec_split_tags(t1 + ", "@ + t2) == seq![t1, t2],
        spec_list_toml(spec_split_tags(t1 + ", "@ + t2)) == seq!['['] + spec_quoted(t1) + seq![',']
            + spec_quoted(t2) + seq![']'],
{
    reveal_strlit(", ");
    let s = t1 + ", "@ + t2;
    assert(s[t1.len() as int] == ',');
    assert(s[t1.len() as int + 1] == ' ');
    assert(sep_at(s, t1.len() as int));
    assert forall|j: int| 0 <= j < t1.len() implies !sep_at(s, j) by {
        if sep_at(s, j) {
            if j + 2 <= t1.len() {
                assert(t1[j] == s[j]);
                assert(t1[j + 1] == s[j + 1]);
                assert(sep_at(t1, j));
            } else {
                assert(s[j + 1] == ',');
            }
        }
    }
    lemma_split_tags_at_sep(s, t1.len() as int);
    assert(s.subrange(0, t1.len() as int) =~= t1);
    assert(s.subrange(t1.len() as int + 2, s.len() as int) =~= t2);
    lemma_split_tags_no_sep(t2);
    assert(spec_split_tags(s) =~~= seq![t1, t2]);
    let elems = seq![t1, t2];
    assert(elems.drop_first() =~~= seq![t2]);
    assert(seq![t2].drop_first() =~~= Seq::<Seq<char>>::empty());
    assert(spec_joined_rest(Seq::<Seq<char>>::empty()) =~= Seq::<char>::empty());
    assert(spec_joined_rest(seq![t2]) =~= seq![','] + spec_quoted(t2));
    assert(spec_list_toml(elems) =~= seq!['['] + spec_quoted(t1) + seq![','] + spec_quoted(t2)
        + seq![']']);
}

/// A tag string without the separator renders as a single-element list:
/// that tag verbatim, quoted.
pub proof fn lemma_single_tag(tag: Seq<char>)
    requires
        forall|j: int| !sep_at(tag, j),
    ensures
        spec_split_tags(tag) == seq![tag],
        spec_list_toml(spec_split_tags(tag)) == seq!['['] + spec_quoted(tag) + seq![']'],
{
    lemma_split_tags_no_sep(tag);
    assert(seq![tag].drop_first() =~~= Seq::<Seq<char>>::empty());
    assert(spec_list_toml(seq![tag]) =~= seq!['['] + spec_quoted(tag) + seq![']']);
}

/// A document that does not open with the delimiter fails with a syntax
/// error — truncation or mismatch, never a decode error — and produces no
/// output.
pub proof fn lemma_missing_opening(c: Seq<char>, alias: Option<Seq<char>>)
    requires
        c.len() < 3 || c.subrange(0, 3) != dashes(),
    ensures
        c.len() < 3 ==> spec_convert(c, alias) == Err::<Seq<char>, ErrKind>(
            ErrKind::UnexpectedEndOfInput { expected: dashes() },
        ),
        c.len() >= 3 ==> spec_convert(c, alias) == Err::<Seq<char>, ErrKind>(
            ErrKind::DelimiterMismatch { expected: dashes(), actual: c.subrange(0, 3) },
        ),
{
    reveal_strlit("---");
}

/// A document that opens with the delimiter but contains no second one
/// anywhere after it fails with a "delimiter not found" error, not a
/// generic parse error.
pub proof fn lemma_missing_closing(c: Seq<char>, alias: Option<Seq<char>>)
    requires
        c.len() >= 3,
        c.subrange(0, 3) == dashes(),
        forall|j: int| 3 <= j ==> !match_at(c, dashes(), j),
    ensures
        spec_convert(c, alias) == Err::<Seq<char>, ErrKind>(
            ErrKind::DelimiterNotFound { delimiter: dashes() },
        ),
{
    reveal_strlit("---");
    lemma_find_from_none(c, dashes(), 3);
}

/// A well-formed block without a `title` key does not decode: there is no
/// silently-defaulted empty title.
pub proof fn lemma_missing_title(block: Seq<char>)
    requires
        yaml_entries_of(block) matches Some(m) && !m.contains_key(key_title()),
    ensures
        spec_decode(block) is None,
{
}

} // verus!


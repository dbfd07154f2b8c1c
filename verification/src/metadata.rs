use vstd::prelude::*;
use vstd::string::StringExecFns;

use crate::errors::{kind_of, ErrKind, ParseError, ParseResult};
use crate::toml_out::{escape_toml_string, print_tags_as_toml, spec_escaped, spec_list_toml,
    spec_split_tags};
use crate::yaml::{value_as_str, value_entries, value_get, value_is_null, yaml_entries_of,
    yaml_error_text, yaml_parse, yaml_parse_error_of};

verus! {

/// The fields of a metadata record, as mathematical sequences.
pub ghost struct MetaView {
    pub title: Seq<char>,
    pub date: Option<Seq<char>>,
    pub tags: Option<Seq<char>>,
    pub alias: Option<Seq<char>>,
}

/// A document's metadata record: one required field (`title`) and three
/// optional ones. Fully determined by decoding the front-matter block;
/// two records have no identity beyond their fields.
#[derive(Debug)]
pub struct Metadata {
    pub title: String,
    pub date: Option<String>,
    pub tags: Option<String>,
    pub alias: Option<String>,
}

impl View for Metadata {
    type V = MetaView;

    open spec fn view(&self) -> MetaView {
        MetaView {
            title: self.title@,
            date: match self.date {
                Some(d) => Some(d@),
                None => None,
            },
            tags: match self.tags {
                Some(t) => Some(t@),
                None => None,
            },
            alias: match self.alias {
                Some(a) => Some(a@),
                None => None,
            },
        }
    }
}

/// Equality of two optional strings, by contents.
fn opt_string_eq(a: &Option<String>, b: &Option<String>) -> (r: bool)
    ensures
        r == (match (a, b) {
            (Some(x), Some(y)) => x@ == y@,
            (None, None) => true,
            _ => false,
        }),
{
    match (a, b) {
        (Some(x), Some(y)) => x.eq(y),
        (None, None) => true,
        _ => false,
    }
}

impl PartialEq for Metadata {
    fn eq(&self, other: &Metadata) -> (r: bool) {
        self.title == other.title && opt_string_eq(&self.date, &other.date) && opt_string_eq(
            &self.tags,
            &other.tags,
        ) && opt_string_eq(&self.alias, &other.alias)
    }
}

impl vstd::std_specs::cmp::PartialEqSpecImpl for Metadata {
    open spec fn obeys_eq_spec() -> bool {
        true
    }

    open spec fn eq_spec(&self, other: &Metadata) -> bool {
        self@ == other@
    }
}

/// The rendered TOML header: opening marker, the field lines in their fixed
/// order (title, date, aliases, then the taxonomy section with tags), and
/// the closing marker with no trailing newline.
pub open spec fn spec_header(m: MetaView) -> Seq<char> {
    "+++\n"@ + "title = \""@ + spec_escaped(m.title) + "\"\n"@ + (match m.date {
        Some(d) => "date = "@ + d + "\n"@,
        None => Seq::<char>::empty(),
    }) + (match m.alias {
        Some(a) => "aliases = [\""@ + a + "\"]\n"@,
        None => Seq::<char>::empty(),
    }) + (match m.tags {
        Some(t) => "[taxonomies]\ntags = "@ + spec_list_toml(spec_split_tags(t)) + "\n"@,
        None => Seq::<char>::empty(),
    }) + "+++"@
}

impl Metadata {
    /// Render this record as a TOML front-matter header. The title is
    /// escaped for the target syntax's string literals; a date is emitted
    /// as a bare token, unvalidated; tags become a quoted list under the
    /// taxonomy section.
    pub fn format_header(&self) -> (r: String)
        ensures
            r@ == spec_header(self@),
    {
        let mut buf = String::new();
        buf.append("+++\n");
        buf.append("title = \"");
        let esc = escape_toml_string(self.title.as_str());
        buf.append(esc.as_str());
        buf.append("\"\n");
        match &self.date {
            Some(date) => {
                buf.append("date = ");
                buf.append(date.as_str());
                buf.append("\n");
            },
            None => {},
        }
        match &self.alias {
            Some(alias) => {
                buf.append("aliases = [\"");
                buf.append(alias.as_str());
                buf.append("\"]\n");
            },
            None => {},
        }
        match &self.tags {
            Some(tags) => {
                buf.append("[taxonomies]\ntags = ");
                let rendered = print_tags_as_toml(tags);
                buf.append(rendered.as_str());
                buf.append("\n");
            },
            None => {},
        }
        buf.append("+++");
        proof {
            assert(buf@ =~= spec_header(self@));
        }
        buf
    }
}

pub open spec fn key_title() -> Seq<char> {
    "title"@
}

pub open spec fn key_date() -> Seq<char> {
    "date"@
}

pub open spec fn key_tags() -> Seq<char> {
    "tags"@
}

pub open spec fn key_alias() -> Seq<char> {
    "alias"@
}

/// Whether an entry's value is a string scalar, in the encoding of
/// `value_scalar_of`.
pub open spec fn spec_is_text(v: Option<Option<Seq<char>>>) -> bool {
    match v {
        Some(Some(_)) => true,
        _ => false,
    }
}

/// The decoded value of an optional field's entry: a string scalar is its
/// text; null counts as the field being absent.
pub open spec fn spec_opt_text(v: Option<Option<Seq<char>>>) -> Option<Seq<char>> {
    match v {
        Some(Some(t)) => Some(t),
        _ => None,
    }
}

/// Whether a front-matter block decodes to a record, and to which: the
/// block must be well-formed YAML, `title` must be present as a string
/// scalar, and each optional field, where present, must be a string scalar
/// or null — a null optional field decodes to an absent one.
pub open spec fn spec_decode(block: Seq<char>) -> Option<MetaView> {
    match yaml_entries_of(block) {
        None => None,
        Some(m) => {
            if m.contains_key(key_title()) && spec_is_text(m[key_title()]) && (m.contains_key(
                key_date(),
            ) ==> m[key_date()] is Some) && (m.contains_key(key_tags())
                ==> m[key_tags()] is Some) && (m.contains_key(key_alias()) ==> m[key_alias()]
                is Some) {
                Some(
                    MetaView {
                        title: m[key_title()].unwrap().unwrap(),
                        date: if m.contains_key(key_date()) {
                            spec_opt_text(m[key_date()])
                        } else {
                            None
                        },
                        tags: if m.contains_key(key_tags()) {
                            spec_opt_text(m[key_tags()])
                        } else {
                            None
                        },
                        alias: if m.contains_key(key_alias()) {
                            spec_opt_text(m[key_alias()])
                        } else {
                            None
                        },
                    },
                )
            } else {
                None
            }
        },
    }
}

/// The diagnostic a failed decode carries: the parser's own text where the
/// block is not well-formed YAML, else the first field complaint in the
/// order the fields are read.
pub open spec fn spec_decode_err_msg(block: Seq<char>) -> Seq<char> {
    match yaml_entries_of(block) {
        None => yaml_parse_error_of(block),
        Some(m) => {
            if !m.contains_key(key_title()) {
                "missing required field title"@
            } else if !spec_is_text(m[key_title()]) {
                "field title is not a string"@
            } else if m.contains_key(key_date()) && m[key_date()] is None {
                "field date is not a string"@
            } else if m.contains_key(key_tags()) && m[key_tags()] is None {
                "field tags is not a string"@
            } else {
                "field alias is not a string"@
            }
        },
    }
}

/// An optional string field of the parsed document: absent or null is
/// fine and means no value; present as anything else than a string scalar
/// is a decode failure.
fn opt_field(doc: &serde_yaml::Value, key: &str) -> (r: Result<Option<String>, ()>)
    ensures
        ({
            let m = value_entries(*doc);
            if m.contains_key(key@) {
                match m[key@] {
                    Some(Some(t)) => (r matches Ok(o) && o matches Some(s) && s@ == t),
                    Some(None) => (r matches Ok(o) && o is None),
                    None => r is Err,
                }
            } else {
                r matches Ok(o) && o is None
            }
        }),
{
    match value_get(doc, key) {
        None => Ok(None),
        Some(f) => {
            if value_is_null(f) {
                Ok(None)
            } else {
                match value_as_str(f) {
                    None => Err(()),
                    Some(t) => Ok(Some(t.to_owned())),
                }
            }
        },
    }
}

/// Decode a front-matter block into a metadata record through the YAML
/// parser. Exactly the blocks `spec_decode` accepts decode; every failure
/// is a decode error, never a scanner error, and carries the underlying
/// diagnostic where the parser itself refused the text.
pub fn decode_metadata(block: &str) -> (r: ParseResult<Metadata>)
    ensures
        r is Ok <==> spec_decode(block@) is Some,
        r matches Ok(m) ==> Some(m@) == spec_decode(block@),
        r matches Err(e) ==> kind_of(e) == (ErrKind::MetadataDecodeError {
            message: spec_decode_err_msg(block@),
        }),
{
    let doc = match yaml_parse(block) {
        Ok(v) => v,
        Err(e) => {
            let msg = yaml_error_text(&e);
            return Err(ParseError::MetadataDecodeError { message: msg });
        },
    };
    let title: String = match value_get(&doc, "title") {
        None => {
            return Err(
                ParseError::MetadataDecodeError {
                    message: "missing required field title".to_owned(),
                },
            );
        },
        Some(f) => match value_as_str(f) {
            None => {
                return Err(
                    ParseError::MetadataDecodeError {
                        message: "field title is not a string".to_owned(),
                    },
                );
            },
            Some(t) => t.to_owned(),
        },
    };
    let date = match opt_field(&doc, "date") {
        Ok(o) => o,
        Err(_) => {
            return Err(
                ParseError::MetadataDecodeError { message: "field date is not a string".to_owned() },
            );
        },
    };
    let tags = match opt_field(&doc, "tags") {
        Ok(o) => o,
        Err(_) => {
            return Err(
                ParseError::MetadataDecodeError { message: "field tags is not a string".to_owned() },
            );
        },
    };
    let alias = match opt_field(&doc, "alias") {
        Ok(o) => o,
        Err(_) => {
            return Err(
                ParseError::MetadataDecodeError {
                    message: "field alias is not a string".to_owned(),
                },
            );
        },
    };
    Ok(Metadata { title, date, tags, alias })
}

} // verus!

use vstd::prelude::*;

verus! {

#[verifier::external_type_specification]
#[verifier::external_body]
pub struct ExYamlValue(serde_yaml::Value);

#[verifier::external_type_specification]
#[verifier::external_body]
pub struct ExYamlError(serde_yaml::Error);

/// What parsing a text as one YAML document yields, as a function of the
/// text alone: `None` when the text is not well-formed YAML; otherwise a
/// map holding, for each top-level string key, the entry's value in the
/// encoding of `value_scalar_of`. Keys the map does not contain are absent
/// from the document.
pub uninterp spec fn yaml_entries_of(block: Seq<char>) -> Option<
    Map<Seq<char>, Option<Option<Seq<char>>>>,
>;

/// The diagnostic text of the error that parsing the text yields, as a
/// function of the text alone; meaningful only where `yaml_entries_of`
/// is `None`.
pub uninterp spec fn yaml_parse_error_of(block: Seq<char>) -> Seq<char>;

/// The top-level entries a parsed `serde_yaml::Value` holds, in the same
/// encoding as `yaml_entries_of`: what `Value::get` with a string index
/// finds, composed with `value_scalar_of` on the found value.
pub uninterp spec fn value_entries(v: serde_yaml::Value) -> Map<
    Seq<char>,
    Option<Option<Seq<char>>>,
>;

/// The scalar a `serde_yaml::Value` is, once stripped of tags:
/// `Some(Some(text))` for a string scalar, `Some(None)` for null, and
/// `None` for every other kind of value.
pub uninterp spec fn value_scalar_of(v: serde_yaml::Value) -> Option<Option<Seq<char>>>;

/// The diagnostic text a `serde_yaml::Error` renders to, a function of the
/// error value alone.
pub uninterp spec fn yaml_error_text_of(e: serde_yaml::Error) -> Seq<char>;

/// Relies on serde_yaml::from_str::<Value>: parsing is a pure function of
/// the input text; it fails exactly on text that is not well-formed YAML,
/// and the error it then reports depends on the text alone.
#[verifier::external_body]
pub(crate) fn yaml_parse(s: &str) -> (r: Result<serde_yaml::Value, serde_yaml::Error>)
    ensures
        r is Ok <==> yaml_entries_of(s@) is Some,
        r matches Ok(v) ==> value_entries(v) == yaml_entries_of(s@).unwrap(),
        r matches Err(e) ==> yaml_error_text_of(e) == yaml_parse_error_of(s@),
{
    serde_yaml::from_str::<serde_yaml::Value>(s)
}

/// Relies on serde_yaml::Value::get with a string index: on a mapping
/// (untagged first, if tagged) it looks the key up; on every other value
/// it returns None.
#[verifier::external_body]
pub(crate) fn value_get<'v>(v: &'v serde_yaml::Value, key: &str) -> (r: Option<
    &'v serde_yaml::Value,
>)
    ensures
        r is Some <==> value_entries(*v).contains_key(key@),
        r matches Some(f) ==> value_entries(*v)[key@] == value_scalar_of(*f),
{
    v.get(key)
}

/// Relies on serde_yaml::Value::as_str: the text of a string scalar
/// (untagged first, if tagged), None for every other kind of value.
#[verifier::external_body]
pub(crate) fn value_as_str<'v>(v: &'v serde_yaml::Value) -> (r: Option<&'v str>)
    ensures
        r matches Some(t) ==> value_scalar_of(*v) == Some(Some(t@)),
        r is None ==> !(value_scalar_of(*v) matches Some(Some(_))),
{
    v.as_str()
}

/// Relies on serde_yaml::Value::is_null: whether the value, untagged first
/// if tagged, is the null scalar.
#[verifier::external_body]
pub(crate) fn value_is_null(v: &serde_yaml::Value) -> (r: bool)
    ensures
        r == (value_scalar_of(*v) == Some(None::<Seq<char>>)),
{
    v.is_null()
}

/// Relies on serde_yaml::Error's Display impl: the diagnostic text that a
/// decode failure carries along is a function of the error value alone.
#[verifier::external_body]
pub(crate) fn yaml_error_text(e: &serde_yaml::Error) -> (r: String)
    ensures
        r@ == yaml_error_text_of(*e),
{
    format!("{}", e)
}

} // verus!

//! The YAML calls the requirement parser relies on.
//!
//! Requirement documents are YAML; parsing them is the work of the
//! `serde_yaml` crate, and its outcome depends on the document text alone.
//! Two names stand for that outcome: whether the text parses at all, and
//! the string a top-level key holds. The wrappers below tie what the crate
//! returns to those names; everything else this library concludes about a
//! document is drawn from the plain strings they hand back, by verified
//! code.

use vstd::prelude::*;

verus! {

#[verifier::external_type_specification]
#[verifier::external_body]
pub struct ExYamlValue(serde_yaml::Value);

#[verifier::external_type_specification]
#[verifier::external_body]
pub struct ExYamlError(serde_yaml::Error);

/// Whether serde_yaml parses this text as a YAML document.
pub uninterp spec fn yaml_parses(text: Seq<char>) -> bool;

/// The string the document's top-level mapping holds under `key`: `None`
/// when the text does not parse, is no mapping, lacks the key, or holds no
/// string there.
pub uninterp spec fn yaml_string_field(text: Seq<char>, key: Seq<char>) -> Option<Seq<char>>;

/// Relies on serde_yaml::from_str::<Value>: parses one YAML document into
/// its value tree, or reports why it is malformed. The outcome depends on
/// the text alone.
#[verifier::external_body]
pub(crate) fn yaml_from_str(text: &str) -> (r: Result<serde_yaml::Value, serde_yaml::Error>)
    ensures
        r is Ok <==> yaml_parses(text@),
{
    serde_yaml::from_str(text)
}

/// Relies on serde_yaml::from_str, Value::get and Value::as_str: the string
/// the document's top-level mapping holds under `key`. The outcome depends
/// on the text and the key alone.
#[verifier::external_body]
pub(crate) fn yaml_field(text: &str, key: &str) -> (r: Option<String>)
    ensures
        (match yaml_string_field(text@, key@) {
            Some(v) => r matches Some(s) && s@ == v,
            None => r is None,
        }),
{
    match serde_yaml::from_str::<serde_yaml::Value>(text) {
        Ok(doc) => match doc.get(key) {
            Some(f) => match f.as_str() {
                Some(s) => Some(s.to_owned()),
                None => None,
            },
            None => None,
        },
        Err(_) => None,
    }
}

/// Relies on the Display impl of serde_yaml::Error for the warning text a
/// malformed document is reported with.
#[verifier::external_body]
pub(crate) fn yaml_error_message(e: &serde_yaml::Error) -> String {
    format!("{}", e)
}

} // verus!

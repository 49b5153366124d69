//! Build provenance: what the `.build-meta.json` of a server build says.
use crate::text::prefixed;
use vstd::prelude::*;
use vstd::string::*;
use vstd::utf8::*;

verus! {

/// The outside type `serde_json::Value`: a parsed JSON document.
#[verifier::external_type_specification]
#[verifier::external_body]
pub struct ExJsonValue(serde_json::Value);

/// The outside type `serde_json::Error`: why a text is no JSON document.
#[verifier::external_type_specification]
#[verifier::external_body]
pub struct ExJsonError(serde_json::Error);

/// What a JSON value holds, as far as this library looks into it.
pub enum JsonNode {
    /// A string.
    Text(Seq<char>),
    /// An object, with its members by name.
    Object(Map<Seq<char>, JsonNode>),
    /// Anything else: an array, a number, a boolean, or null.
    Other,
}

/// What the JSON value `value` holds.
pub uninterp spec fn json_node(value: serde_json::Value) -> JsonNode;

/// The JSON document that `serde_json::from_str` reads from a text; nothing
/// when it reads none.
pub uninterp spec fn json_document(text: Seq<char>) -> Option<JsonNode>;

/// The text of the utf-8 error that `String::from_utf8` reports of some bytes.
pub uninterp spec fn utf8_error_text(bytes: Seq<u8>) -> Seq<char>;

/// `serde_json::from_str`, reading a `serde_json::Value`: it reads the whole
/// text or fails, and what it reads depends on the text alone.
#[verifier::external_body]
fn parse_json(text: &str) -> (r: Result<serde_json::Value, serde_json::Error>)
    ensures
        match r {
            Ok(value) => json_document(text@) == Some(json_node(value)),
            Err(_) => json_document(text@) is None,
        },
{
    serde_json::from_str::<serde_json::Value>(text)
}

/// `serde_json::Value::get` with a string: the member of that name, if the
/// value is an object and has one.
#[verifier::external_body]
fn json_member<'a>(value: &'a serde_json::Value, name: &str) -> (r: Option<&'a serde_json::Value>)
    ensures
        match json_node(*value) {
            JsonNode::Object(members) => match r {
                Some(member) => members.contains_key(name@) && json_node(*member) == members[name@],
                None => !members.contains_key(name@),
            },
            _ => r is None,
        },
{
    value.get(name)
}

/// `serde_json::Value::as_str`: the text of a string value, and nothing for
/// any other value.
pub assume_specification[ serde_json::Value::as_str ](value: &serde_json::Value) -> (r: Option<
    &str,
>)
    ensures
        match json_node(*value) {
            JsonNode::Text(text) => r is Some && r->0@ == text,
            _ => r is None,
        },
;

/// `String::from_utf8` of the standard library, with its error taken as text:
/// bytes that are UTF-8 become the text they encode, others are refused.
#[verifier::external_body]
fn utf8_text(bytes: Vec<u8>) -> (r: Result<String, String>)
    ensures
        match r {
            Ok(text) => valid_utf8(bytes@) && text@ == decode_utf8(bytes@),
            Err(e) => !valid_utf8(bytes@) && e@ == utf8_error_text(bytes@),
        },
{
    match String::from_utf8(bytes) {
        Ok(text) => Ok(text),
        Err(e) => Err(e.to_string()),
    }
}

/// The text of the field `name` of a JSON document; nothing when there is no
/// document, no such field, or no string in it.
pub open spec fn text_field(document: Option<JsonNode>, name: Seq<char>) -> Option<Seq<char>> {
    match document {
        Some(JsonNode::Object(members)) => if members.contains_key(name) {
            match members[name] {
                JsonNode::Text(text) => Some(text),
                _ => None,
            }
        } else {
            None
        },
        _ => None,
    }
}

/// A version as the splash shows it: an empty one does not count.
pub open spec fn shown_version(field: Option<Seq<char>>) -> Option<Seq<char>> {
    if field is Some && field->0.len() > 0 {
        field
    } else {
        None
    }
}

/// The version that the splash shows for the text of a version field. `None`
/// hides the version line.
pub fn version_from_field(field: Option<&str>) -> (r: Option<String>)
    ensures
        match r {
            Some(version) => field is Some && shown_version(Some(field->0@)) == Some(version@),
            None => field is None || shown_version(Some(field->0@)) is None,
        },
{
    match field {
        Some(text) => if text.is_empty() {
            None
        } else {
            Some(text.to_string())
        },
        None => None,
    }
}

/// Extract the OpenMAIC server version from `.build-meta.json` content.
/// `None` hides the splash version line (old bundles, dev without a staged
/// marker).
pub fn server_version_from_meta(meta: &str) -> (r: Option<String>)
    ensures
        shown_version(text_field(json_document(meta@), "openmaicVersion"@)) == (match r {
            Some(version) => Some(version@),
            None => None,
        }),
{
    match parse_json(meta) {
        Ok(document) => match json_member(&document, "openmaicVersion") {
            Some(field) => version_from_field(field.as_str()),
            None => None,
        },
        Err(_) => None,
    }
}

/// How a run of `tar` ended: whether it succeeded, its exit status in words,
/// and what it wrote.
#[derive(Debug, PartialEq, Eq)]
pub struct TarRun {
    pub success: bool,
    pub status: String,
    pub stdout: Vec<u8>,
    pub stderr: Vec<u8>,
}

/// The build meta in a server tarball, from the run of `tar` that wrote its
/// entry to standard output, or the reason why `tar` did not run.
pub fn read_bundled_meta(run: Result<TarRun, String>) -> (r: Result<String, String>)
    ensures
        match run {
            Err(e) => r is Err && r->Err_0@ == "failed to inspect server.tar.gz: "@ + e@,
            Ok(run) => if !run.success {
                r is Err && r->Err_0@ == "server.tar.gz has no build meta"@
            } else if valid_utf8(run.stdout@) {
                r is Ok && r->Ok_0@ == decode_utf8(run.stdout@)
            } else {
                r is Err && r->Err_0@ == "bad build meta encoding: "@ + utf8_error_text(run.stdout@)
            },
        },
{
    match run {
        Err(e) => Err(prefixed("failed to inspect server.tar.gz: ", e.as_str())),
        Ok(run) => {
            if !run.success {
                return Err("server.tar.gz has no build meta".to_string());
            }
            match utf8_text(run.stdout) {
                Ok(text) => Ok(text),
                Err(e) => Err(prefixed("bad build meta encoding: ", e.as_str())),
            }
        },
    }
}

/// A field is read from an object that has it as a string, and from nothing
/// else.
pub proof fn lemma_field_is_a_string_of_an_object(
    members: Map<Seq<char>, JsonNode>,
    name: Seq<char>,
    text: Seq<char>,
)
    ensures
        text_field(None, name) is None,
        text_field(Some(JsonNode::Other), name) is None,
        text_field(Some(JsonNode::Text(text)), name) is None,
        !members.contains_key(name) ==> text_field(Some(JsonNode::Object(members)), name) is None,
        members.contains_key(name) && members[name] == JsonNode::Text(text) ==> text_field(
            Some(JsonNode::Object(members)),
            name,
        ) == Some(text),
        members.contains_key(name) && !(members[name] is Text) ==> text_field(
            Some(JsonNode::Object(members)),
            name,
        ) is None,
{
}

/// A version is shown as it is unless it is empty.
pub proof fn lemma_version_is_shown_as_it_is(version: Seq<char>)
    ensures
        shown_version(None) is None,
        version.len() == 0 ==> shown_version(Some(version)) is None,
        version.len() > 0 ==> shown_version(Some(version)) == Some(version),
{
}

} // verus!

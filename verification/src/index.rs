//! Decoding the release index: a JSON array of objects with a `version`
//! string (leading `v`), a `files` list of platform tokens, and an `lts`
//! marker that is either a code-name string or `false`.
//!
//! The JSON tree itself is read through `serde_json`, whose values are
//! opaque here; everything built from the extracted plain values — above
//! all the version strings — is verified exactly.

use vstd::prelude::*;

use crate::engine::EngineError;
use crate::lts::Lts;
use crate::release::Release;
use crate::version::{parse_version, strip_v, valid_version_chars, version_chars, wf_version};

verus! {

#[verifier::external_type_specification]
#[verifier::external_body]
pub struct ExJsonValue(serde_json::Value);

/// Relies on `serde_json::from_str` to parse one JSON document; the
/// resulting tree is opaque here, so nothing further is stated.
#[verifier::external_body]
fn json_parse(s: &str) -> (r: Option<serde_json::Value>) {
    serde_json::from_str(s).ok()
}

/// Relies on `serde_json::Value::as_array`: the element list of a JSON
/// array value.
#[verifier::external_body]
fn value_as_array(v: &serde_json::Value) -> (r: Option<&Vec<serde_json::Value>>) {
    v.as_array()
}

/// Relies on `serde_json::Value::get`: object member lookup by key.
#[verifier::external_body]
fn value_get<'a>(v: &'a serde_json::Value, key: &str) -> (r: Option<&'a serde_json::Value>) {
    v.get(key)
}

/// Relies on `serde_json::Value::as_str`: the text of a JSON string
/// value.
#[verifier::external_body]
fn value_as_string(v: &serde_json::Value) -> (r: Option<String>) {
    v.as_str().map(str::to_owned)
}

/// Relies on `serde_json::Value::as_bool`: the value of a JSON boolean.
#[verifier::external_body]
fn value_as_bool(v: &serde_json::Value) -> (r: Option<bool>) {
    v.as_bool()
}

/// Builds a release from its already-extracted index fields. Succeeds
/// exactly when the version string (after its leading `v`) is a valid
/// version, and then pins every field of the result.
pub fn release_from_fields(version_str: &str, files: Vec<String>, lts: Lts) -> (r: Result<
    Release,
    EngineError,
>)
    ensures
        (r is Ok) == valid_version_chars(strip_v(version_str@)),
        r matches Ok(rel) ==> version_chars(rel.version) == strip_v(version_str@) && rel.files
            == files && rel.lts == lts && wf_version(rel.version),
        r matches Err(e) ==> e == EngineError::Decode,
{
    match parse_version(version_str) {
        Some(version) => Ok(Release { version, files, lts }),
        None => Err(EngineError::Decode),
    }
}

/// Reads one release object of the index. The JSON value is opaque, so
/// this states what holds of every outcome: the only failure is a decode
/// error; the exact field contract lives in [`release_from_fields`],
/// which this hands the extracted plain values to.
pub fn release_from_value(v: &serde_json::Value) -> (r: Result<Release, EngineError>)
    ensures
        r matches Err(e) ==> e == EngineError::Decode,
        r matches Ok(rel) ==> wf_version(rel.version),
{
    let version_str = match value_get(v, "version") {
        Some(field) => match value_as_string(field) {
            Some(s) => s,
            None => {
                return Err(EngineError::Decode);
            },
        },
        None => {
            return Err(EngineError::Decode);
        },
    };
    let mut files: Vec<String> = Vec::new();
    match value_get(v, "files") {
        Some(field) => match value_as_array(field) {
            Some(items) => {
                let mut i: usize = 0;
                while i < items.len()
                    decreases items@.len() - i,
                {
                    match value_as_string(&items[i]) {
                        Some(s) => files.push(s),
                        None => {
                            return Err(EngineError::Decode);
                        },
                    }
                    i += 1;
                }
            },
            None => {
                return Err(EngineError::Decode);
            },
        },
        None => {
            return Err(EngineError::Decode);
        },
    }
    let lts = match value_get(v, "lts") {
        Some(field) => match value_as_bool(field) {
            Some(_) => Lts::False,
            None => match value_as_string(field) {
                Some(name) => Lts::CodeName(name),
                None => {
                    return Err(EngineError::Decode);
                },
            },
        },
        None => {
            return Err(EngineError::Decode);
        },
    };
    release_from_fields(version_str.as_str(), files, lts)
}

/// Decodes the whole release index document: a JSON array of release
/// objects, in server order. Any malformed element fails the whole
/// document with a decode error, as deserializing the index as one value
/// would.
pub fn parse_release_index(text: &str) -> (r: Result<Vec<Release>, EngineError>)
    ensures
        r matches Err(e) ==> e == EngineError::Decode,
        r matches Ok(releases) ==> forall|i: int|
            0 <= i < releases@.len() ==> wf_version(#[trigger] releases@[i].version),
{
    let doc = match json_parse(text) {
        Some(v) => v,
        None => {
            return Err(EngineError::Decode);
        },
    };
    let items = match value_as_array(&doc) {
        Some(a) => a,
        None => {
            return Err(EngineError::Decode);
        },
    };
    let mut out: Vec<Release> = Vec::new();
    let mut i: usize = 0;
    while i < items.len()
        invariant
            forall|j: int| 0 <= j < out@.len() ==> wf_version(#[trigger] out@[j].version),
        decreases items@.len() - i,
    {
        match release_from_value(&items[i]) {
            Ok(release) => out.push(release),
            Err(e) => {
                return Err(e);
            },
        }
        i += 1;
    }
    Ok(out)
}

} // verus!

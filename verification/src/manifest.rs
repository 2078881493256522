//! Parsing a rendered multi-document manifest into generic, kind-agnostic
//! documents, with a small typed envelope extracted from each.
use serde::Deserialize;
use vstd::prelude::*;

verus! {

#[verifier::external_type_specification]
#[verifier::external_body]
pub struct ExYamlValue(serde_yaml::Value);

/// The documents a multi-document text parses into, in order, or nothing
/// when some document is malformed.
pub uninterp spec fn yaml_documents(text: Seq<char>) -> Option<Seq<serde_yaml::Value>>;

/// The type-and-identity fields a parsed document declares, in order:
/// `apiVersion`, `kind`, `metadata.namespace`, `metadata.name`. Each is
/// absent when the document lacks it or holds it as something other than
/// a string.
pub uninterp spec fn envelope_fields(v: serde_yaml::Value) -> (
    Option<Seq<char>>,
    Option<Seq<char>>,
    Option<Seq<char>>,
    Option<Seq<char>>,
);

/// Relies on serde_yaml's multi-document `Deserializer` and on
/// `Value::deserialize`: the text splits on document boundaries into one
/// generic value per document; any malformed document fails the whole
/// parse. The outcome depends on the text alone.
#[verifier::external_body]
fn split_yaml_documents(text: &str) -> (r: Option<Vec<serde_yaml::Value>>)
    ensures
        match r {
            Some(docs) => yaml_documents(text@) == Some(docs@),
            None => yaml_documents(text@) is None,
        },
{
    let mut docs: Vec<serde_yaml::Value> = Vec::new();
    for de in serde_yaml::Deserializer::from_str(text) {
        match serde_yaml::Value::deserialize(de) {
            Ok(v) => docs.push(v),
            Err(_) => {
                return None;
            },
        }
    }
    Some(docs)
}

/// The typed envelope of one parsed document: what the engine reads of it.
/// Every other field rides along opaquely in the document's value.
pub struct DocEnvelope {
    pub api_version: Option<String>,
    pub kind: Option<String>,
    pub namespace: Option<String>,
    pub name: Option<String>,
}

/// Relies on serde_yaml's `Value::get` and `Value::as_str`: each envelope
/// field is the document's string value at that key (under `metadata` for
/// namespace and name), absent when missing or not a string. The outcome
/// depends on the value alone.
#[verifier::external_body]
fn read_envelope(v: &serde_yaml::Value) -> (r: DocEnvelope)
    ensures
        r.api_version.deep_view() == envelope_fields(*v).0,
        r.kind.deep_view() == envelope_fields(*v).1,
        r.namespace.deep_view() == envelope_fields(*v).2,
        r.name.deep_view() == envelope_fields(*v).3,
{
    let meta = v.get("metadata");
    DocEnvelope {
        api_version: v.get("apiVersion").and_then(|x| x.as_str()).map(|s| s.to_owned()),
        kind: v.get("kind").and_then(|x| x.as_str()).map(|s| s.to_owned()),
        namespace: meta.and_then(|m| m.get("namespace")).and_then(|x| x.as_str()).map(
            |s| s.to_owned(),
        ),
        name: meta.and_then(|m| m.get("name")).and_then(|x| x.as_str()).map(|s| s.to_owned()),
    }
}

/// One document of a rendered manifest: its envelope as plain values, and
/// the full generic value carried through to the apply call.
pub struct RenderedDocument {
    pub envelope: DocEnvelope,
    pub body: serde_yaml::Value,
}

/// Whether a document together with its envelope is what the given parsed
/// value holds.
pub open spec fn is_document_of(doc: RenderedDocument, v: serde_yaml::Value) -> bool {
    &&& doc.body == v
    &&& doc.envelope.api_version.deep_view() == envelope_fields(v).0
    &&& doc.envelope.kind.deep_view() == envelope_fields(v).1
    &&& doc.envelope.namespace.deep_view() == envelope_fields(v).2
    &&& doc.envelope.name.deep_view() == envelope_fields(v).3
}

/// Parse a rendered text into its documents, in template order.
pub fn parse_manifest(text: &str) -> (r: Option<Vec<RenderedDocument>>)
    ensures
        match r {
            Some(docs) => yaml_documents(text@) matches Some(vals) && docs@.len() == vals.len()
                && (forall|i: int|
                0 <= i < docs@.len() ==> is_document_of(#[trigger] docs@[i], vals[i])),
            None => yaml_documents(text@) is None,
        },
{
    let mut vals = match split_yaml_documents(text) {
        None => {
            return None;
        },
        Some(vals) => vals,
    };
    let ghost all = vals@;
    let mut docs: Vec<RenderedDocument> = Vec::new();
    while vals.len() > 0
        invariant
            yaml_documents(text@) == Some(all),
            docs@.len() + vals@.len() == all.len(),
            vals@ =~= all.subrange(docs@.len() as int, all.len() as int),
            forall|i: int| 0 <= i < docs@.len() ==> is_document_of(#[trigger] docs@[i], all[i]),
        decreases vals@.len(),
    {
        let v = vals.remove(0);
        let envelope = read_envelope(&v);
        docs.push(RenderedDocument { envelope, body: v });
        proof {
            assert(vals@ =~= all.subrange(docs@.len() as int, all.len() as int));
        }
    }
    Some(docs)
}

} // verus!

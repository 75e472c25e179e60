//! The proof artifact of the toolchain and how it is read.

use crate::json::{
    json_of, json_parse, jsons_of, member, parse_value, value_items, value_member, value_text, Json,
};
use crate::text::{rows, texts};
use vstd::prelude::*;

verus! {

/// The group elements of a proof, as the toolchain encodes them. The strings
/// are carried through as they are.
#[derive(Debug, Clone, PartialEq, Eq)]
pub struct Proof {
    pub a: Vec<String>,
    pub b: Vec<Vec<String>>,
    pub c: Vec<String>,
}

/// What a [`Proof`] holds.
pub struct ProofView {
    pub a: Seq<Seq<char>>,
    pub b: Seq<Seq<Seq<char>>>,
    pub c: Seq<Seq<char>>,
}

impl View for Proof {
    type V = ProofView;

    open spec fn view(&self) -> ProofView {
        ProofView { a: texts(self.a@), b: rows(self.b@), c: texts(self.c@) }
    }
}

/// The artifact that the toolchain writes for one proof.
#[derive(Debug, Clone, PartialEq, Eq)]
pub struct ProofFile {
    pub scheme: String,
    pub curve: String,
    pub proof: Proof,
    pub inputs: Vec<String>,
}

/// What a [`ProofFile`] holds.
pub struct ProofFileView {
    pub scheme: Seq<char>,
    pub curve: Seq<char>,
    pub proof: ProofView,
    pub inputs: Seq<Seq<char>>,
}

impl View for ProofFile {
    type V = ProofFileView;

    open spec fn view(&self) -> ProofFileView {
        ProofFileView {
            scheme: self.scheme@,
            curve: self.curve@,
            proof: self.proof@,
            inputs: texts(self.inputs@),
        }
    }
}

/// Why no proof was had from an artifact.
#[derive(Debug, Clone, Copy, PartialEq, Eq, Structural)]
pub enum ProofParseFailure {
    /// The artifact is missing or could not be read.
    Unreadable,
    /// The artifact is no JSON document.
    Malformed,
    /// The document lacks a required field, or holds one of another type.
    Shape,
}

impl ProofParseFailure {
    /// What is said of the failure.
    pub open spec fn text(self) -> Seq<char> {
        match self {
            ProofParseFailure::Unreadable => "the artifact could not be read"@,
            ProofParseFailure::Malformed => "the artifact is no JSON document"@,
            ProofParseFailure::Shape => "the artifact lacks a field or holds one of another type"@,
        }
    }

    /// What is said of the failure.
    pub fn message(&self) -> (r: String)
        ensures
            r@ == self.text(),
    {
        match self {
            ProofParseFailure::Unreadable => "the artifact could not be read".to_owned(),
            ProofParseFailure::Malformed => "the artifact is no JSON document".to_owned(),
            ProofParseFailure::Shape => {
                "the artifact lacks a field or holds one of another type".to_owned()
            },
        }
    }
}

/// The text of a string document.
pub open spec fn text_of(document: Json) -> Option<Seq<char>> {
    match document {
        Json::Text(text) => Some(text),
        _ => None,
    }
}

/// The texts of an array of strings.
pub open spec fn text_list_of(document: Json) -> Option<Seq<Seq<char>>> {
    match document {
        Json::Array(items) => if forall|i: int|
            0 <= i < items.len() ==> (#[trigger] items[i]) is Text {
            Some(items.map_values(|item: Json| item->Text_0))
        } else {
            None
        },
        _ => None,
    }
}

/// The texts of an array of arrays of strings.
pub open spec fn text_rows_of(document: Json) -> Option<Seq<Seq<Seq<char>>>> {
    match document {
        Json::Array(items) => if forall|i: int|
            0 <= i < items.len() ==> text_list_of(#[trigger] items[i]) is Some {
            Some(items.map_values(|item: Json| text_list_of(item)->Some_0))
        } else {
            None
        },
        _ => None,
    }
}

/// The proof that a document holds: an object with the members `a` and `c`,
/// arrays of strings, and `b`, an array of arrays of strings. Other members
/// are passed over.
pub open spec fn proof_of(document: Json) -> Option<ProofView> {
    match (member(document, "a"@), member(document, "b"@), member(document, "c"@)) {
        (Some(a), Some(b), Some(c)) => match (text_list_of(a), text_rows_of(b), text_list_of(c)) {
            (Some(a), Some(b), Some(c)) => Some(ProofView { a, b, c }),
            _ => None,
        },
        _ => None,
    }
}

/// The artifact that a document holds: an object with the members `scheme`
/// and `curve`, strings, `proof`, a proof, and `inputs`, an array of strings.
/// Other members are passed over.
pub open spec fn proof_file_of(document: Json) -> Option<ProofFileView> {
    match (
        member(document, "scheme"@),
        member(document, "curve"@),
        member(document, "proof"@),
        member(document, "inputs"@),
    ) {
        (Some(scheme), Some(curve), Some(proof), Some(inputs)) => match (
            text_of(scheme),
            text_of(curve),
            proof_of(proof),
            text_list_of(inputs),
        ) {
            (Some(scheme), Some(curve), Some(proof), Some(inputs)) => Some(
                ProofFileView { scheme, curve, proof, inputs },
            ),
            _ => None,
        },
        _ => None,
    }
}

/// What reading an artifact's text gives: the artifact, or the failure.
pub open spec fn parsed_proof_file(text: Seq<char>) -> Result<ProofFileView, ProofParseFailure> {
    match json_parse(text) {
        None => Err(ProofParseFailure::Malformed),
        Some(document) => match proof_file_of(document) {
            None => Err(ProofParseFailure::Shape),
            Some(file) => Ok(file),
        },
    }
}

/// Whether a document lacks a field that an artifact must have: `proof` or
/// `inputs`, or, in its proof, `a`, `b` or `c`.
pub open spec fn lacks_required_field(document: Json) -> bool {
    ||| member(document, "proof"@) is None
    ||| member(document, "inputs"@) is None
    ||| member(document, "proof"@) matches Some(proof) && (member(proof, "a"@) is None || member(
        proof,
        "b"@,
    ) is None || member(proof, "c"@) is None)
}

/// A document that lacks a required field holds no artifact, and reading a
/// text that writes such a document fails with `Shape`.
pub proof fn lemma_missing_field_fails(document: Json)
    requires
        lacks_required_field(document),
    ensures
        proof_file_of(document) is None,
        forall|text: Seq<char>|
            json_parse(text) == Some(document) ==> #[trigger] parsed_proof_file(text) == Err::<
                ProofFileView,
                ProofParseFailure,
            >(ProofParseFailure::Shape),
{
}

/// Reads an array of strings.
pub fn read_text_list(value: &serde_json::Value) -> (r: Option<Vec<String>>)
    ensures
        match r {
            Some(list) => text_list_of(json_of(*value)) == Some(texts(list@)),
            None => text_list_of(json_of(*value)) is None,
        },
{
    match value_items(value) {
        None => None,
        Some(items) => {
            let ghost models = jsons_of(items@);
            let mut out: Vec<String> = Vec::new();
            let mut i: usize = 0;
            while i < items.len()
                invariant
                    i <= items.len(),
                    models == jsons_of(items@),
                    json_of(*value) == Json::Array(models),
                    out@.len() == i,
                    forall|j: int| 0 <= j < i ==> (#[trigger] models[j]) == Json::Text(out@[j]@),
                decreases items.len() - i,
            {
                match value_text(&items[i]) {
                    None => {
                        assert(!(models[i as int] is Text));
                        return None;
                    },
                    Some(text) => {
                        out.push(text.to_owned());
                    },
                }
                i = i + 1;
            }
            assert(texts(out@) =~= models.map_values(|item: Json| item->Text_0));
            Some(out)
        },
    }
}

/// Reads an array of arrays of strings.
pub fn read_text_rows(value: &serde_json::Value) -> (r: Option<Vec<Vec<String>>>)
    ensures
        match r {
            Some(list) => text_rows_of(json_of(*value)) == Some(rows(list@)),
            None => text_rows_of(json_of(*value)) is None,
        },
{
    match value_items(value) {
        None => None,
        Some(items) => {
            let ghost models = jsons_of(items@);
            let mut out: Vec<Vec<String>> = Vec::new();
            let mut i: usize = 0;
            while i < items.len()
                invariant
                    i <= items.len(),
                    models == jsons_of(items@),
                    json_of(*value) == Json::Array(models),
                    out@.len() == i,
                    forall|j: int|
                        0 <= j < i ==> text_list_of(#[trigger] models[j]) == Some(texts(out@[j]@)),
                decreases items.len() - i,
            {
                match read_text_list(&items[i]) {
                    None => {
                        assert(text_list_of(models[i as int]) is None);
                        return None;
                    },
                    Some(row) => {
                        out.push(row);
                    },
                }
                i = i + 1;
            }
            assert(rows(out@) =~= models.map_values(|item: Json| text_list_of(item)->Some_0));
            Some(out)
        },
    }
}

/// Reads a string.
pub fn read_text(value: &serde_json::Value) -> (r: Option<String>)
    ensures
        match r {
            Some(text) => text_of(json_of(*value)) == Some(text@),
            None => text_of(json_of(*value)) is None,
        },
{
    match value_text(value) {
        None => None,
        Some(text) => Some(text.to_owned()),
    }
}

/// Reads a proof from the document that holds it.
pub fn proof_from_value(value: &serde_json::Value) -> (r: Option<Proof>)
    ensures
        match r {
            Some(proof) => proof_of(json_of(*value)) == Some(proof@),
            None => proof_of(json_of(*value)) is None,
        },
{
    let a = match value_member(value, "a") {
        None => { return None; },
        Some(member) => match read_text_list(member) {
            None => { return None; },
            Some(list) => list,
        },
    };
    let b = match value_member(value, "b") {
        None => { return None; },
        Some(member) => match read_text_rows(member) {
            None => { return None; },
            Some(list) => list,
        },
    };
    let c = match value_member(value, "c") {
        None => { return None; },
        Some(member) => match read_text_list(member) {
            None => { return None; },
            Some(list) => list,
        },
    };
    Some(Proof { a, b, c })
}

/// Reads an artifact from its document.
pub fn proof_file_from_value(value: &serde_json::Value) -> (r: Option<ProofFile>)
    ensures
        match r {
            Some(file) => proof_file_of(json_of(*value)) == Some(file@),
            None => proof_file_of(json_of(*value)) is None,
        },
{
    let scheme = match value_member(value, "scheme") {
        None => { return None; },
        Some(member) => match read_text(member) {
            None => { return None; },
            Some(text) => text,
        },
    };
    let curve = match value_member(value, "curve") {
        None => { return None; },
        Some(member) => match read_text(member) {
            None => { return None; },
            Some(text) => text,
        },
    };
    let proof = match value_member(value, "proof") {
        None => { return None; },
        Some(member) => match proof_from_value(member) {
            None => { return None; },
            Some(proof) => proof,
        },
    };
    let inputs = match value_member(value, "inputs") {
        None => { return None; },
        Some(member) => match read_text_list(member) {
            None => { return None; },
            Some(list) => list,
        },
    };
    Some(ProofFile { scheme, curve, proof, inputs })
}

/// Reads an artifact from its text. It fails with `Malformed` where the text
/// is no JSON document and with `Shape` where the document is no artifact.
pub fn parse_proof_file(text: &str) -> (r: Result<ProofFile, ProofParseFailure>)
    ensures
        match r {
            Ok(file) => parsed_proof_file(text@) == Ok::<ProofFileView, ProofParseFailure>(file@),
            Err(failure) => parsed_proof_file(text@) == Err::<ProofFileView, ProofParseFailure>(
                failure,
            ),
        },
{
    match parse_value(text) {
        Err(_) => Err(ProofParseFailure::Malformed),
        Ok(value) => match proof_file_from_value(&value) {
            None => Err(ProofParseFailure::Shape),
            Some(file) => Ok(file),
        },
    }
}

/// Takes from an artifact what the pipeline keeps: the proof and the public
/// inputs.
pub fn extract(text: &str) -> (r: Result<(Proof, Vec<String>), ProofParseFailure>)
    ensures
        match r {
            Ok(pair) => parsed_proof_file(text@) matches Ok(file) && pair.0@ == file.proof
                && texts(pair.1@) == file.inputs,
            Err(failure) => parsed_proof_file(text@) == Err::<ProofFileView, ProofParseFailure>(
                failure,
            ),
        },
{
    match parse_proof_file(text) {
        Err(failure) => Err(failure),
        Ok(file) => Ok((file.proof, file.inputs)),
    }
}

} // verus!

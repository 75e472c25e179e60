use address_proofs::artifact::{
    extract, parse_proof_file, proof_file_from_value, proof_from_value, read_text, read_text_list,
    read_text_rows, Proof, ProofFile, ProofParseFailure,
};

fn strings(items: &[&str]) -> Vec<String> {
    items.iter().map(|item| item.to_string()).collect()
}

fn sample_proof() -> Proof {
    Proof {
        a: strings(&["0x1", "0x2"]),
        b: vec![strings(&["0x3", "0x4"]), strings(&["0x5", "0x6"])],
        c: strings(&["0x7", "0x8"]),
    }
}

fn value(text: &str) -> serde_json::Value {
    serde_json::from_str(text).unwrap()
}

const SAMPLE: &str = r#"{
            "scheme": "G16",
            "curve": "Bn128",
            "proof": {
                "a": ["0x1", "0x2"],
                "b": [["0x3", "0x4"], ["0x5", "0x6"]],
                "c": ["0x7", "0x8"]
            },
            "inputs": ["0x9", "0xA"]
        }"#;

#[test]
fn test_parse_proof_json_file() {
    let sample_proof = r#"{
            "scheme": "G16",
            "curve": "Bn128",
            "proof": {
                "a": ["0x1", "0x2"],
                "b": [["0x3", "0x4"], ["0x5", "0x6"]],
                "c": ["0x7", "0x8"]
            },
            "inputs": ["0x9", "0xA"]
        }"#;

    let result = extract(sample_proof);
    assert!(result.is_ok());

    let (proof, inputs) = result.unwrap();
    assert_eq!(proof.a, vec!["0x1", "0x2"]);
    assert_eq!(proof.b, vec![vec!["0x3", "0x4"], vec!["0x5", "0x6"]]);
    assert_eq!(proof.c, vec!["0x7", "0x8"]);
    assert_eq!(inputs, vec!["0x9", "0xA"]);
}

#[test]
fn parse_accepts_members_in_any_order() {
    let text = r#"{"proof":{"a":["0x1","0x2"],"b":[["0x3","0x4"],["0x5","0x6"]],"c":["0x7","0x8"]},"inputs":["0x9","0xA"], "scheme":"G16","curve":"Bn128"}"#;
    let (proof, inputs) = extract(text).unwrap();
    assert_eq!(proof.a, vec!["0x1", "0x2"]);
    assert_eq!(inputs, vec!["0x9", "0xA"]);
}

#[test]
fn parse_keeps_every_field() {
    assert_eq!(
        parse_proof_file(SAMPLE),
        Ok(ProofFile {
            scheme: "G16".to_string(),
            curve: "Bn128".to_string(),
            proof: sample_proof(),
            inputs: strings(&["0x9", "0xA"]),
        })
    );
}

#[test]
fn parse_passes_over_unknown_members() {
    let text = r#"{"scheme":"G16","curve":"Bn128","version":3,"proof":{"a":[],"b":[],"c":[],"note":null},"inputs":[],"extra":{"a":1}}"#;
    assert_eq!(
        parse_proof_file(text),
        Ok(ProofFile {
            scheme: "G16".to_string(),
            curve: "Bn128".to_string(),
            proof: Proof { a: vec![], b: vec![], c: vec![] },
            inputs: vec![],
        })
    );
}

#[test]
fn parse_fails_without_proof() {
    let text = r#"{"scheme":"G16","curve":"Bn128","inputs":["0x9"]}"#;
    assert_eq!(parse_proof_file(text), Err(ProofParseFailure::Shape));
    assert_eq!(extract(text), Err(ProofParseFailure::Shape));
}

#[test]
fn parse_fails_without_a() {
    let text = r#"{"scheme":"G16","curve":"Bn128","proof":{"b":[["0x3"]],"c":["0x7"]},"inputs":["0x9"]}"#;
    assert_eq!(extract(text), Err(ProofParseFailure::Shape));
}

#[test]
fn parse_fails_without_b() {
    let text = r#"{"scheme":"G16","curve":"Bn128","proof":{"a":["0x1"],"c":["0x7"]},"inputs":["0x9"]}"#;
    assert_eq!(extract(text), Err(ProofParseFailure::Shape));
}

#[test]
fn parse_fails_without_c() {
    let text = r#"{"scheme":"G16","curve":"Bn128","proof":{"a":["0x1"],"b":[["0x3"]]},"inputs":["0x9"]}"#;
    assert_eq!(extract(text), Err(ProofParseFailure::Shape));
}

#[test]
fn parse_fails_without_inputs() {
    let text = r#"{"scheme":"G16","curve":"Bn128","proof":{"a":["0x1"],"b":[["0x3"]],"c":["0x7"]}}"#;
    assert_eq!(extract(text), Err(ProofParseFailure::Shape));
}

#[test]
fn parse_fails_without_scheme_or_curve() {
    let no_scheme = r#"{"curve":"Bn128","proof":{"a":[],"b":[],"c":[]},"inputs":[]}"#;
    let no_curve = r#"{"scheme":"G16","proof":{"a":[],"b":[],"c":[]},"inputs":[]}"#;
    assert_eq!(extract(no_scheme), Err(ProofParseFailure::Shape));
    assert_eq!(extract(no_curve), Err(ProofParseFailure::Shape));
}

#[test]
fn parse_fails_on_a_member_of_another_type() {
    let a_is_text = r#"{"scheme":"G16","curve":"Bn128","proof":{"a":"0x1","b":[],"c":[]},"inputs":[]}"#;
    let b_is_flat = r#"{"scheme":"G16","curve":"Bn128","proof":{"a":[],"b":["0x3"],"c":[]},"inputs":[]}"#;
    let number_in_inputs = r#"{"scheme":"G16","curve":"Bn128","proof":{"a":[],"b":[],"c":[]},"inputs":[9]}"#;
    let proof_is_array = r#"{"scheme":"G16","curve":"Bn128","proof":[[],[],[]],"inputs":[]}"#;
    let scheme_is_number = r#"{"scheme":16,"curve":"Bn128","proof":{"a":[],"b":[],"c":[]},"inputs":[]}"#;
    for text in [a_is_text, b_is_flat, number_in_inputs, proof_is_array, scheme_is_number] {
        assert_eq!(extract(text), Err(ProofParseFailure::Shape));
    }
}

#[test]
fn parse_fails_on_a_document_that_is_no_object() {
    assert_eq!(extract("[]"), Err(ProofParseFailure::Shape));
    assert_eq!(extract("null"), Err(ProofParseFailure::Shape));
    assert_eq!(extract("\"proof\""), Err(ProofParseFailure::Shape));
}

#[test]
fn parse_fails_on_text_that_is_no_json() {
    assert_eq!(extract(""), Err(ProofParseFailure::Malformed));
    assert_eq!(extract("{\"proof\":"), Err(ProofParseFailure::Malformed));
    assert_eq!(extract("{} trailing"), Err(ProofParseFailure::Malformed));
    assert_eq!(parse_proof_file("not json"), Err(ProofParseFailure::Malformed));
}

#[test]
fn read_text_takes_strings_only() {
    assert_eq!(read_text(&value("\"G16\"")), Some("G16".to_string()));
    assert_eq!(read_text(&value("\"\"")), Some(String::new()));
    assert_eq!(read_text(&value("16")), None);
    assert_eq!(read_text(&value("[\"G16\"]")), None);
}

#[test]
fn read_text_list_takes_arrays_of_strings_only() {
    assert_eq!(read_text_list(&value(r#"["0x1","0x2"]"#)), Some(strings(&["0x1", "0x2"])));
    assert_eq!(read_text_list(&value("[]")), Some(vec![]));
    assert_eq!(read_text_list(&value(r#"["0x1",2]"#)), None);
    assert_eq!(read_text_list(&value(r#"{"0":"0x1"}"#)), None);
    assert_eq!(read_text_list(&value(r#""0x1""#)), None);
}

#[test]
fn read_text_rows_takes_arrays_of_arrays_of_strings_only() {
    assert_eq!(
        read_text_rows(&value(r#"[["0x3","0x4"],[],["0x5"]]"#)),
        Some(vec![strings(&["0x3", "0x4"]), vec![], strings(&["0x5"])])
    );
    assert_eq!(read_text_rows(&value(r#"[["0x3"],"0x4"]"#)), None);
    assert_eq!(read_text_rows(&value(r#"[["0x3"],[4]]"#)), None);
}

#[test]
fn proof_is_read_from_its_document() {
    let document = value(r#"{"a":["0x1","0x2"],"b":[["0x3","0x4"],["0x5","0x6"]],"c":["0x7","0x8"]}"#);
    assert_eq!(proof_from_value(&document), Some(sample_proof()));
    assert_eq!(proof_from_value(&value(r#"{"a":[],"b":[]}"#)), None);
}

#[test]
fn proof_file_is_read_from_its_document() {
    let file = proof_file_from_value(&value(SAMPLE)).unwrap();
    assert_eq!(file.scheme, "G16");
    assert_eq!(file.curve, "Bn128");
    assert_eq!(file.proof, sample_proof());
    assert_eq!(file.inputs, strings(&["0x9", "0xA"]));
    assert_eq!(proof_file_from_value(&value("{}")), None);
}

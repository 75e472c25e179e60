use address_proofs::artifact::{read_text_list, read_text_rows, Proof};
use address_proofs::results::{entry_value, rows_value, texts_value, ResultEntry, ResultMap};

fn strings(items: &[&str]) -> Vec<String> {
    items.iter().map(|item| item.to_string()).collect()
}

fn sample_entry() -> ResultEntry {
    ResultEntry {
        proof: Proof {
            a: strings(&["0x1", "0x2"]),
            b: vec![strings(&["0x3", "0x4"]), strings(&["0x5", "0x6"])],
            c: strings(&["0x7", "0x8"]),
        },
        inputs: strings(&["0x9", "0xA"]),
    }
}

fn small_entry(tag: &str) -> ResultEntry {
    ResultEntry {
        proof: Proof { a: strings(&[tag]), b: vec![], c: vec![] },
        inputs: vec![],
    }
}

#[test]
fn new_results_are_empty() {
    let results = ResultMap::new();
    assert_eq!(results.len(), 0);
    assert!(!results.contains_key("0xabc"));
    assert_eq!(results.get("0xabc"), None);
}

#[test]
fn insert_adds_an_entry_under_its_address() {
    let mut results = ResultMap::new();
    results.insert("0xabc".to_string(), sample_entry());
    assert_eq!(results.len(), 1);
    assert!(results.contains_key("0xabc"));
    assert!(!results.contains_key("0xABC"));
    assert_eq!(results.get("0xabc"), Some(&sample_entry()));
    assert_eq!(results.key_at(0).map(|key| key.as_str()), Some("0xabc"));
    assert_eq!(results.key_at(1), None);
}

#[test]
fn insert_replaces_the_entry_of_an_address_in_its_place() {
    let mut results = ResultMap::new();
    results.insert("0x1".to_string(), small_entry("first"));
    results.insert("0x2".to_string(), small_entry("second"));
    results.insert("0x1".to_string(), small_entry("third"));
    assert_eq!(results.len(), 2);
    assert_eq!(results.key_at(0).map(|key| key.as_str()), Some("0x1"));
    assert_eq!(results.key_at(1).map(|key| key.as_str()), Some("0x2"));
    assert_eq!(results.get("0x1"), Some(&small_entry("third")));
    assert_eq!(results.get("0x2"), Some(&small_entry("second")));
}

#[test]
fn empty_results_are_written_as_an_empty_object() {
    assert_eq!(ResultMap::new().to_pretty_json(), Some("{}".to_string()));
}

#[test]
fn one_entry_is_written_with_proof_and_inputs() {
    let mut results = ResultMap::new();
    results.insert("0xabc".to_string(), sample_entry());
    let expected = r#"{
  "0xabc": {
    "inputs": [
      "0x9",
      "0xA"
    ],
    "proof": [
      [
        "0x1",
        "0x2"
      ],
      [
        [
          "0x3",
          "0x4"
        ],
        [
          "0x5",
          "0x6"
        ]
      ],
      [
        "0x7",
        "0x8"
      ]
    ]
  }
}"#;
    assert_eq!(results.to_pretty_json(), Some(expected.to_string()));
}

#[test]
fn written_results_read_back_as_they_were() {
    let mut results = ResultMap::new();
    results.insert("0xabc".to_string(), sample_entry());
    let text = results.to_pretty_json().unwrap();
    let document: serde_json::Value = serde_json::from_str(&text).unwrap();
    assert_eq!(document.as_object().unwrap().len(), 1);
    let entry = document.get("0xabc").unwrap();
    assert_eq!(entry.as_object().unwrap().len(), 2);
    let proof = entry.get("proof").unwrap();
    assert_eq!(proof.as_array().unwrap().len(), 3);
    assert_eq!(read_text_list(proof.get(0).unwrap()), Some(sample_entry().proof.a));
    assert_eq!(read_text_rows(proof.get(1).unwrap()), Some(sample_entry().proof.b));
    assert_eq!(read_text_list(proof.get(2).unwrap()), Some(sample_entry().proof.c));
    assert_eq!(read_text_list(entry.get("inputs").unwrap()), Some(sample_entry().inputs));
}

#[test]
fn document_of_results_equals_the_document_of_its_text() {
    let mut results = ResultMap::new();
    results.insert("0x2".to_string(), small_entry("two"));
    results.insert("0x1".to_string(), sample_entry());
    let text = results.to_pretty_json().unwrap();
    let parsed: serde_json::Value = serde_json::from_str(&text).unwrap();
    assert_eq!(results.to_value(), parsed);
}

#[test]
fn entries_are_written_in_the_order_of_their_addresses() {
    let mut results = ResultMap::new();
    results.insert("0xb".to_string(), small_entry("b"));
    results.insert("0xa".to_string(), small_entry("a"));
    let text = results.to_pretty_json().unwrap();
    let first = text.find("\"0xa\"").unwrap();
    let second = text.find("\"0xb\"").unwrap();
    assert!(first < second);
}

#[test]
fn texts_value_is_an_array_of_strings() {
    let value = texts_value(&strings(&["0x1", "0x2"]));
    assert_eq!(serde_json::to_string(&value).unwrap(), r#"["0x1","0x2"]"#);
    assert_eq!(serde_json::to_string(&texts_value(&vec![])).unwrap(), "[]");
}

#[test]
fn rows_value_is_an_array_of_arrays() {
    let value = rows_value(&vec![strings(&["0x3", "0x4"]), strings(&["0x5"])]);
    assert_eq!(serde_json::to_string(&value).unwrap(), r#"[["0x3","0x4"],["0x5"]]"#);
}

#[test]
fn entry_value_holds_proof_and_inputs() {
    let value = entry_value(&sample_entry());
    assert_eq!(
        serde_json::to_string(&value).unwrap(),
        r#"{"inputs":["0x9","0xA"],"proof":[["0x1","0x2"],[["0x3","0x4"],["0x5","0x6"]],["0x7","0x8"]]}"#
    );
}

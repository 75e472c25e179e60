use address_proofs::circuit::circuit_source;
use address_proofs::encoder::CircuitInputs;
use address_proofs::gateway::{join, Invocation};
use address_proofs::text::copy_texts;

fn strings(items: &[&str]) -> Vec<String> {
    items.iter().map(|item| item.to_string()).collect()
}

#[test]
fn join_puts_the_separator_between_the_parts() {
    assert_eq!(join(&strings(&[]), " "), "");
    assert_eq!(join(&strings(&["setup"]), " "), "setup");
    assert_eq!(join(&strings(&["compile", "-i", "whitelist.zok"]), " "), "compile -i whitelist.zok");
    assert_eq!(join(&strings(&["a", "", "b"]), ", "), "a, , b");
}

#[test]
fn compile_names_the_circuit_file() {
    let call = Invocation::compile("zokrates", "whitelist.zok");
    assert_eq!(call.program, "zokrates");
    assert_eq!(call.args, strings(&["compile", "-i", "whitelist.zok"]));
}

#[test]
fn plain_commands_have_one_argument() {
    assert_eq!(Invocation::setup("zokrates").args, strings(&["setup"]));
    assert_eq!(Invocation::export_verifier("zokrates").args, strings(&["export-verifier"]));
    assert_eq!(Invocation::generate_proof("zokrates").args, strings(&["generate-proof"]));
    assert_eq!(Invocation::generate_proof("zok").program, "zok");
}

#[test]
fn compute_witness_passes_the_inputs_without_leading_zeros() {
    let inputs = CircuitInputs {
        a: "100".to_string(),
        b: "0005".to_string(),
        c: "100".to_string(),
        d: "0005".to_string(),
    };
    let call = Invocation::compute_witness("zokrates", &inputs);
    assert_eq!(call.program, "zokrates");
    assert_eq!(call.args, strings(&["compute-witness", "-a", "100", "5", "100", "5"]));
}

#[test]
fn compute_witness_passes_an_empty_input_as_zero() {
    let inputs = CircuitInputs {
        a: "".to_string(),
        b: "00".to_string(),
        c: "".to_string(),
        d: "00".to_string(),
    };
    let call = Invocation::compute_witness("zokrates", &inputs);
    assert_eq!(call.args, strings(&["compute-witness", "-a", "0", "0", "0", "0"]));
}

#[test]
fn failure_message_names_the_command_and_its_arguments() {
    let call = Invocation::compile("zokrates", "whitelist.zok");
    assert_eq!(
        call.failure_message(),
        "Command 'zokrates' with arguments 'compile -i whitelist.zok' failed"
    );
    let bare = Invocation { program: "false".to_string(), args: vec![] };
    assert_eq!(bare.failure_message(), "Command 'false' with arguments '' failed");
}

#[test]
fn copy_of_a_call_equals_it() {
    let call = Invocation::compile("zokrates", "whitelist.zok");
    assert_eq!(call.copy(), call);
}

#[test]
fn copies_of_lists_equal_them() {
    let list = strings(&["0x1", "", "0x2"]);
    assert_eq!(copy_texts(&list), list);
    assert_eq!(copy_texts(&vec![]), strings(&[]));
}

#[test]
fn circuit_checks_both_pairs_of_inputs() {
    let expected = r#"
def main(private field a, private field b, public field c, public field d) -> bool{
    assert(a == c);
    assert(b == d);
    return true;
}
"#;
    assert_eq!(circuit_source(), expected);
}

//! The commands of the toolchain and what is said of one that failed.

use crate::encoder::{toolchain_argument, toolchain_number, CircuitInputs, CircuitInputsView};
use crate::text::{copy_texts, texts};
use vstd::prelude::*;
use vstd::string::*;

verus! {

/// One call of an outside program: its name and its arguments.
#[derive(Debug, Clone, PartialEq, Eq)]
pub struct Invocation {
    pub program: String,
    pub args: Vec<String>,
}

/// What an [`Invocation`] holds.
pub struct InvocationView {
    pub program: Seq<char>,
    pub args: Seq<Seq<char>>,
}

impl View for Invocation {
    type V = InvocationView;

    open spec fn view(&self) -> InvocationView {
        InvocationView { program: self.program@, args: texts(self.args@) }
    }
}

/// The parts, with `separator` between each two of them.
pub open spec fn joined(parts: Seq<Seq<char>>, separator: Seq<char>) -> Seq<char>
    decreases parts.len(),
{
    if parts.len() == 0 {
        Seq::empty()
    } else if parts.len() == 1 {
        parts[0]
    } else {
        joined(parts.drop_last(), separator) + separator + parts.last()
    }
}

/// What is said of a call that failed: the program and its arguments, the
/// arguments with a space between each two.
pub open spec fn failure_text(invocation: InvocationView) -> Seq<char> {
    "Command '"@ + invocation.program + "' with arguments '"@ + joined(invocation.args, " "@)
        + "' failed"@
}

/// `compile -i <circuit file>`.
pub open spec fn compile_command(toolchain: Seq<char>, circuit_path: Seq<char>) -> InvocationView {
    InvocationView { program: toolchain, args: seq!["compile"@, "-i"@, circuit_path] }
}

/// `setup`.
pub open spec fn setup_command(toolchain: Seq<char>) -> InvocationView {
    InvocationView { program: toolchain, args: seq!["setup"@] }
}

/// `export-verifier`.
pub open spec fn export_verifier_command(toolchain: Seq<char>) -> InvocationView {
    InvocationView { program: toolchain, args: seq!["export-verifier"@] }
}

/// `compute-witness -a <a> <b> <c> <d>`, each input as the number that the
/// toolchain accepts.
pub open spec fn witness_command(toolchain: Seq<char>, inputs: CircuitInputsView) -> InvocationView {
    InvocationView {
        program: toolchain,
        args: seq![
            "compute-witness"@,
            "-a"@,
            toolchain_number(inputs.a),
            toolchain_number(inputs.b),
            toolchain_number(inputs.c),
            toolchain_number(inputs.d),
        ],
    }
}

/// `generate-proof`.
pub open spec fn generate_proof_command(toolchain: Seq<char>) -> InvocationView {
    InvocationView { program: toolchain, args: seq!["generate-proof"@] }
}

/// The parts with `separator` between each two of them.
pub fn join(parts: &Vec<String>, separator: &str) -> (r: String)
    ensures
        r@ == joined(texts(parts@), separator@),
{
    let mut out = String::new();
    let mut i: usize = 0;
    while i < parts.len()
        invariant
            i <= parts.len(),
            out@ == joined(texts(parts@).take(i as int), separator@),
        decreases parts.len() - i,
    {
        proof {
            let all = texts(parts@);
            assert(all.take(i as int + 1).drop_last() =~= all.take(i as int));
            assert(all.take(i as int + 1).last() == parts@[i as int]@);
            if i == 0 {
                assert(out@ =~= Seq::<char>::empty());
            }
        }
        if i > 0 {
            out.append(separator);
        }
        out.append(parts[i].as_str());
        proof {
            if i == 0 {
                assert(out@ =~= parts@[0]@);
            }
        }
        i = i + 1;
    }
    assert(texts(parts@).take(i as int) =~= texts(parts@));
    out
}

impl Invocation {
    /// The command that compiles the circuit file.
    pub fn compile(toolchain: &str, circuit_path: &str) -> (r: Invocation)
        ensures
            r@ == compile_command(toolchain@, circuit_path@),
    {
        let mut args: Vec<String> = Vec::new();
        args.push("compile".to_owned());
        args.push("-i".to_owned());
        args.push(circuit_path.to_owned());
        let r = Invocation { program: toolchain.to_owned(), args };
        assert(r@.args =~= compile_command(toolchain@, circuit_path@).args);
        r
    }

    /// The command that makes the proving and the verification key.
    pub fn setup(toolchain: &str) -> (r: Invocation)
        ensures
            r@ == setup_command(toolchain@),
    {
        let mut args: Vec<String> = Vec::new();
        args.push("setup".to_owned());
        let r = Invocation { program: toolchain.to_owned(), args };
        assert(r@.args =~= setup_command(toolchain@).args);
        r
    }

    /// The command that writes the verifier contract.
    pub fn export_verifier(toolchain: &str) -> (r: Invocation)
        ensures
            r@ == export_verifier_command(toolchain@),
    {
        let mut args: Vec<String> = Vec::new();
        args.push("export-verifier".to_owned());
        let r = Invocation { program: toolchain.to_owned(), args };
        assert(r@.args =~= export_verifier_command(toolchain@).args);
        r
    }

    /// The command that computes the witness of the given inputs. Each
    /// input is passed without leading zeros, and as `0` where nothing but
    /// zeros, or nothing at all, stands in it.
    pub fn compute_witness(toolchain: &str, inputs: &CircuitInputs) -> (r: Invocation)
        ensures
            r@ == witness_command(toolchain@, inputs@),
    {
        let mut args: Vec<String> = Vec::new();
        args.push("compute-witness".to_owned());
        args.push("-a".to_owned());
        args.push(toolchain_argument(inputs.a.as_str()));
        args.push(toolchain_argument(inputs.b.as_str()));
        args.push(toolchain_argument(inputs.c.as_str()));
        args.push(toolchain_argument(inputs.d.as_str()));
        let r = Invocation { program: toolchain.to_owned(), args };
        assert(r@.args =~= witness_command(toolchain@, inputs@).args);
        r
    }

    /// The command that generates the proof of the last witness.
    pub fn generate_proof(toolchain: &str) -> (r: Invocation)
        ensures
            r@ == generate_proof_command(toolchain@),
    {
        let mut args: Vec<String> = Vec::new();
        args.push("generate-proof".to_owned());
        let r = Invocation { program: toolchain.to_owned(), args };
        assert(r@.args =~= generate_proof_command(toolchain@).args);
        r
    }

    /// A copy of the call.
    pub fn copy(&self) -> (r: Invocation)
        ensures
            r@ == self@,
    {
        Invocation { program: self.program.clone(), args: copy_texts(&self.args) }
    }

    /// What is said of the call where it failed.
    pub fn failure_message(&self) -> (r: String)
        ensures
            r@ == failure_text(self@),
    {
        let mut out = "Command '".to_owned();
        out.append(self.program.as_str());
        out.append("' with arguments '");
        let arguments = join(&self.args, " ");
        out.append(arguments.as_str());
        out.append("' failed");
        out
    }
}

} // verus!

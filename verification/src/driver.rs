//! The pipeline driver: which step follows which, and what a failure means.
//!
//! The driver does no outside work itself. It hands out an [`Action`], the
//! caller performs it and reports the [`Event`] that came of it, and the
//! driver answers with the next action. [`next`] is the whole of its rules.

use crate::artifact::{extract, parsed_proof_file, ProofParseFailure};
use crate::circuit::{circuit_source, circuit_text};
use crate::encoder::{
    address_decimal, circuit_inputs, decode_failure, encode_address, well_formed_address,
    AddressDecodeFailure,
};
use crate::gateway::{
    compile_command, export_verifier_command, failure_text, generate_proof_command, setup_command,
    witness_command, Invocation, InvocationView,
};
use crate::json::json_pretty;
use crate::results::{
    distinct_keys, inserted, lemma_inserted, results_json, ResultEntry, ResultEntryView, ResultMap,
};
use crate::text::texts;
use vstd::prelude::*;
use vstd::string::*;

verus! {

/// What a failed step of one address means for the run.
#[derive(Debug, Clone, Copy, PartialEq, Eq, Structural)]
pub enum FailurePolicy {
    /// The run ends at the first address that fails.
    Strict,
    /// The failure is noted and the run goes on.
    Tolerant,
}

/// What a run is made with.
#[derive(Debug, Clone, PartialEq, Eq)]
pub struct PipelineConfig {
    /// The name of the toolchain's program.
    pub toolchain: String,
    /// Where the circuit's program lies.
    pub circuit_path: String,
    /// Where the addresses are listed, one a line.
    pub addresses_path: String,
    /// Where the toolchain leaves the proof of the last address.
    pub proof_path: String,
    /// Where the results are written.
    pub output_path: String,
    /// Whether the verifier contract is exported after the setup.
    pub export_verifier: bool,
    /// What happens where an address cannot be decoded or the toolchain
    /// fails on one.
    pub policy: FailurePolicy,
}

/// What a [`PipelineConfig`] holds.
pub struct ConfigView {
    pub toolchain: Seq<char>,
    pub circuit_path: Seq<char>,
    pub addresses_path: Seq<char>,
    pub proof_path: Seq<char>,
    pub output_path: Seq<char>,
    pub export_verifier: bool,
    pub policy: FailurePolicy,
}

impl View for PipelineConfig {
    type V = ConfigView;

    open spec fn view(&self) -> ConfigView {
        ConfigView {
            toolchain: self.toolchain@,
            circuit_path: self.circuit_path@,
            addresses_path: self.addresses_path@,
            proof_path: self.proof_path@,
            output_path: self.output_path@,
            export_verifier: self.export_verifier,
            policy: self.policy,
        }
    }
}

/// The step of one address that the driver waits for.
#[derive(Debug, Clone, Copy, PartialEq, Eq, Structural)]
pub enum Phase {
    /// The witness is being computed.
    Witness,
    /// The proof is being generated.
    Proof,
    /// The proof artifact is being read.
    Extract,
}

/// How far a run has come.
#[derive(Debug, Clone, Copy, PartialEq, Eq, Structural)]
pub enum Stage {
    /// The circuit file is not known to exist yet: it is looked for, or,
    /// with `creating`, written.
    Init { creating: bool },
    /// The circuit file exists; it is being compiled.
    CircuitReady,
    /// The circuit is compiled; the keys are being set up.
    Compiled,
    /// The keys are set up; the verifier is being exported or, where it is
    /// not asked for, the addresses are being read.
    SetupDone,
    /// The verifier is exported; the addresses are being read.
    VerifierExported,
    /// The addresses are worked through, one at a time.
    ProcessingAddresses { phase: Phase },
    /// Every address was worked through.
    Done,
    /// The run was given up.
    Failed,
}

/// Why a run was given up.
#[derive(Debug, Clone, PartialEq, Eq)]
pub enum PipelineError {
    /// The circuit file is missing and could not be written.
    ConfigurationAbsent,
    /// A call of the toolchain failed.
    ToolchainInvocationFailure { invocation: Invocation },
    /// The list of addresses could not be read.
    AddressListUnreadable,
    /// An address is no hexadecimal number.
    AddressDecodeFailure { address: String, failure: AddressDecodeFailure },
    /// The results could not be rendered or written.
    OutputWriteFailure,
    /// The event reported is none that the driver waited for.
    UnexpectedEvent,
}

/// What a [`PipelineError`] holds.
pub enum ErrorView {
    ConfigurationAbsent,
    ToolchainInvocationFailure { invocation: InvocationView },
    AddressListUnreadable,
    AddressDecodeFailure { address: Seq<char>, failure: AddressDecodeFailure },
    OutputWriteFailure,
    UnexpectedEvent,
}

impl View for PipelineError {
    type V = ErrorView;

    open spec fn view(&self) -> ErrorView {
        match self {
            PipelineError::ConfigurationAbsent => ErrorView::ConfigurationAbsent,
            PipelineError::ToolchainInvocationFailure { invocation } => {
                ErrorView::ToolchainInvocationFailure { invocation: invocation@ }
            },
            PipelineError::AddressListUnreadable => ErrorView::AddressListUnreadable,
            PipelineError::AddressDecodeFailure { address, failure } => {
                ErrorView::AddressDecodeFailure { address: address@, failure: *failure }
            },
            PipelineError::OutputWriteFailure => ErrorView::OutputWriteFailure,
            PipelineError::UnexpectedEvent => ErrorView::UnexpectedEvent,
        }
    }
}

/// Something that went wrong without ending the run.
#[derive(Debug, Clone, PartialEq, Eq)]
pub enum Diagnostic {
    /// A call of the toolchain failed and the run went on.
    CommandFailed { invocation: Invocation },
    /// No proof was had for the address: it has no entry.
    ProofSkipped { address: String, failure: ProofParseFailure },
    /// The address is no hexadecimal number: it was passed over.
    AddressSkipped { address: String, failure: AddressDecodeFailure },
}

/// What a [`Diagnostic`] holds.
pub enum DiagnosticView {
    CommandFailed { invocation: InvocationView },
    ProofSkipped { address: Seq<char>, failure: ProofParseFailure },
    AddressSkipped { address: Seq<char>, failure: AddressDecodeFailure },
}

impl View for Diagnostic {
    type V = DiagnosticView;

    open spec fn view(&self) -> DiagnosticView {
        match self {
            Diagnostic::CommandFailed { invocation } => DiagnosticView::CommandFailed {
                invocation: invocation@,
            },
            Diagnostic::ProofSkipped { address, failure } => DiagnosticView::ProofSkipped {
                address: address@,
                failure: *failure,
            },
            Diagnostic::AddressSkipped { address, failure } => DiagnosticView::AddressSkipped {
                address: address@,
                failure: *failure,
            },
        }
    }
}

/// What is said of an address that does not decode.
pub open spec fn undecodable_text(address: Seq<char>, failure: AddressDecodeFailure) -> Seq<char> {
    "Address '"@ + address + "' is no hexadecimal number: "@ + failure.text()
}

/// What is said of an error.
pub open spec fn error_text(error: ErrorView) -> Seq<char> {
    match error {
        ErrorView::ConfigurationAbsent => "The circuit file is missing and could not be written"@,
        ErrorView::ToolchainInvocationFailure { invocation } => failure_text(invocation),
        ErrorView::AddressListUnreadable => "The list of addresses could not be read"@,
        ErrorView::AddressDecodeFailure { address, failure } => undecodable_text(address, failure),
        ErrorView::OutputWriteFailure => "The results could not be written"@,
        ErrorView::UnexpectedEvent => "The event reported was not waited for"@,
    }
}

/// What is said of a diagnostic.
pub open spec fn note_text(note: DiagnosticView) -> Seq<char> {
    match note {
        DiagnosticView::CommandFailed { invocation } => failure_text(invocation),
        DiagnosticView::ProofSkipped { address, failure } => "Failed to parse proof and input of '"@
            + address + "': "@ + failure.text(),
        DiagnosticView::AddressSkipped { address, failure } => undecodable_text(address, failure),
    }
}

/// What is said of an address that does not decode.
fn undecodable_message(address: &String, failure: &AddressDecodeFailure) -> (r: String)
    ensures
        r@ == undecodable_text(address@, *failure),
{
    let mut out = "Address '".to_owned();
    out.append(address.as_str());
    out.append("' is no hexadecimal number: ");
    out.append(failure.message().as_str());
    out
}

impl PipelineError {
    /// What is said of the error.
    pub fn message(&self) -> (r: String)
        ensures
            r@ == error_text(self@),
    {
        match self {
            PipelineError::ConfigurationAbsent => {
                "The circuit file is missing and could not be written".to_owned()
            },
            PipelineError::ToolchainInvocationFailure { invocation } => invocation.failure_message(),
            PipelineError::AddressListUnreadable => {
                "The list of addresses could not be read".to_owned()
            },
            PipelineError::AddressDecodeFailure { address, failure } => undecodable_message(
                address,
                failure,
            ),
            PipelineError::OutputWriteFailure => "The results could not be written".to_owned(),
            PipelineError::UnexpectedEvent => "The event reported was not waited for".to_owned(),
        }
    }
}

impl Diagnostic {
    /// What is said of the diagnostic.
    pub fn message(&self) -> (r: String)
        ensures
            r@ == note_text(self@),
    {
        match self {
            Diagnostic::CommandFailed { invocation } => invocation.failure_message(),
            Diagnostic::ProofSkipped { address, failure } => {
                let mut out = "Failed to parse proof and input of '".to_owned();
                out.append(address.as_str());
                out.append("': ");
                out.append(failure.message().as_str());
                out
            },
            Diagnostic::AddressSkipped { address, failure } => undecodable_message(address, failure),
        }
    }
}

/// What the caller is to do next.
#[derive(Debug, Clone, PartialEq, Eq)]
pub enum Action {
    /// Find out whether the circuit file exists, and report `CircuitProbed`.
    ProbeCircuit { path: String },
    /// Write the circuit file, and report `CircuitWritten`.
    WriteCircuit { path: String, contents: String },
    /// Run the program and wait for it, and report `ToolFinished`.
    Invoke { invocation: Invocation },
    /// Read the lines of the address list, and report `AddressesRead`.
    ReadAddresses { path: String },
    /// Read the proof artifact, and report `ProofRead`.
    ReadProof { path: String },
    /// Write the results, anew, to the file: the run is over.
    WriteOutput { path: String },
    /// End with the error: the run is given up and nothing is written.
    Abort { error: PipelineError },
    /// Nothing: the run was over before.
    Stop,
}

/// What an [`Action`] holds.
pub enum ActionView {
    ProbeCircuit { path: Seq<char> },
    WriteCircuit { path: Seq<char>, contents: Seq<char> },
    Invoke { invocation: InvocationView },
    ReadAddresses { path: Seq<char> },
    ReadProof { path: Seq<char> },
    WriteOutput { path: Seq<char> },
    Abort { error: ErrorView },
    Stop,
}

impl View for Action {
    type V = ActionView;

    open spec fn view(&self) -> ActionView {
        match self {
            Action::ProbeCircuit { path } => ActionView::ProbeCircuit { path: path@ },
            Action::WriteCircuit { path, contents } => ActionView::WriteCircuit {
                path: path@,
                contents: contents@,
            },
            Action::Invoke { invocation } => ActionView::Invoke { invocation: invocation@ },
            Action::ReadAddresses { path } => ActionView::ReadAddresses { path: path@ },
            Action::ReadProof { path } => ActionView::ReadProof { path: path@ },
            Action::WriteOutput { path } => ActionView::WriteOutput { path: path@ },
            Action::Abort { error } => ActionView::Abort { error: error@ },
            Action::Stop => ActionView::Stop,
        }
    }
}

/// What came of the last action.
#[derive(Debug, Clone, PartialEq, Eq)]
pub enum Event {
    /// Whether the circuit file exists.
    CircuitProbed { exists: bool },
    /// Whether the circuit file could be written.
    CircuitWritten { written: bool },
    /// Whether the program ran and ended in success.
    ToolFinished { success: bool },
    /// The lines of the address list, `None` where it could not be read.
    AddressesRead { lines: Option<Vec<String>> },
    /// The text of the proof artifact, `None` where it could not be read.
    ProofRead { text: Option<String> },
}

/// What an [`Event`] holds.
pub enum EventView {
    CircuitProbed { exists: bool },
    CircuitWritten { written: bool },
    ToolFinished { success: bool },
    AddressesRead { lines: Option<Seq<Seq<char>>> },
    ProofRead { text: Option<Seq<char>> },
}

impl View for Event {
    type V = EventView;

    open spec fn view(&self) -> EventView {
        match self {
            Event::CircuitProbed { exists } => EventView::CircuitProbed { exists: *exists },
            Event::CircuitWritten { written } => EventView::CircuitWritten { written: *written },
            Event::ToolFinished { success } => EventView::ToolFinished { success: *success },
            Event::AddressesRead { lines } => EventView::AddressesRead {
                lines: match lines {
                    Some(lines) => Some(texts(lines@)),
                    None => None,
                },
            },
            Event::ProofRead { text } => EventView::ProofRead {
                text: match text {
                    Some(text) => Some(text@),
                    None => None,
                },
            },
        }
    }
}

/// The state of a run.
pub struct PipelineView {
    pub config: ConfigView,
    pub stage: Stage,
    /// The addresses, in the order of their lines.
    pub addresses: Seq<Seq<char>>,
    /// How many addresses were worked through.
    pub cursor: nat,
    /// The entries made so far.
    pub results: Seq<(Seq<char>, ResultEntryView)>,
}

/// A move of the driver: the state it comes to, what is to be done next, and
/// what is to be noted.
pub struct StepView {
    pub state: PipelineView,
    pub action: ActionView,
    pub diagnostics: Seq<DiagnosticView>,
}

/// The move that changes the stage and asks for `action`.
pub open spec fn proceed(state: PipelineView, stage: Stage, action: ActionView) -> StepView {
    StepView { state: PipelineView { stage, ..state }, action, diagnostics: Seq::empty() }
}

/// The move that gives the run up.
pub open spec fn give_up(state: PipelineView, error: ErrorView) -> StepView {
    proceed(state, Stage::Failed, ActionView::Abort { error })
}

/// The same move with a note put before its own.
pub open spec fn noting(note: DiagnosticView, step: StepView) -> StepView {
    StepView { diagnostics: seq![note] + step.diagnostics, ..step }
}

/// The call that computes the witness of the address at the cursor.
pub open spec fn current_witness_command(state: PipelineView) -> InvocationView {
    witness_command(
        state.config.toolchain,
        circuit_inputs(address_decimal(state.addresses[state.cursor as int])),
    )
}

/// The move at the start of a run.
pub open spec fn first_step(config: ConfigView) -> StepView {
    StepView {
        state: PipelineView {
            config,
            stage: Stage::Init { creating: false },
            addresses: Seq::empty(),
            cursor: 0,
            results: Seq::empty(),
        },
        action: ActionView::ProbeCircuit { path: config.circuit_path },
        diagnostics: Seq::empty(),
    }
}

/// The move to the address at the cursor. Where none is left the run is
/// done and the results are to be written. An address that decodes has its
/// witness computed. One that does not ends a strict run, and is noted and
/// passed over in a tolerant one.
pub open spec fn begin_address(state: PipelineView) -> StepView
    decreases state.addresses.len() - state.cursor,
{
    if state.cursor >= state.addresses.len() {
        proceed(state, Stage::Done, ActionView::WriteOutput { path: state.config.output_path })
    } else {
        let address = state.addresses[state.cursor as int];
        if well_formed_address(address) {
            proceed(
                state,
                Stage::ProcessingAddresses { phase: Phase::Witness },
                ActionView::Invoke { invocation: current_witness_command(state) },
            )
        } else {
            let failure = decode_failure(address)->Some_0;
            match state.config.policy {
                FailurePolicy::Strict => give_up(
                    state,
                    ErrorView::AddressDecodeFailure { address, failure },
                ),
                FailurePolicy::Tolerant => noting(
                    DiagnosticView::AddressSkipped { address, failure },
                    begin_address(PipelineView { cursor: state.cursor + 1, ..state }),
                ),
            }
        }
    }
}

/// The move past the address at the cursor, to the next.
pub open spec fn next_address(state: PipelineView) -> StepView {
    begin_address(PipelineView { cursor: state.cursor + 1, ..state })
}

/// What reading the artifact gave: the artifact's text where it was read,
/// parsed.
pub open spec fn extraction(text: Option<Seq<char>>) -> Result<ResultEntryView, ProofParseFailure> {
    match text {
        None => Err(ProofParseFailure::Unreadable),
        Some(text) => match parsed_proof_file(text) {
            Ok(file) => Ok(ResultEntryView { proof: file.proof, inputs: file.inputs }),
            Err(failure) => Err(failure),
        },
    }
}

/// The move after a call of the toolchain that every run needs: on
/// success the run goes on as given, on failure it is given up.
pub open spec fn after_required_call(
    state: PipelineView,
    success: bool,
    invocation: InvocationView,
    stage: Stage,
    action: ActionView,
) -> StepView {
    if success {
        proceed(state, stage, action)
    } else {
        give_up(state, ErrorView::ToolchainInvocationFailure { invocation })
    }
}

/// The move after the addresses were read.
pub open spec fn after_addresses(state: PipelineView, lines: Option<Seq<Seq<char>>>) -> StepView {
    match lines {
        Some(lines) => begin_address(PipelineView { addresses: lines, cursor: 0, ..state }),
        None => give_up(state, ErrorView::AddressListUnreadable),
    }
}

/// The action that compiles the circuit.
pub open spec fn compile_action(config: ConfigView) -> ActionView {
    ActionView::Invoke { invocation: compile_command(config.toolchain, config.circuit_path) }
}

/// The action that reads the addresses.
pub open spec fn read_addresses_action(config: ConfigView) -> ActionView {
    ActionView::ReadAddresses { path: config.addresses_path }
}

/// The move on an event that was not waited for: the run is given up.
pub open spec fn unexpected(state: PipelineView) -> StepView {
    give_up(state, ErrorView::UnexpectedEvent)
}

/// The move while the circuit file is looked for or, with `creating`,
/// written. A file that exists is compiled as it is; one that is missing is
/// written first; one that cannot be written ends the run.
pub open spec fn on_init(state: PipelineView, creating: bool, event: EventView) -> StepView {
    match event {
        EventView::CircuitProbed { exists } => if creating {
            unexpected(state)
        } else if exists {
            proceed(state, Stage::CircuitReady, compile_action(state.config))
        } else {
            proceed(
                state,
                Stage::Init { creating: true },
                ActionView::WriteCircuit {
                    path: state.config.circuit_path,
                    contents: circuit_text(),
                },
            )
        },
        EventView::CircuitWritten { written } => if !creating {
            unexpected(state)
        } else if written {
            proceed(state, Stage::CircuitReady, compile_action(state.config))
        } else {
            give_up(state, ErrorView::ConfigurationAbsent)
        },
        _ => unexpected(state),
    }
}

/// The move after the circuit was compiled: the keys are set up.
pub open spec fn on_circuit_ready(state: PipelineView, event: EventView) -> StepView {
    match event {
        EventView::ToolFinished { success } => after_required_call(
            state,
            success,
            compile_command(state.config.toolchain, state.config.circuit_path),
            Stage::Compiled,
            ActionView::Invoke { invocation: setup_command(state.config.toolchain) },
        ),
        _ => unexpected(state),
    }
}

/// The move after the keys were set up: the verifier is exported where
/// that is asked for, and the addresses are read where it is not.
pub open spec fn on_compiled(state: PipelineView, event: EventView) -> StepView {
    match event {
        EventView::ToolFinished { success } => after_required_call(
            state,
            success,
            setup_command(state.config.toolchain),
            Stage::SetupDone,
            if state.config.export_verifier {
                ActionView::Invoke { invocation: export_verifier_command(state.config.toolchain) }
            } else {
                read_addresses_action(state.config)
            },
        ),
        _ => unexpected(state),
    }
}

/// The move after the setup: the verifier was exported and the addresses
/// are read, or, where no verifier is asked for, the addresses were read.
pub open spec fn on_setup_done(state: PipelineView, event: EventView) -> StepView {
    match event {
        EventView::ToolFinished { success } => if state.config.export_verifier {
            after_required_call(
                state,
                success,
                export_verifier_command(state.config.toolchain),
                Stage::VerifierExported,
                read_addresses_action(state.config),
            )
        } else {
            unexpected(state)
        },
        EventView::AddressesRead { lines } => if state.config.export_verifier {
            unexpected(state)
        } else {
            after_addresses(state, lines)
        },
        _ => unexpected(state),
    }
}

/// The move after the verifier was exported: the addresses were read.
pub open spec fn on_verifier_exported(state: PipelineView, event: EventView) -> StepView {
    match event {
        EventView::AddressesRead { lines } => after_addresses(state, lines),
        _ => unexpected(state),
    }
}

/// The move after the witness of an address was computed: the proof is
/// generated. A failure ends a strict run; a tolerant one notes it and
/// generates the proof all the same.
pub open spec fn on_witness(state: PipelineView, event: EventView) -> StepView {
    match event {
        EventView::ToolFinished { success } => {
            let go_on = proceed(
                state,
                Stage::ProcessingAddresses { phase: Phase::Proof },
                ActionView::Invoke { invocation: generate_proof_command(state.config.toolchain) },
            );
            if success {
                go_on
            } else {
                match state.config.policy {
                    FailurePolicy::Strict => give_up(
                        state,
                        ErrorView::ToolchainInvocationFailure {
                            invocation: current_witness_command(state),
                        },
                    ),
                    FailurePolicy::Tolerant => noting(
                        DiagnosticView::CommandFailed { invocation: current_witness_command(state) },
                        go_on,
                    ),
                }
            }
        },
        _ => unexpected(state),
    }
}

/// The move after the proof of an address was generated: the artifact is
/// read. A failure ends a strict run; a tolerant one notes it and goes on to
/// the next address.
pub open spec fn on_proof(state: PipelineView, event: EventView) -> StepView {
    match event {
        EventView::ToolFinished { success } => if success {
            proceed(
                state,
                Stage::ProcessingAddresses { phase: Phase::Extract },
                ActionView::ReadProof { path: state.config.proof_path },
            )
        } else {
            match state.config.policy {
                FailurePolicy::Strict => give_up(
                    state,
                    ErrorView::ToolchainInvocationFailure {
                        invocation: generate_proof_command(state.config.toolchain),
                    },
                ),
                FailurePolicy::Tolerant => noting(
                    DiagnosticView::CommandFailed {
                        invocation: generate_proof_command(state.config.toolchain),
                    },
                    next_address(state),
                ),
            }
        },
        _ => unexpected(state),
    }
}

/// The move after the artifact of an address was read: a proof that was
/// had is entered under the address, one that was not is noted, and the run
/// goes on to the next address either way.
pub open spec fn on_extract(state: PipelineView, event: EventView) -> StepView {
    match event {
        EventView::ProofRead { text } => {
            let address = state.addresses[state.cursor as int];
            match extraction(text) {
                Ok(entry) => next_address(
                    PipelineView { results: inserted(state.results, address, entry), ..state },
                ),
                Err(failure) => noting(
                    DiagnosticView::ProofSkipped { address, failure },
                    next_address(state),
                ),
            }
        },
        _ => unexpected(state),
    }
}

/// The move in a run that is over: nothing changes and nothing is asked for.
pub open spec fn stay(state: PipelineView) -> StepView {
    StepView { state, action: ActionView::Stop, diagnostics: Seq::empty() }
}

/// The rules of the driver: the move that the event brings about in a state.
pub open spec fn next(state: PipelineView, event: EventView) -> StepView {
    match state.stage {
        Stage::Init { creating } => on_init(state, creating, event),
        Stage::CircuitReady => on_circuit_ready(state, event),
        Stage::Compiled => on_compiled(state, event),
        Stage::SetupDone => on_setup_done(state, event),
        Stage::VerifierExported => on_verifier_exported(state, event),
        Stage::ProcessingAddresses { phase: Phase::Witness } => on_witness(state, event),
        Stage::ProcessingAddresses { phase: Phase::Proof } => on_proof(state, event),
        Stage::ProcessingAddresses { phase: Phase::Extract } => on_extract(state, event),
        Stage::Done => stay(state),
        Stage::Failed => stay(state),
    }
}

/// Whether `key` is the text of one of the first `cursor` addresses.
pub open spec fn processed(addresses: Seq<Seq<char>>, cursor: nat, key: Seq<char>) -> bool {
    exists|j: int| 0 <= j < cursor && j < addresses.len() && #[trigger] addresses[j] == key
}

/// Whether every key of the results is an address before the cursor.
pub open spec fn keys_from_processed(state: PipelineView) -> bool {
    forall|i: int|
        0 <= i < state.results.len() ==> processed(
            state.addresses,
            state.cursor,
            (#[trigger] state.results[i]).0,
        )
}

/// The invariant of a run. The cursor stays within the addresses; while an
/// address is worked on it is one that decodes; before the addresses are
/// read there is none, and no entry; a run that is done has worked through
/// every address. No address has two entries, there are no more entries
/// than addresses worked through, and every entry is keyed by one of them.
pub open spec fn well_formed(state: PipelineView) -> bool {
    &&& state.cursor <= state.addresses.len()
    &&& state.stage is ProcessingAddresses ==> state.cursor < state.addresses.len()
        && well_formed_address(state.addresses[state.cursor as int])
    &&& state.stage is Done ==> state.cursor == state.addresses.len()
    &&& (state.stage is Init || state.stage is CircuitReady || state.stage is Compiled
        || state.stage is SetupDone || state.stage is VerifierExported) ==> state.addresses.len()
        == 0 && state.results.len() == 0
    &&& distinct_keys(state.results)
    &&& state.results.len() <= state.cursor
    &&& keys_from_processed(state)
}

/// The state that a run is in after the events, from `state` on.
pub open spec fn run(state: PipelineView, events: Seq<EventView>) -> PipelineView
    decreases events.len(),
{
    if events.len() == 0 {
        state
    } else {
        next(run(state, events.drop_last()), events.last()).state
    }
}

/// What [`begin_address`] needs of a state: all of the invariant but what
/// it says of the stage.
pub open spec fn ready_for_address(state: PipelineView) -> bool {
    &&& state.cursor <= state.addresses.len()
    &&& distinct_keys(state.results)
    &&& state.results.len() <= state.cursor
    &&& keys_from_processed(state)
}

/// Moving to the address at the cursor keeps the invariant. It changes
/// neither the addresses nor the results, and moves the cursor forward only
/// past addresses that do not decode, which happens in a tolerant run
/// alone. A tolerant run is not given up by it.
pub proof fn lemma_begin_address(state: PipelineView)
    requires
        ready_for_address(state),
    ensures
        well_formed(begin_address(state).state),
        begin_address(state).state.config == state.config,
        begin_address(state).state.addresses == state.addresses,
        begin_address(state).state.results == state.results,
        state.cursor <= begin_address(state).state.cursor,
        forall|j: int|
            state.cursor <= j < begin_address(state).state.cursor ==> !well_formed_address(
                #[trigger] state.addresses[j],
            ),
        state.config.policy == FailurePolicy::Strict ==> begin_address(state).state.cursor
            == state.cursor,
        state.config.policy == FailurePolicy::Tolerant ==> !(begin_address(state).state.stage
            is Failed),
        begin_address(state).state.stage is ProcessingAddresses ==> begin_address(state).action
            == (ActionView::Invoke {
            invocation: current_witness_command(begin_address(state).state),
        }),
        begin_address(state).state.stage is ProcessingAddresses || begin_address(state).state.stage
            is Done || begin_address(state).state.stage is Failed,
    decreases state.addresses.len() - state.cursor,
{
    if state.cursor < state.addresses.len() {
        let address = state.addresses[state.cursor as int];
        if !well_formed_address(address) && state.config.policy == FailurePolicy::Tolerant {
            let rest = PipelineView { cursor: state.cursor + 1, ..state };
            assert(keys_from_processed(rest)) by {
                assert forall|i: int| 0 <= i < rest.results.len() implies processed(
                    rest.addresses,
                    rest.cursor,
                    (#[trigger] rest.results[i]).0,
                ) by {
                    lemma_processed_stays(state, rest, state.results[i].0);
                }
            }
            lemma_begin_address(rest);
        }
    }
}

/// An address before the cursor stays so while the cursor moves forward.
proof fn lemma_processed_stays(state: PipelineView, later: PipelineView, key: Seq<char>)
    requires
        processed(state.addresses, state.cursor, key),
        later.addresses == state.addresses,
        state.cursor <= later.cursor,
    ensures
        processed(later.addresses, later.cursor, key),
{
    let j = choose|j: int|
        0 <= j < state.cursor && j < state.addresses.len() && #[trigger] state.addresses[j] == key;
    assert(later.addresses[j] == key);
}

/// Moving past the address at the cursor, with or without an entry made
/// for it, keeps the invariant.
proof fn lemma_next_address(state: PipelineView, results: Seq<(Seq<char>, ResultEntryView)>)
    requires
        well_formed(state),
        state.stage is ProcessingAddresses,
        results == state.results || exists|entry: ResultEntryView|
            results == inserted(state.results, state.addresses[state.cursor as int], entry),
    ensures
        ready_for_address(PipelineView { cursor: state.cursor + 1, results, ..state }),
{
    let address = state.addresses[state.cursor as int];
    let moved = PipelineView { cursor: state.cursor + 1, results, ..state };
    if results != state.results {
        let entry = choose|entry: ResultEntryView|
            results == inserted(state.results, address, entry);
        lemma_inserted(state.results, address, entry);
    }
    assert forall|i: int| 0 <= i < moved.results.len() implies processed(
        moved.addresses,
        moved.cursor,
        (#[trigger] moved.results[i]).0,
    ) by {
        if moved.results[i].0 == address {
            assert(moved.addresses[state.cursor as int] == moved.results[i].0);
        } else {
            assert(moved.results[i] == state.results[i]);
            lemma_processed_stays(state, moved, state.results[i].0);
        }
    }
}

/// Every move keeps the invariant.
pub proof fn lemma_next_well_formed(state: PipelineView, event: EventView)
    requires
        well_formed(state),
    ensures
        well_formed(next(state, event).state),
        next(state, event).state.config == state.config,
{
    match state.stage {
        Stage::SetupDone | Stage::VerifierExported => {
            if let EventView::AddressesRead { lines: Some(lines) } = event {
                let loaded = PipelineView { addresses: lines, cursor: 0, ..state };
                assert(state.results =~= Seq::empty());
                lemma_begin_address(loaded);
            }
        },
        Stage::ProcessingAddresses { phase: Phase::Proof } => {
            lemma_next_address(state, state.results);
            lemma_begin_address(PipelineView { cursor: state.cursor + 1, ..state });
        },
        Stage::ProcessingAddresses { phase: Phase::Extract } => {
            if let EventView::ProofRead { text } = event {
                let address = state.addresses[state.cursor as int];
                match extraction(text) {
                    Ok(entry) => {
                        let results = inserted(state.results, address, entry);
                        lemma_next_address(state, results);
                        lemma_begin_address(
                            PipelineView { cursor: state.cursor + 1, results, ..state },
                        );
                    },
                    Err(_) => {
                        lemma_next_address(state, state.results);
                        lemma_begin_address(PipelineView { cursor: state.cursor + 1, ..state });
                    },
                }
            }
        },
        _ => {},
    }
}

/// The invariant holds of every state of every run, whatever is reported.
pub proof fn lemma_run_well_formed(config: ConfigView, events: Seq<EventView>)
    ensures
        well_formed(run(first_step(config).state, events)),
        run(first_step(config).state, events).config == config,
    decreases events.len(),
{
    if events.len() > 0 {
        lemma_run_well_formed(config, events.drop_last());
        lemma_next_well_formed(run(first_step(config).state, events.drop_last()), events.last());
    }
}

/// In every state of every run there are no more entries than addresses
/// worked through, no more of these than there are addresses, and every
/// entry is keyed by the very text of an address that was worked through. A
/// run that is done has worked through all of them.
pub proof fn lemma_entries_of_processed_addresses(config: ConfigView, events: Seq<EventView>)
    ensures
        ({
            let state = run(first_step(config).state, events);
            &&& state.results.len() <= state.cursor <= state.addresses.len()
            &&& distinct_keys(state.results)
            &&& forall|i: int|
                0 <= i < state.results.len() ==> processed(
                    state.addresses,
                    state.cursor,
                    (#[trigger] state.results[i]).0,
                )
            &&& state.stage is Done ==> state.cursor == state.addresses.len()
        }),
{
    lemma_run_well_formed(config, events);
    let state = run(first_step(config).state, events);
}

/// The addresses are worked through in their order, one at a time. While
/// they are, a move keeps the list, never moves the cursor back, passes over
/// no address that decodes, and asks for a witness only of the address at
/// the cursor.
pub proof fn lemma_addresses_in_order(state: PipelineView, event: EventView)
    requires
        well_formed(state),
        state.stage is ProcessingAddresses,
    ensures
        next(state, event).state.addresses == state.addresses,
        state.cursor <= next(state, event).state.cursor,
        forall|j: int|
            state.cursor < j < next(state, event).state.cursor ==> !well_formed_address(
                #[trigger] state.addresses[j],
            ),
        next(state, event).state.stage == (Stage::ProcessingAddresses { phase: Phase::Witness })
            ==> next(state, event).state.cursor > state.cursor && next(state, event).action == (
        ActionView::Invoke { invocation: current_witness_command(next(state, event).state) }),
{
    lemma_next_address(state, state.results);
    lemma_begin_address(PipelineView { cursor: state.cursor + 1, ..state });
    if let EventView::ProofRead { text } = event {
        if let Ok(entry) = extraction(text) {
            let results = inserted(state.results, state.addresses[state.cursor as int], entry);
            lemma_next_address(state, results);
            lemma_begin_address(PipelineView { cursor: state.cursor + 1, results, ..state });
        }
    }
}

/// In a strict run, a failed call of the toolchain for an address gives the
/// run up: the error names the call, and no entry is made.
pub proof fn lemma_strict_failure_is_fatal(state: PipelineView)
    requires
        well_formed(state),
        state.config.policy == FailurePolicy::Strict,
        state.stage == (Stage::ProcessingAddresses { phase: Phase::Witness }) || state.stage == (
        Stage::ProcessingAddresses { phase: Phase::Proof }),
    ensures
        ({
            let step = next(state, EventView::ToolFinished { success: false });
            &&& step.state.stage == Stage::Failed
            &&& step.state.results == state.results
            &&& step.state.cursor == state.cursor
            &&& step.action matches ActionView::Abort {
                error: ErrorView::ToolchainInvocationFailure { invocation },
            } && invocation == (if state.stage == (Stage::ProcessingAddresses {
                phase: Phase::Witness,
            }) {
                current_witness_command(state)
            } else {
                generate_proof_command(state.config.toolchain)
            })
        }),
{
}

/// A run that was given up stays so: whatever is reported, the state does
/// not change and nothing is asked for. So no address after the one that
/// failed gets an entry.
pub proof fn lemma_failed_is_final(state: PipelineView, events: Seq<EventView>)
    requires
        state.stage == Stage::Failed,
    ensures
        run(state, events) == state,
    decreases events.len(),
{
    if events.len() > 0 {
        lemma_failed_is_final(state, events.drop_last());
    }
}

/// In a tolerant run, a failed proof generation leaves the address without
/// an entry and the run goes on with the addresses after it.
pub proof fn lemma_tolerant_failure_skips(state: PipelineView)
    requires
        well_formed(state),
        state.config.policy == FailurePolicy::Tolerant,
        state.stage == (Stage::ProcessingAddresses { phase: Phase::Proof }),
    ensures
        ({
            let step = next(state, EventView::ToolFinished { success: false });
            &&& step.state.results == state.results
            &&& step.state.cursor > state.cursor
            &&& step.state.addresses == state.addresses
            &&& step.state.stage is ProcessingAddresses || step.state.stage is Done
            &&& step.diagnostics.len() > 0 && step.diagnostics[0] == (
            DiagnosticView::CommandFailed {
                invocation: generate_proof_command(state.config.toolchain),
            })
        }),
{
    lemma_next_address(state, state.results);
    lemma_begin_address(PipelineView { cursor: state.cursor + 1, ..state });
}

/// In a tolerant run, a failed witness computation is noted and the proof
/// generation is tried all the same.
pub proof fn lemma_tolerant_witness_failure_goes_on(state: PipelineView)
    requires
        state.config.policy == FailurePolicy::Tolerant,
        state.stage == (Stage::ProcessingAddresses { phase: Phase::Witness }),
    ensures
        ({
            let step = next(state, EventView::ToolFinished { success: false });
            &&& step.state == PipelineView {
                stage: Stage::ProcessingAddresses { phase: Phase::Proof },
                ..state
            }
            &&& step.action == ActionView::Invoke {
                invocation: generate_proof_command(state.config.toolchain),
            }
            &&& step.diagnostics == seq![
                DiagnosticView::CommandFailed { invocation: current_witness_command(state) },
            ]
        }),
{
    let step = next(state, EventView::ToolFinished { success: false });
    assert(step.diagnostics =~= seq![
        DiagnosticView::CommandFailed { invocation: current_witness_command(state) },
    ]);
}

/// A circuit file that exists is left alone: the run goes on to compile it.
/// The file is written only after it was looked for and not found.
pub proof fn lemma_circuit_written_only_if_absent(state: PipelineView, event: EventView)
    ensures
        state.stage == (Stage::Init { creating: false }) && event == (EventView::CircuitProbed {
            exists: true,
        }) ==> next(state, event).action == (ActionView::Invoke {
            invocation: compile_command(state.config.toolchain, state.config.circuit_path),
        }) && next(state, event).state.stage == Stage::CircuitReady,
        next(state, event).action is WriteCircuit ==> state.stage == (Stage::Init {
            creating: false,
        }) && event == (EventView::CircuitProbed { exists: false }),
{
    if let Stage::ProcessingAddresses { phase } = state.stage {
        lemma_begin_address_action(PipelineView { cursor: state.cursor + 1, ..state });
        if let EventView::ProofRead { text } = event {
            if let Ok(entry) = extraction(text) {
                lemma_begin_address_action(
                    PipelineView {
                        cursor: state.cursor + 1,
                        results: inserted(
                            state.results,
                            state.addresses[state.cursor as int],
                            entry,
                        ),
                        ..state
                    },
                );
            }
        }
    }
    if let EventView::AddressesRead { lines: Some(lines) } = event {
        lemma_begin_address_action(PipelineView { addresses: lines, cursor: 0, ..state });
    }
}

/// Moving to an address asks for a witness, for the results to be written,
/// or for the run to end.
proof fn lemma_begin_address_action(state: PipelineView)
    ensures
        begin_address(state).action is Invoke || begin_address(state).action is WriteOutput
            || begin_address(state).action is Abort,
    decreases state.addresses.len() - state.cursor,
{
    if state.cursor < state.addresses.len() {
        let address = state.addresses[state.cursor as int];
        if !well_formed_address(address) && state.config.policy == FailurePolicy::Tolerant {
            lemma_begin_address_action(PipelineView { cursor: state.cursor + 1, ..state });
        }
    }
}

impl PipelineConfig {
    /// The usual run: the toolchain `zokrates`, the circuit in
    /// `whitelist.zok`, the addresses in `addresses.txt`, the proof in
    /// `proof.json`, the results in `address-proof.json`, the verifier
    /// exported, and every failure of the toolchain fatal.
    pub fn standard() -> (config: PipelineConfig)
        ensures
            config@ == (ConfigView {
                toolchain: "zokrates"@,
                circuit_path: "whitelist.zok"@,
                addresses_path: "addresses.txt"@,
                proof_path: "proof.json"@,
                output_path: "address-proof.json"@,
                export_verifier: true,
                policy: FailurePolicy::Strict,
            }),
    {
        PipelineConfig {
            toolchain: "zokrates".to_owned(),
            circuit_path: "whitelist.zok".to_owned(),
            addresses_path: "addresses.txt".to_owned(),
            proof_path: "proof.json".to_owned(),
            output_path: "address-proof.json".to_owned(),
            export_verifier: true,
            policy: FailurePolicy::Strict,
        }
    }
}

/// What the driver answers to an event.
#[derive(Debug, Clone, PartialEq, Eq)]
pub struct Step {
    /// What is to be done next.
    pub action: Action,
    /// What is to be noted, in the order in which it happened.
    pub diagnostics: Vec<Diagnostic>,
}

/// What a list of diagnostics holds.
pub open spec fn notes_of(diagnostics: Seq<Diagnostic>) -> Seq<DiagnosticView> {
    diagnostics.map_values(|note: Diagnostic| note@)
}

/// The move that an answer of the driver stands for, with the state that
/// the driver came to.
pub open spec fn step_view(state: PipelineView, step: Step) -> StepView {
    StepView { state, action: step.action@, diagnostics: notes_of(step.diagnostics@) }
}

/// A run of the pipeline.
pub struct Pipeline {
    config: PipelineConfig,
    stage: Stage,
    addresses: Vec<String>,
    cursor: usize,
    results: ResultMap,
    /// The call of the toolchain that was asked for last.
    last_call: Invocation,
}

impl View for Pipeline {
    type V = PipelineView;

    closed spec fn view(&self) -> PipelineView {
        PipelineView {
            config: self.config@,
            stage: self.stage,
            addresses: texts(self.addresses@),
            cursor: self.cursor as nat,
            results: self.results@,
        }
    }
}

/// A list with no diagnostic in it.
fn no_notes() -> (notes: Vec<Diagnostic>)
    ensures
        notes_of(notes@) == Seq::<DiagnosticView>::empty(),
{
    let notes: Vec<Diagnostic> = Vec::new();
    assert(notes_of(notes@) =~= Seq::empty());
    notes
}

/// A list with one diagnostic in it.
fn one_note(note: Diagnostic) -> (notes: Vec<Diagnostic>)
    ensures
        notes_of(notes@) == seq![note@],
{
    let mut notes: Vec<Diagnostic> = Vec::new();
    notes.push(note);
    assert(notes_of(notes@) =~= seq![note@]);
    notes
}

impl Pipeline {
    /// Whether the call kept is the one that the stage waits for.
    spec fn call_kept(&self) -> bool {
        let toolchain = self.config@.toolchain;
        match self.stage {
            Stage::CircuitReady => self.last_call@ == compile_command(
                toolchain,
                self.config@.circuit_path,
            ),
            Stage::Compiled => self.last_call@ == setup_command(toolchain),
            Stage::SetupDone => self.config.export_verifier ==> self.last_call@
                == export_verifier_command(toolchain),
            Stage::ProcessingAddresses { phase: Phase::Witness } => self.last_call@
                == current_witness_command(self@),
            Stage::ProcessingAddresses { phase: Phase::Proof } => self.last_call@
                == generate_proof_command(toolchain),
            _ => true,
        }
    }

    /// The invariant of the run: that of its state, [`well_formed`], and
    /// that the run remembers the call it waits for.
    pub closed spec fn wf(&self) -> bool {
        &&& well_formed(self@)
        &&& self.call_kept()
    }

    /// Starts a run: the first thing to do is to look for the circuit file.
    pub fn start(config: PipelineConfig) -> (r: (Pipeline, Action))
        ensures
            r.0.wf(),
            well_formed(r.0@),
            r.0@ == first_step(config@).state,
            r.1@ == first_step(config@).action,
    {
        let action = Action::ProbeCircuit { path: config.circuit_path.clone() };
        let last_call = Invocation::compile(config.toolchain.as_str(), config.circuit_path.as_str());
        let pipeline = Pipeline {
            config,
            stage: Stage::Init { creating: false },
            addresses: Vec::new(),
            cursor: 0,
            results: ResultMap::new(),
            last_call,
        };
        assert(pipeline@.addresses =~= Seq::empty());
        (pipeline, action)
    }

    /// How far the run has come.
    pub fn stage(&self) -> (r: Stage)
        ensures
            r == self@.stage,
    {
        self.stage
    }

    /// How many addresses were worked through.
    pub fn cursor(&self) -> (r: usize)
        ensures
            r == self@.cursor,
    {
        self.cursor
    }

    /// The entries made so far.
    pub fn results(&self) -> (r: &ResultMap)
        ensures
            r@ == self@.results,
    {
        &self.results
    }

    /// What the run was made with.
    pub fn config(&self) -> (r: &PipelineConfig)
        ensures
            r@ == self@.config,
    {
        &self.config
    }

    /// The text to write to the output file: the document of the results,
    /// indented. It fails, with `OutputWriteFailure`, where and only where
    /// the document cannot be rendered.
    pub fn output_text(&self) -> (r: Result<String, PipelineError>)
        requires
            self.wf(),
        ensures
            match r {
                Ok(text) => json_pretty(results_json(self@.results)) == Some(text@),
                Err(error) => error@ == ErrorView::OutputWriteFailure && json_pretty(
                    results_json(self@.results),
                ) is None,
            },
    {
        match self.results.to_pretty_json() {
            Some(text) => Ok(text),
            None => Err(PipelineError::OutputWriteFailure),
        }
    }

    /// Gives the run up.
    fn give_up(&mut self, error: PipelineError) -> (step: Step)
        requires
            ready_for_address(old(self)@),
        ensures
            final(self).wf(),
            step_view(final(self)@, step) == give_up(old(self)@, error@),
    {
        self.stage = Stage::Failed;
        Step { action: Action::Abort { error }, diagnostics: no_notes() }
    }

    /// Changes the stage and asks for something that is no call of the
    /// toolchain.
    fn ask(&mut self, stage: Stage, action: Action) -> (step: Step)
        requires
            well_formed(PipelineView { stage, ..old(self)@ }),
            stage is Init || stage is VerifierExported || stage == (Stage::ProcessingAddresses {
                phase: Phase::Extract,
            }) || (stage is SetupDone && !old(self)@.config.export_verifier),
        ensures
            final(self).wf(),
            step_view(final(self)@, step) == proceed(old(self)@, stage, action@),
    {
        self.stage = stage;
        Step { action, diagnostics: no_notes() }
    }

    /// Changes the stage, asks for a call of the toolchain and keeps it.
    fn call(&mut self, stage: Stage, invocation: Invocation, notes: Vec<Diagnostic>) -> (step: Step)
        ensures
            final(self)@ == (PipelineView { stage, ..old(self)@ }),
            final(self).last_call@ == invocation@,
            step.action@ == (ActionView::Invoke { invocation: invocation@ }),
            step.diagnostics == notes,
    {
        self.last_call = invocation.copy();
        self.stage = stage;
        Step { action: Action::Invoke { invocation }, diagnostics: notes }
    }

    /// Moves to the address at the cursor, passing over those that a
    /// tolerant run passes over. The diagnostics `earlier` come first in
    /// the answer.
    fn begin(&mut self, earlier: Vec<Diagnostic>) -> (step: Step)
        requires
            ready_for_address(old(self)@),
        ensures
            final(self).wf(),
            final(self)@ == begin_address(old(self)@).state,
            step.action@ == begin_address(old(self)@).action,
            notes_of(step.diagnostics@) == notes_of(earlier@) + begin_address(
                old(self)@,
            ).diagnostics,
    {
        let ghost start = self@;
        let ghost first = notes_of(earlier@);
        let mut notes = earlier;
        proof {
            lemma_begin_address(start);
        }
        while self.cursor < self.addresses.len()
            invariant
                start == old(self)@,
                first == notes_of(earlier@),
                well_formed(begin_address(start).state),
                self@.cursor <= self@.addresses.len(),
                self@ == (PipelineView { cursor: self@.cursor, ..start }),
                begin_address(start).state == begin_address(self@).state,
                begin_address(start).action == begin_address(self@).action,
                first + begin_address(start).diagnostics == notes_of(notes@) + begin_address(
                    self@,
                ).diagnostics,
            decreases self.addresses.len() - self.cursor,
        {
            let ghost here = self@;
            assert(here.addresses[here.cursor as int] == self.addresses@[self.cursor as int]@);
            match encode_address(self.addresses[self.cursor].as_str()) {
                Ok(inputs) => {
                    let invocation = Invocation::compute_witness(
                        self.config.toolchain.as_str(),
                        &inputs,
                    );
                    let step = self.call(
                        Stage::ProcessingAddresses { phase: Phase::Witness },
                        invocation,
                        notes,
                    );
                    proof {
                        assert(begin_address(here).diagnostics =~= Seq::empty());
                        assert(notes_of(step.diagnostics@) + Seq::<DiagnosticView>::empty()
                            =~= notes_of(step.diagnostics@));
                        assert(current_witness_command(self@) == current_witness_command(here));
                    }
                    return step;
                },
                Err(failure) => {
                    let address = self.addresses[self.cursor].clone();
                    match self.config.policy {
                        FailurePolicy::Strict => {
                            self.stage = Stage::Failed;
                            proof {
                                assert(begin_address(here).diagnostics =~= Seq::empty());
                                assert(notes_of(notes@) + Seq::<DiagnosticView>::empty()
                                    =~= notes_of(notes@));
                            }
                            return Step {
                                action: Action::Abort {
                                    error: PipelineError::AddressDecodeFailure { address, failure },
                                },
                                diagnostics: notes,
                            };
                        },
                        FailurePolicy::Tolerant => {
                            let ghost kept = notes_of(notes@);
                            let note = Diagnostic::AddressSkipped { address, failure };
                            let ghost noted = note@;
                            notes.push(note);
                            self.cursor = self.cursor + 1;
                            proof {
                                assert(notes_of(notes@) =~= kept.push(noted));
                                let rest = begin_address(self@);
                                assert(begin_address(here) == noting(noted, rest));
                                assert(kept + (seq![noted] + rest.diagnostics) =~= kept.push(noted)
                                    + rest.diagnostics);
                            }
                        },
                    }
                },
            }
        }
        self.stage = Stage::Done;
        proof {
            assert(notes_of(notes@) + Seq::<DiagnosticView>::empty() =~= notes_of(notes@));
        }
        Step {
            action: Action::WriteOutput { path: self.config.output_path.clone() },
            diagnostics: notes,
        }
    }

    /// Moves past the address at the cursor, to the next.
    fn begin_next(&mut self, earlier: Vec<Diagnostic>) -> (step: Step)
        requires
            ready_for_address(PipelineView { cursor: old(self)@.cursor + 1, ..old(self)@ }),
        ensures
            final(self).wf(),
            final(self)@ == next_address(old(self)@).state,
            step.action@ == next_address(old(self)@).action,
            notes_of(step.diagnostics@) == notes_of(earlier@) + next_address(
                old(self)@,
            ).diagnostics,
    {
        let n: usize = self.addresses.len();
        assert(self@.addresses.len() == n);
        self.cursor = self.cursor + 1;
        self.begin(earlier)
    }

    /// Takes the addresses that were read, or gives the run up where they
    /// were not.
    fn load(&mut self, lines: Option<Vec<String>>) -> (step: Step)
        requires
            old(self).wf(),
            old(self)@.stage is SetupDone || old(self)@.stage is VerifierExported,
        ensures
            final(self).wf(),
            step_view(final(self)@, step) == after_addresses(
                old(self)@,
                match lines {
                    Some(lines) => Some(texts(lines@)),
                    None => None,
                },
            ),
    {
        match lines {
            Some(lines) => {
                self.addresses = lines;
                self.cursor = 0;
                assert(self@.results =~= Seq::empty());
                let ghost loaded = self@;
                let step = self.begin(no_notes());
                assert(Seq::<DiagnosticView>::empty() + begin_address(loaded).diagnostics
                    =~= begin_address(loaded).diagnostics);
                step
            },
            None => self.give_up(PipelineError::AddressListUnreadable),
        }
    }

    /// The answer while the circuit file is looked for or written.
    fn on_init(&mut self, creating: bool, event: Event) -> (step: Step)
        requires
            old(self).wf(),
            old(self)@.stage == (Stage::Init { creating }),
        ensures
            final(self).wf(),
            step_view(final(self)@, step) == on_init(old(self)@, creating, event@),
    {
        match event {
            Event::CircuitProbed { exists } => {
                if creating {
                    self.give_up(PipelineError::UnexpectedEvent)
                } else if exists {
                    self.compile()
                } else {
                    let action = Action::WriteCircuit {
                        path: self.config.circuit_path.clone(),
                        contents: circuit_source().to_owned(),
                    };
                    self.ask(Stage::Init { creating: true }, action)
                }
            },
            Event::CircuitWritten { written } => {
                if !creating {
                    self.give_up(PipelineError::UnexpectedEvent)
                } else if written {
                    self.compile()
                } else {
                    self.give_up(PipelineError::ConfigurationAbsent)
                }
            },
            _ => self.give_up(PipelineError::UnexpectedEvent),
        }
    }

    /// Asks for the circuit to be compiled.
    fn compile(&mut self) -> (step: Step)
        requires
            old(self).wf(),
            old(self)@.stage is Init,
        ensures
            final(self).wf(),
            step_view(final(self)@, step) == proceed(
                old(self)@,
                Stage::CircuitReady,
                compile_action(old(self)@.config),
            ),
    {
        let invocation = Invocation::compile(
            self.config.toolchain.as_str(),
            self.config.circuit_path.as_str(),
        );
        self.call(Stage::CircuitReady, invocation, no_notes())
    }

    /// Gives the run up for the call that failed.
    fn call_failed(&mut self) -> (step: Step)
        requires
            old(self).wf(),
        ensures
            final(self).wf(),
            step_view(final(self)@, step) == give_up(
                old(self)@,
                ErrorView::ToolchainInvocationFailure { invocation: old(self).last_call@ },
            ),
    {
        let invocation = self.last_call.copy();
        self.give_up(PipelineError::ToolchainInvocationFailure { invocation })
    }

    /// The answer after the circuit was compiled.
    fn on_circuit_ready(&mut self, event: Event) -> (step: Step)
        requires
            old(self).wf(),
            old(self)@.stage == Stage::CircuitReady,
        ensures
            final(self).wf(),
            step_view(final(self)@, step) == on_circuit_ready(old(self)@, event@),
    {
        match event {
            Event::ToolFinished { success } => {
                if success {
                    let invocation = Invocation::setup(self.config.toolchain.as_str());
                    self.call(Stage::Compiled, invocation, no_notes())
                } else {
                    self.call_failed()
                }
            },
            _ => self.give_up(PipelineError::UnexpectedEvent),
        }
    }

    /// The answer after the keys were set up.
    fn on_compiled(&mut self, event: Event) -> (step: Step)
        requires
            old(self).wf(),
            old(self)@.stage == Stage::Compiled,
        ensures
            final(self).wf(),
            step_view(final(self)@, step) == on_compiled(old(self)@, event@),
    {
        match event {
            Event::ToolFinished { success } => {
                if !success {
                    self.call_failed()
                } else if self.config.export_verifier {
                    let invocation = Invocation::export_verifier(self.config.toolchain.as_str());
                    self.call(Stage::SetupDone, invocation, no_notes())
                } else {
                    let action = Action::ReadAddresses { path: self.config.addresses_path.clone() };
                    self.ask(Stage::SetupDone, action)
                }
            },
            _ => self.give_up(PipelineError::UnexpectedEvent),
        }
    }

    /// The answer after the setup.
    fn on_setup_done(&mut self, event: Event) -> (step: Step)
        requires
            old(self).wf(),
            old(self)@.stage == Stage::SetupDone,
        ensures
            final(self).wf(),
            step_view(final(self)@, step) == on_setup_done(old(self)@, event@),
    {
        match event {
            Event::ToolFinished { success } => {
                if !self.config.export_verifier {
                    self.give_up(PipelineError::UnexpectedEvent)
                } else if success {
                    let action = Action::ReadAddresses { path: self.config.addresses_path.clone() };
                    self.ask(Stage::VerifierExported, action)
                } else {
                    self.call_failed()
                }
            },
            Event::AddressesRead { lines } => {
                if self.config.export_verifier {
                    self.give_up(PipelineError::UnexpectedEvent)
                } else {
                    self.load(lines)
                }
            },
            _ => self.give_up(PipelineError::UnexpectedEvent),
        }
    }

    /// The answer after the verifier was exported.
    fn on_verifier_exported(&mut self, event: Event) -> (step: Step)
        requires
            old(self).wf(),
            old(self)@.stage == Stage::VerifierExported,
        ensures
            final(self).wf(),
            step_view(final(self)@, step) == on_verifier_exported(old(self)@, event@),
    {
        match event {
            Event::AddressesRead { lines } => self.load(lines),
            _ => self.give_up(PipelineError::UnexpectedEvent),
        }
    }

    /// The answer after the witness of an address was computed.
    fn on_witness(&mut self, event: Event) -> (step: Step)
        requires
            old(self).wf(),
            old(self)@.stage == (Stage::ProcessingAddresses { phase: Phase::Witness }),
        ensures
            final(self).wf(),
            step_view(final(self)@, step) == on_witness(old(self)@, event@),
    {
        match event {
            Event::ToolFinished { success } => {
                let notes = if success {
                    no_notes()
                } else {
                    match self.config.policy {
                        FailurePolicy::Strict => {
                            return self.call_failed();
                        },
                        FailurePolicy::Tolerant => one_note(
                            Diagnostic::CommandFailed { invocation: self.last_call.copy() },
                        ),
                    }
                };
                proof {
                    assert(notes_of(notes@) =~= notes_of(notes@) + Seq::<DiagnosticView>::empty());
                }
                let invocation = Invocation::generate_proof(self.config.toolchain.as_str());
                self.call(Stage::ProcessingAddresses { phase: Phase::Proof }, invocation, notes)
            },
            _ => self.give_up(PipelineError::UnexpectedEvent),
        }
    }

    /// The answer after the proof of an address was generated.
    fn on_proof(&mut self, event: Event) -> (step: Step)
        requires
            old(self).wf(),
            old(self)@.stage == (Stage::ProcessingAddresses { phase: Phase::Proof }),
        ensures
            final(self).wf(),
            step_view(final(self)@, step) == on_proof(old(self)@, event@),
    {
        match event {
            Event::ToolFinished { success } => {
                if success {
                    let action = Action::ReadProof { path: self.config.proof_path.clone() };
                    self.ask(Stage::ProcessingAddresses { phase: Phase::Extract }, action)
                } else {
                    match self.config.policy {
                        FailurePolicy::Strict => self.call_failed(),
                        FailurePolicy::Tolerant => {
                            let notes = one_note(
                                Diagnostic::CommandFailed { invocation: self.last_call.copy() },
                            );
                            proof {
                                lemma_next_address(self@, self@.results);
                            }
                            self.begin_next(notes)
                        },
                    }
                }
            },
            _ => self.give_up(PipelineError::UnexpectedEvent),
        }
    }

    /// The answer after the artifact of an address was read.
    fn on_extract(&mut self, event: Event) -> (step: Step)
        requires
            old(self).wf(),
            old(self)@.stage == (Stage::ProcessingAddresses { phase: Phase::Extract }),
        ensures
            final(self).wf(),
            step_view(final(self)@, step) == on_extract(old(self)@, event@),
    {
        let ghost before = self@;
        match event {
            Event::ProofRead { text } => {
                let n: usize = self.addresses.len();
                assert(before.addresses.len() == n);
                let address = self.addresses[self.cursor].clone();
                assert(address@ == before.addresses[before.cursor as int]);
                let outcome = match text {
                    None => Err(ProofParseFailure::Unreadable),
                    Some(text) => extract(text.as_str()),
                };
                match outcome {
                    Ok(pair) => {
                        let entry = ResultEntry { proof: pair.0, inputs: pair.1 };
                        proof {
                            assert(extraction(event@->ProofRead_text) == Ok::<
                                ResultEntryView,
                                ProofParseFailure,
                            >(entry@));
                            lemma_next_address(before, inserted(before.results, address@, entry@));
                        }
                        self.results.insert(address, entry);
                        let step = self.begin_next(no_notes());
                        proof {
                            let expected = on_extract(before, event@);
                            assert(Seq::<DiagnosticView>::empty() + expected.diagnostics
                                =~= expected.diagnostics);
                        }
                        step
                    },
                    Err(failure) => {
                        let notes = one_note(Diagnostic::ProofSkipped { address, failure });
                        proof {
                            lemma_next_address(before, before.results);
                        }
                        self.begin_next(notes)
                    },
                }
            },
            _ => self.give_up(PipelineError::UnexpectedEvent),
        }
    }

    /// Takes the event that came of the last action and says what is to be
    /// done next. The rules are those of [`next`].
    pub fn step(&mut self, event: Event) -> (step: Step)
        requires
            old(self).wf(),
        ensures
            final(self).wf(),
            well_formed(final(self)@),
            step_view(final(self)@, step) == next(old(self)@, event@),
    {
        match self.stage {
            Stage::Init { creating } => self.on_init(creating, event),
            Stage::CircuitReady => self.on_circuit_ready(event),
            Stage::Compiled => self.on_compiled(event),
            Stage::SetupDone => self.on_setup_done(event),
            Stage::VerifierExported => self.on_verifier_exported(event),
            Stage::ProcessingAddresses { phase: Phase::Witness } => self.on_witness(event),
            Stage::ProcessingAddresses { phase: Phase::Proof } => self.on_proof(event),
            Stage::ProcessingAddresses { phase: Phase::Extract } => self.on_extract(event),
            Stage::Done => Step { action: Action::Stop, diagnostics: no_notes() },
            Stage::Failed => Step { action: Action::Stop, diagnostics: no_notes() },
        }
    }
}

} // verus!

//! Proof generation, as far as it is decided here: the inputs file that the
//! external proving tool reads, the order of the tool's stages and what
//! each must leave behind, and the check of what comes out. Running the
//! tool and touching files is left to the caller.

use crate::bytes::{le_bytes, le_value, u64_le_bytes, write_at, zeros};
use crate::field::{bytes_to_field, field_to_bytes, fr_modulus, FieldElement};
use crate::types::{Commitment, Nullifier, Secret};
use vstd::prelude::*;
use vstd::string::StringExecFns;

verus! {

/// The most bytes of action parameters that the ownership circuit takes.
pub const ACTION_PARAMS_MAX_LEN: usize = 32;

/// Length of the public witness that the proving tool must produce.
pub const PUBLIC_WITNESS_SIZE: usize = 5132;

/// The decimal digit `d`.
pub open spec fn digit(d: nat) -> char {
    if d == 0 {
        '0'
    } else if d == 1 {
        '1'
    } else if d == 2 {
        '2'
    } else if d == 3 {
        '3'
    } else if d == 4 {
        '4'
    } else if d == 5 {
        '5'
    } else if d == 6 {
        '6'
    } else if d == 7 {
        '7'
    } else if d == 8 {
        '8'
    } else {
        '9'
    }
}

/// The decimal numeral of `n`, without leading zeros.
pub open spec fn decimal_digits(n: nat) -> Seq<char>
    decreases n,
{
    if n < 10 {
        seq![digit(n)]
    } else {
        decimal_digits(n / 10).push(digit(n % 10))
    }
}

/// A list of bytes as text: the decimal numerals, separated by a comma and
/// a space.
pub open spec fn joined_bytes(bytes: Seq<u8>) -> Seq<char>
    decreases bytes.len(),
{
    if bytes.len() == 0 {
        Seq::empty()
    } else if bytes.len() == 1 {
        decimal_digits(bytes[0] as nat)
    } else {
        joined_bytes(bytes.drop_last()) + ", "@ + decimal_digits(bytes.last() as nat)
    }
}

/// An array of bytes as the inputs file writes it: the list in square
/// brackets.
pub open spec fn byte_array_text(bytes: Seq<u8>) -> Seq<char> {
    "["@ + joined_bytes(bytes) + "]"@
}

/// The action parameters padded with zeros to `ACTION_PARAMS_MAX_LEN`.
pub open spec fn padded_params(action_params: Seq<u8>) -> Seq<u8> {
    action_params + zeros((32 - action_params.len()) as nat)
}

/// The inputs file: the secret as the decimal numeral of its field
/// element, every public input as an array of bytes, the parameters padded
/// to 32 bytes with their true length, and the nonce in little-endian.
pub open spec fn prover_toml_text(
    secret: Seq<u8>,
    commitment: Seq<u8>,
    pda: Seq<u8>,
    program_id: Seq<u8>,
    action_hash: Seq<u8>,
    nullifier: Seq<u8>,
    action_params: Seq<u8>,
    nonce: u64,
) -> Seq<char> {
    "secret = \""@ + decimal_digits(le_value(secret) % fr_modulus()) + "\"\ncommitment = "@
        + byte_array_text(commitment) + "\npda = "@ + byte_array_text(pda) + "\nprogram_id = "@
        + byte_array_text(program_id) + "\naction_hash = "@ + byte_array_text(action_hash)
        + "\nnullifier = "@ + byte_array_text(nullifier) + "\naction_params = "@
        + byte_array_text(padded_params(action_params)) + "\naction_params_len = "@
        + decimal_digits(action_params.len()) + "\nnonce = "@ + byte_array_text(
        le_bytes(nonce as nat, 8),
    ) + "\n"@
}

/// Trusted: `u64`'s `to_string`, the `Display` of an unsigned integer. The
/// contract claims that the text is the decimal numeral of the number,
/// without sign or leading zeros.
#[verifier::external_body]
fn decimal(n: u64) -> (text: String)
    ensures
        text@ == decimal_digits(n as nat),
{
    n.to_string()
}

/// Trusted: `num_bigint::BigUint::from_bytes_le`, then `to_str_radix(10)`.
/// The contract claims that the text is the decimal numeral of the number
/// that the bytes stand for in little-endian.
#[verifier::external_body]
fn big_decimal(le: &[u8]) -> (text: String)
    ensures
        text@ == decimal_digits(le_value(le@)),
{
    num_bigint::BigUint::from_bytes_le(le).to_str_radix(10)
}

/// The decimal numeral of a field element.
pub fn field_to_decimal_string(field: &FieldElement) -> (text: String)
    ensures
        text@ == decimal_digits(field.value()),
{
    let bytes = field_to_bytes(field);
    big_decimal(bytes.as_slice())
}

/// An array of bytes as the inputs file writes it.
pub fn format_byte_array(bytes: &[u8]) -> (text: String)
    ensures
        text@ == byte_array_text(bytes@),
{
    let mut out = String::from_str("[");
    let mut i: usize = 0;
    while i < bytes.len()
        invariant
            i <= bytes@.len(),
            out@ == "["@ + joined_bytes(bytes@.take(i as int)),
        decreases bytes@.len() - i,
    {
        let ghost before = out@;
        if i > 0 {
            out.append(", ");
        }
        let item = decimal(bytes[i] as u64);
        out.append(item.as_str());
        proof {
            let taken = bytes@.take(i + 1);
            assert(taken.drop_last() =~= bytes@.take(i as int));
            assert(taken.last() == bytes@[i as int]);
            if i == 0 {
                assert(bytes@.take(0).len() == 0);
                assert(out@ =~= "["@ + joined_bytes(taken));
            } else {
                assert(out@ =~= "["@ + joined_bytes(taken));
            }
        }
        i += 1;
    }
    assert(bytes@.take(i as int) =~= bytes@);
    out.append("]");
    out
}

/// A file that a stage of the proving tool leaves in the target directory.
#[derive(Clone, Copy, Debug, PartialEq, Eq)]
pub enum Artifact {
    /// The compiled circuit: `<circuit>.json`.
    Acir,
    /// The solved witness: `zaffre_witness.gz`.
    Witness,
    /// The constraint system: `<circuit>.ccs`.
    Ccs,
    /// The proving key: `<circuit>.pk`.
    ProvingKey,
    /// The verifying key: `<circuit>.vk`.
    VerifyingKey,
    /// The proof: `<circuit>.proof`.
    Proof,
    /// The public witness: `<circuit>.pw`.
    PublicWitness,
}

/// Why no proof was generated.
#[derive(Clone, Debug, PartialEq, Eq)]
pub enum ProverError {
    /// A file could not be read or written, or a tool not started.
    Io,
    /// The circuit's manifest is not valid TOML.
    Toml,
    /// A tool is not installed.
    MissingTool(String),
    /// A tool ended with a failure.
    CommandFailed { cmd: String, stdout: String, stderr: String },
    /// A stage went through and did not leave the file that it must.
    MissingOutput(Artifact),
    /// The public witness has not 5132 bytes but this many.
    InvalidPublicWitness(usize),
    /// The circuit's manifest names no package.
    MissingCircuitName,
    /// The action parameters are longer than 32 bytes: this many.
    ActionParamsTooLong(usize),
}

/// What the proving tool has produced.
#[derive(Clone, Debug, PartialEq, Eq)]
pub struct ProofResult {
    pub proof: Vec<u8>,
    pub public_witness: Vec<u8>,
    /// The proof's file, in the target directory.
    pub proof_path: String,
    /// The public witness's file, in the target directory.
    pub public_witness_path: String,
}

/// The name of the solved witness, without its extension.
pub open spec fn witness_name() -> Seq<char> {
    "zaffre_witness"@
}

/// The file name of an artifact of a circuit.
pub open spec fn artifact_name(circuit_name: Seq<char>, artifact: Artifact) -> Seq<char> {
    match artifact {
        Artifact::Acir => circuit_name + ".json"@,
        Artifact::Witness => witness_name() + ".gz"@,
        Artifact::Ccs => circuit_name + ".ccs"@,
        Artifact::ProvingKey => circuit_name + ".pk"@,
        Artifact::VerifyingKey => circuit_name + ".vk"@,
        Artifact::Proof => circuit_name + ".proof"@,
        Artifact::PublicWitness => circuit_name + ".pw"@,
    }
}

/// The file name of an artifact of a circuit.
pub fn artifact_file(circuit_name: &str, artifact: Artifact) -> (name: String)
    ensures
        name@ == artifact_name(circuit_name@, artifact),
{
    match artifact {
        Artifact::Acir => String::from_str(circuit_name).concat(".json"),
        Artifact::Witness => String::from_str("zaffre_witness").concat(".gz"),
        Artifact::Ccs => String::from_str(circuit_name).concat(".ccs"),
        Artifact::ProvingKey => String::from_str(circuit_name).concat(".pk"),
        Artifact::VerifyingKey => String::from_str(circuit_name).concat(".vk"),
        Artifact::Proof => String::from_str(circuit_name).concat(".proof"),
        Artifact::PublicWitness => String::from_str(circuit_name).concat(".pw"),
    }
}

/// Writes the inputs file of the proving tool. Action parameters of more
/// than 32 bytes are refused.
pub fn write_prover_toml(
    secret: &Secret,
    commitment: &Commitment,
    pda: &[u8; 32],
    program_id: &[u8; 32],
    action_hash: &[u8; 32],
    nullifier: &Nullifier,
    action_params: &[u8],
    nonce: u64,
) -> (content: Result<String, ProverError>)
    ensures
        content is Ok <==> action_params@.len() <= 32,
        content is Ok ==> content.unwrap()@ == prover_toml_text(
            secret@,
            commitment@,
            pda@,
            program_id@,
            action_hash@,
            nullifier@,
            action_params@,
            nonce,
        ),
        content is Err ==> content.unwrap_err() == ProverError::ActionParamsTooLong(
            action_params.len(),
        ),
{
    let secret_field = bytes_to_field(secret.as_bytes());
    let secret_dec = field_to_decimal_string(&secret_field);
    if action_params.len() > ACTION_PARAMS_MAX_LEN {
        return Err(ProverError::ActionParamsTooLong(action_params.len()));
    }
    let mut action_params_padded = [0u8; 32];
    write_at(&mut action_params_padded, 0, action_params);
    assert(action_params_padded@ =~= padded_params(action_params@));
    let nonce_bytes = u64_le_bytes(nonce);

    let mut content = String::from_str("secret = \"");
    content.append(secret_dec.as_str());
    content.append("\"\ncommitment = ");
    content.append(format_byte_array(commitment.as_bytes().as_slice()).as_str());
    content.append("\npda = ");
    content.append(format_byte_array(pda.as_slice()).as_str());
    content.append("\nprogram_id = ");
    content.append(format_byte_array(program_id.as_slice()).as_str());
    content.append("\naction_hash = ");
    content.append(format_byte_array(action_hash.as_slice()).as_str());
    content.append("\nnullifier = ");
    content.append(format_byte_array(nullifier.as_bytes().as_slice()).as_str());
    content.append("\naction_params = ");
    content.append(format_byte_array(action_params_padded.as_slice()).as_str());
    content.append("\naction_params_len = ");
    content.append(decimal(action_params.len() as u64).as_str());
    content.append("\nnonce = ");
    content.append(format_byte_array(nonce_bytes.as_slice()).as_str());
    content.append("\n");
    Ok(content)
}

/// A text without the white space at its ends.
pub uninterp spec fn trimmed(text: Seq<char>) -> Seq<char>;

/// Trusted: `str::trim`. The contract names the result: the text without
/// leading and trailing white space, as Unicode defines it.
#[verifier::external_body]
fn trim(text: &str) -> (inner: &str)
    ensures
        inner@ == trimmed(text@),
{
    text.trim()
}

/// The name of the circuit, given the name of the package in its manifest,
/// if the manifest has one: a name that is not blank.
pub fn read_circuit_name(package_name: Option<String>) -> (name: Result<String, ProverError>)
    ensures
        name is Ok <==> package_name is Some && trimmed(package_name.unwrap()@).len() > 0,
        name is Ok ==> name.unwrap() == package_name.unwrap(),
        name is Err ==> name.unwrap_err() == ProverError::MissingCircuitName,
{
    match package_name {
        Some(name) => {
            if trim(name.as_str()).is_empty() {
                Err(ProverError::MissingCircuitName)
            } else {
                Ok(name)
            }
        },
        None => Err(ProverError::MissingCircuitName),
    }
}

/// How far the generation of a proof has come.
#[derive(Clone, Copy, Debug, PartialEq, Eq)]
pub enum ProverStage {
    /// The inputs file is written; nothing has run.
    Start,
    /// `nargo execute` has gone through.
    Executed,
    /// The constraint system is at hand or `sunspot compile` has gone
    /// through.
    Compiled,
    /// The keys are at hand or `sunspot setup` has gone through.
    SetUp,
    /// `sunspot prove` has gone through.
    Proved,
}

/// Which artifacts the target directory holds.
#[derive(Clone, Copy, Debug, PartialEq, Eq)]
pub struct TargetFiles {
    pub acir: bool,
    pub witness: bool,
    pub ccs: bool,
    pub proving_key: bool,
    pub verifying_key: bool,
    pub proof: bool,
    pub public_witness: bool,
}

/// What to do next.
#[derive(Clone, Copy, Debug, PartialEq, Eq)]
pub enum ProverStep {
    /// Run `nargo execute zaffre_witness` in the circuit's directory.
    Execute,
    /// Run `sunspot compile` on the compiled circuit, in the circuit's
    /// directory.
    Compile,
    /// Run `sunspot setup` on the constraint system, in the circuit's
    /// directory.
    Setup,
    /// Run `sunspot prove` on the compiled circuit, the witness, the
    /// constraint system and the proving key, in the target directory.
    Prove,
    /// Read the proof and the public witness.
    ReadOutputs,
    /// Give up: a stage did not leave this artifact.
    Missing(Artifact),
}

/// How far a stage is from the end.
pub open spec fn stages_left(stage: ProverStage) -> nat {
    match stage {
        ProverStage::Start => 4,
        ProverStage::Executed => 3,
        ProverStage::Compiled => 2,
        ProverStage::SetUp => 1,
        ProverStage::Proved => 0,
    }
}

/// The step that follows a stage, given what the target directory holds
/// once the stage's command has gone through, and the stage that the step
/// leads to. A stage whose artifact is at hand is not run again: the
/// constraint system is compiled only where it is missing, and the keys
/// are set up only where one is missing.
pub open spec fn step_after(stage: ProverStage, files: TargetFiles) -> (ProverStage, ProverStep)
    decreases stages_left(stage),
{
    match stage {
        ProverStage::Start => (ProverStage::Executed, ProverStep::Execute),
        ProverStage::Executed => if !files.acir {
            (stage, ProverStep::Missing(Artifact::Acir))
        } else if !files.witness {
            (stage, ProverStep::Missing(Artifact::Witness))
        } else if !files.ccs {
            (ProverStage::Compiled, ProverStep::Compile)
        } else {
            step_after(ProverStage::Compiled, files)
        },
        ProverStage::Compiled => if !files.ccs {
            (stage, ProverStep::Missing(Artifact::Ccs))
        } else if !files.proving_key || !files.verifying_key {
            (ProverStage::SetUp, ProverStep::Setup)
        } else {
            step_after(ProverStage::SetUp, files)
        },
        ProverStage::SetUp => if !files.proving_key {
            (stage, ProverStep::Missing(Artifact::ProvingKey))
        } else if !files.verifying_key {
            (stage, ProverStep::Missing(Artifact::VerifyingKey))
        } else {
            (ProverStage::Proved, ProverStep::Prove)
        },
        ProverStage::Proved => if !files.proof {
            (stage, ProverStep::Missing(Artifact::Proof))
        } else if !files.public_witness {
            (stage, ProverStep::Missing(Artifact::PublicWitness))
        } else {
            (stage, ProverStep::ReadOutputs)
        },
    }
}

/// The step that follows a stage, and the stage that it leads to.
pub fn next_step(stage: ProverStage, files: &TargetFiles) -> (next: (ProverStage, ProverStep))
    ensures
        next == step_after(stage, *files),
    decreases stages_left(stage),
{
    match stage {
        ProverStage::Start => (ProverStage::Executed, ProverStep::Execute),
        ProverStage::Executed => {
            if !files.acir {
                (stage, ProverStep::Missing(Artifact::Acir))
            } else if !files.witness {
                (stage, ProverStep::Missing(Artifact::Witness))
            } else if !files.ccs {
                (ProverStage::Compiled, ProverStep::Compile)
            } else {
                next_step(ProverStage::Compiled, files)
            }
        },
        ProverStage::Compiled => {
            if !files.ccs {
                (stage, ProverStep::Missing(Artifact::Ccs))
            } else if !files.proving_key || !files.verifying_key {
                (ProverStage::SetUp, ProverStep::Setup)
            } else {
                next_step(ProverStage::SetUp, files)
            }
        },
        ProverStage::SetUp => {
            if !files.proving_key {
                (stage, ProverStep::Missing(Artifact::ProvingKey))
            } else if !files.verifying_key {
                (stage, ProverStep::Missing(Artifact::VerifyingKey))
            } else {
                (ProverStage::Proved, ProverStep::Prove)
            }
        },
        ProverStage::Proved => {
            if !files.proof {
                (stage, ProverStep::Missing(Artifact::Proof))
            } else if !files.public_witness {
                (stage, ProverStep::Missing(Artifact::PublicWitness))
            } else {
                (stage, ProverStep::ReadOutputs)
            }
        },
    }
}

/// Whether a step runs a command of the proving tool.
pub open spec fn runs_command(step: ProverStep) -> bool {
    step is Execute || step is Compile || step is Setup || step is Prove
}

/// The generation ends: a step that runs a command leads to a later stage,
/// so that at most four commands run, each at most once; every other step
/// ends the generation at the stage where it is, and the outputs are read
/// only once the proof stage has left both of them.
pub proof fn lemma_generation_advances(stage: ProverStage, files: TargetFiles)
    ensures
        runs_command(step_after(stage, files).1) ==> stages_left(step_after(stage, files).0)
            < stages_left(stage),
        !runs_command(step_after(stage, files).1) ==> (step_after(stage, files).1 is Missing
            || step_after(stage, files).1 is ReadOutputs),
        step_after(stage, files).1 is ReadOutputs ==> stage is Proved && files.proof
            && files.public_witness,
    decreases stages_left(stage),
{
    match stage {
        ProverStage::Executed => {
            lemma_generation_advances(ProverStage::Compiled, files);
        },
        ProverStage::Compiled => {
            lemma_generation_advances(ProverStage::SetUp, files);
        },
        _ => {},
    }
}

/// What the proving tool has produced, once the proof and the public
/// witness are read. A public witness of another length than 5132 bytes is
/// refused.
pub fn generate_proof(circuit_name: &str, proof: Vec<u8>, public_witness: Vec<u8>) -> (result:
    Result<ProofResult, ProverError>)
    ensures
        result is Ok <==> public_witness@.len() == 5132,
        result is Ok ==> {
            &&& result.unwrap().proof == proof
            &&& result.unwrap().public_witness == public_witness
            &&& result.unwrap().proof_path@ == artifact_name(circuit_name@, Artifact::Proof)
            &&& result.unwrap().public_witness_path@ == artifact_name(
                circuit_name@,
                Artifact::PublicWitness,
            )
        },
        result is Err ==> result.unwrap_err() == ProverError::InvalidPublicWitness(
            public_witness.len(),
        ),
{
    if public_witness.len() != PUBLIC_WITNESS_SIZE {
        return Err(ProverError::InvalidPublicWitness(public_witness.len()));
    }
    Ok(
        ProofResult {
            proof,
            public_witness,
            proof_path: artifact_file(circuit_name, Artifact::Proof),
            public_witness_path: artifact_file(circuit_name, Artifact::PublicWitness),
        },
    )
}

/// How the run of a command ended.
#[derive(Clone, Debug, PartialEq, Eq)]
pub enum CommandReport {
    /// The program was not found.
    NotFound,
    /// The program could not be started for another reason.
    NotStarted,
    /// The program ran to its end.
    Exited { success: bool, stdout: String, stderr: String },
}

/// Whether a command has gone through, and the failure where it has not: a
/// program that is not found is a missing tool, and one that ends without
/// success is a failed command with what it printed.
pub fn run_cmd(program: &str, cmd: &str, report: CommandReport) -> (done: Result<(), ProverError>)
    ensures
        match done {
            Ok(_) => report matches CommandReport::Exited { success: true, .. },
            Err(ProverError::MissingTool(tool)) => report is NotFound && tool@ == program@,
            Err(ProverError::Io) => report is NotStarted,
            Err(ProverError::CommandFailed { cmd: failed, stdout: out, stderr: err }) => match report {
                CommandReport::Exited { success, stdout, stderr } => !success && failed@ == cmd@
                    && out == stdout && err == stderr,
                _ => false,
            },
            Err(_) => false,
        },
{
    match report {
        CommandReport::NotFound => Err(ProverError::MissingTool(String::from_str(program))),
        CommandReport::NotStarted => Err(ProverError::Io),
        CommandReport::Exited { success, stdout, stderr } => {
            if success {
                Ok(())
            } else {
                Err(ProverError::CommandFailed { cmd: String::from_str(cmd), stdout, stderr })
            }
        },
    }
}

/// The program to run for a tool: the override from the environment where
/// there is one, else the tool's name, to be found on the search path.
pub fn tool_path(name: &str, from_environment: Option<String>) -> (path: String)
    ensures
        path@ == (match from_environment {
            Some(given) => given@,
            None => name@,
        }),
{
    match from_environment {
        Some(given) => given,
        None => String::from_str(name),
    }
}

} // verus!

use zaffre::field::{bytes_to_field, FieldElement};
use zaffre::prover::{
    artifact_file, field_to_decimal_string, format_byte_array, generate_proof, next_step,
    read_circuit_name, run_cmd, tool_path, write_prover_toml, Artifact, CommandReport,
    ProverError, ProverStage, ProverStep, TargetFiles, ACTION_PARAMS_MAX_LEN,
};
use zaffre::types::{Commitment, Nullifier, Secret};

const ALL: TargetFiles = TargetFiles {
    acir: true,
    witness: true,
    ccs: true,
    proving_key: true,
    verifying_key: true,
    proof: true,
    public_witness: true,
};

#[test]
fn test_action_params_len_too_long() {
    let secret = Secret::from_bytes([1u8; 32]);
    let commitment = Commitment::from_bytes([2u8; 32]);
    let nullifier = Nullifier::from_bytes([3u8; 32]);
    let pda = [4u8; 32];
    let program_id = [5u8; 32];
    let action_hash = [6u8; 32];
    let params = vec![0u8; ACTION_PARAMS_MAX_LEN + 1];

    let err = write_prover_toml(
        &secret,
        &commitment,
        &pda,
        &program_id,
        &action_hash,
        &nullifier,
        &params,
        1,
    )
    .expect_err("expected action params length error");

    match err {
        ProverError::ActionParamsTooLong(len) => {
            assert_eq!(len, ACTION_PARAMS_MAX_LEN + 1);
        }
        other => panic!("unexpected error: {other:?}"),
    }
}

#[test]
fn test_action_params_len_ok() {
    let secret = Secret::from_bytes([1u8; 32]);
    let commitment = Commitment::from_bytes([2u8; 32]);
    let nullifier = Nullifier::from_bytes([3u8; 32]);
    let pda = [4u8; 32];
    let program_id = [5u8; 32];
    let action_hash = [6u8; 32];
    let params = vec![9u8; ACTION_PARAMS_MAX_LEN];

    let content = write_prover_toml(
        &secret,
        &commitment,
        &pda,
        &program_id,
        &action_hash,
        &nullifier,
        &params,
        1,
    )
    .expect("expected write_prover_toml to succeed");

    assert!(!content.is_empty(), "Prover.toml not written");
}

#[test]
fn inputs_file_is_written_line_by_line() {
    let mut secret = [0u8; 32];
    secret[0] = 0x39;
    secret[1] = 0x30;
    let content = write_prover_toml(
        &Secret::from_bytes(secret),
        &Commitment::from_bytes([2u8; 32]),
        &[4u8; 32],
        &[5u8; 32],
        &[6u8; 32],
        &Nullifier::from_bytes([3u8; 32]),
        &[7u8, 8],
        258,
    )
    .unwrap();
    let list = |b: u8| format!("[{}]", vec![b.to_string(); 32].join(", "));
    let mut padded = vec!["7".to_string(), "8".to_string()];
    padded.extend(vec!["0".to_string(); 30]);
    let expected = format!(
        "secret = \"12345\"\ncommitment = {}\npda = {}\nprogram_id = {}\naction_hash = {}\nnullifier = {}\naction_params = [{}]\naction_params_len = 2\nnonce = [2, 1, 0, 0, 0, 0, 0, 0]\n",
        list(2),
        list(4),
        list(5),
        list(6),
        list(3),
        padded.join(", "),
    );
    assert_eq!(content, expected);
}

#[test]
fn secret_is_written_as_its_field_element() {
    let content = write_prover_toml(
        &Secret::from_bytes([255u8; 32]),
        &Commitment::from_bytes([2u8; 32]),
        &[4u8; 32],
        &[5u8; 32],
        &[6u8; 32],
        &Nullifier::from_bytes([3u8; 32]),
        &[],
        0,
    )
    .unwrap();
    let expected = field_to_decimal_string(&bytes_to_field(&[255u8; 32]));
    assert!(content.starts_with(&format!("secret = \"{}\"\n", expected)));
    assert!(content.contains("\naction_params_len = 0\n"));
}

#[test]
fn byte_arrays_are_written_in_brackets() {
    assert_eq!(format_byte_array(&[]), "[]");
    assert_eq!(format_byte_array(&[0]), "[0]");
    assert_eq!(format_byte_array(&[1, 20, 255]), "[1, 20, 255]");
    assert_eq!(format_byte_array(&[9, 10, 99, 100]), "[9, 10, 99, 100]");
}

#[test]
fn field_elements_are_written_in_decimal() {
    assert_eq!(field_to_decimal_string(&FieldElement::from_u64(0)), "0");
    assert_eq!(field_to_decimal_string(&FieldElement::from_u64(10)), "10");
    assert_eq!(
        field_to_decimal_string(&FieldElement::from_u64(u64::MAX)),
        "18446744073709551615"
    );
    let minus_one = FieldElement::from_u64(1).mul(&bytes_to_field(&[
        0, 0, 0, 240, 147, 245, 225, 67, 145, 112, 185, 121, 72, 232, 51, 40, 93, 88, 129, 129,
        182, 69, 80, 184, 41, 160, 49, 225, 114, 78, 100, 48,
    ]));
    assert_eq!(
        field_to_decimal_string(&minus_one),
        "21888242871839275222246405745257275088548364400416034343698204186575808495616"
    );
}

#[test]
fn artifacts_are_named_after_the_circuit() {
    assert_eq!(artifact_file("ownership", Artifact::Acir), "ownership.json");
    assert_eq!(artifact_file("ownership", Artifact::Witness), "zaffre_witness.gz");
    assert_eq!(artifact_file("ownership", Artifact::Ccs), "ownership.ccs");
    assert_eq!(artifact_file("ownership", Artifact::ProvingKey), "ownership.pk");
    assert_eq!(artifact_file("ownership", Artifact::VerifyingKey), "ownership.vk");
    assert_eq!(artifact_file("ownership", Artifact::Proof), "ownership.proof");
    assert_eq!(artifact_file("ownership", Artifact::PublicWitness), "ownership.pw");
}

#[test]
fn circuit_name_is_the_package_name_unless_blank() {
    assert_eq!(read_circuit_name(Some("ownership".to_string())), Ok("ownership".to_string()));
    assert_eq!(read_circuit_name(Some(" own ".to_string())), Ok(" own ".to_string()));
    assert_eq!(read_circuit_name(Some("".to_string())), Err(ProverError::MissingCircuitName));
    assert_eq!(read_circuit_name(Some(" \t\n".to_string())), Err(ProverError::MissingCircuitName));
    assert_eq!(read_circuit_name(None), Err(ProverError::MissingCircuitName));
}

#[test]
fn stages_run_in_order_when_nothing_is_at_hand() {
    let mut files = TargetFiles {
        acir: false,
        witness: false,
        ccs: false,
        proving_key: false,
        verifying_key: false,
        proof: false,
        public_witness: false,
    };
    assert_eq!(next_step(ProverStage::Start, &files), (ProverStage::Executed, ProverStep::Execute));
    files.acir = true;
    files.witness = true;
    assert_eq!(
        next_step(ProverStage::Executed, &files),
        (ProverStage::Compiled, ProverStep::Compile)
    );
    files.ccs = true;
    assert_eq!(next_step(ProverStage::Compiled, &files), (ProverStage::SetUp, ProverStep::Setup));
    files.proving_key = true;
    files.verifying_key = true;
    assert_eq!(next_step(ProverStage::SetUp, &files), (ProverStage::Proved, ProverStep::Prove));
    files.proof = true;
    files.public_witness = true;
    assert_eq!(
        next_step(ProverStage::Proved, &files),
        (ProverStage::Proved, ProverStep::ReadOutputs)
    );
}

#[test]
fn stages_whose_artifacts_are_at_hand_are_skipped() {
    assert_eq!(next_step(ProverStage::Start, &ALL), (ProverStage::Executed, ProverStep::Execute));
    assert_eq!(next_step(ProverStage::Executed, &ALL), (ProverStage::Proved, ProverStep::Prove));
    let no_vk = TargetFiles { verifying_key: false, ..ALL };
    assert_eq!(next_step(ProverStage::Executed, &no_vk), (ProverStage::SetUp, ProverStep::Setup));
    let no_pk = TargetFiles { proving_key: false, ..ALL };
    assert_eq!(next_step(ProverStage::Compiled, &no_pk), (ProverStage::SetUp, ProverStep::Setup));
}

#[test]
fn a_stage_that_leaves_nothing_ends_the_generation() {
    let cases = [
        (ProverStage::Executed, TargetFiles { acir: false, ..ALL }, Artifact::Acir),
        (ProverStage::Executed, TargetFiles { witness: false, ..ALL }, Artifact::Witness),
        (
            ProverStage::Executed,
            TargetFiles { acir: false, witness: false, ..ALL },
            Artifact::Acir,
        ),
        (ProverStage::Compiled, TargetFiles { ccs: false, ..ALL }, Artifact::Ccs),
        (ProverStage::SetUp, TargetFiles { proving_key: false, ..ALL }, Artifact::ProvingKey),
        (ProverStage::SetUp, TargetFiles { verifying_key: false, ..ALL }, Artifact::VerifyingKey),
        (ProverStage::Proved, TargetFiles { proof: false, ..ALL }, Artifact::Proof),
        (
            ProverStage::Proved,
            TargetFiles { public_witness: false, ..ALL },
            Artifact::PublicWitness,
        ),
    ];
    for (stage, files, artifact) in cases {
        assert_eq!(next_step(stage, &files), (stage, ProverStep::Missing(artifact)));
    }
}

#[test]
fn outputs_are_taken_with_a_public_witness_of_5132_bytes_only() {
    let result = generate_proof("ownership", vec![1u8; 388], vec![2u8; 5132]).unwrap();
    assert_eq!(result.proof, vec![1u8; 388]);
    assert_eq!(result.public_witness, vec![2u8; 5132]);
    assert_eq!(result.proof_path, "ownership.proof");
    assert_eq!(result.public_witness_path, "ownership.pw");
    assert_eq!(
        generate_proof("ownership", vec![1u8; 388], vec![2u8; 5131]),
        Err(ProverError::InvalidPublicWitness(5131))
    );
    assert_eq!(
        generate_proof("ownership", vec![], vec![]),
        Err(ProverError::InvalidPublicWitness(0))
    );
}

#[test]
fn commands_go_through_on_success_only() {
    let exited = |success: bool| CommandReport::Exited {
        success,
        stdout: "out".to_string(),
        stderr: "err".to_string(),
    };
    assert_eq!(run_cmd("nargo", "nargo execute", exited(true)), Ok(()));
    assert_eq!(
        run_cmd("nargo", "nargo execute", exited(false)),
        Err(ProverError::CommandFailed {
            cmd: "nargo execute".to_string(),
            stdout: "out".to_string(),
            stderr: "err".to_string(),
        })
    );
    assert_eq!(
        run_cmd("nargo", "nargo execute", CommandReport::NotFound),
        Err(ProverError::MissingTool("nargo".to_string()))
    );
    assert_eq!(run_cmd("nargo", "nargo execute", CommandReport::NotStarted), Err(ProverError::Io));
}

#[test]
fn tools_are_taken_from_the_environment_first() {
    assert_eq!(tool_path("sunspot", None), "sunspot");
    assert_eq!(tool_path("sunspot", Some("/opt/sunspot".to_string())), "/opt/sunspot");
}

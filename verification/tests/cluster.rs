use ere::cluster::{
    check_input, check_status, endpoint_url, new_proof_uuid, program_ref, program_ref_from_digest,
    proof_events_path, proof_path, proof_state_path, proving_time_ms, settled_outcome,
    start_proof_outcome, stream_ended, stream_step, submit_deadline_outcome, submit_step,
    trim_endpoint, upload_path, vk_path, vk_response_outcome, wait_deadline_outcome, Error,
    ProgramRef, ProofStateResponse, ProofStatus, StartProofRequest, StdIn, StreamEvent, StreamStep,
    SubmitStep, CANCEL_PROOF_PATH, PROGRAM_VERSION, START_PROOF_PATH,
};
use ere::cluster::cancel_outcome;
use sha2::Digest;

fn program() -> ProgramRef {
    ProgramRef { name: "program-00112233aabbccdd".to_string(), version: 0 }
}

#[test]
fn program_ref_text_form() {
    let p = ProgramRef { name: "guest".to_string(), version: 7 };
    assert_eq!(p.to_string(), "guest@v7");
    assert_eq!(program().to_string(), "program-00112233aabbccdd@v0");
    let big = ProgramRef { name: "x".to_string(), version: u32::MAX };
    assert_eq!(big.to_string(), "x@v4294967295");
}

#[test]
fn upload_body_layout() {
    let data = [1u8, 2, 3];
    let stdin = StdIn::from_bytes(&data);
    assert_eq!(stdin.buffer(), &data[..]);
    let body = stdin.upload_body().unwrap();
    let mut expected = vec![1u8, 0, 0, 0, 0, 0, 0, 0];
    expected.extend_from_slice(&[3, 0, 0, 0, 0, 0, 0, 0]);
    expected.extend_from_slice(&[1, 2, 3]);
    expected.extend_from_slice(&[0; 8]);
    assert_eq!(body, expected);
}

#[test]
fn upload_body_is_bincode_legacy_of_the_staged_input() {
    for data in [vec![], vec![0xffu8], (0u8..=255).collect::<Vec<u8>>()] {
        let body = StdIn::from_bytes(&data).upload_body().unwrap();
        let buffer: Vec<&[u8]> = vec![&data[..]];
        let deferrals: Vec<()> = Vec::new();
        let reference =
            bincode::serde::encode_to_vec(&(buffer, deferrals), bincode::config::legacy()).unwrap();
        assert_eq!(body, reference);
    }
}

#[test]
fn start_proof_request_fields() {
    let r = StartProofRequest::new("abc".to_string(), program());
    assert_eq!(r.proof_uuid, "abc");
    assert_eq!(r.program, program());
    assert!(!r.input_already_uploaded);
    assert_eq!(r.timeout_secs, None);
}

#[test]
fn settled_statuses() {
    assert!(!ProofStatus::InProgress.is_settled());
    assert!(ProofStatus::Completed.is_settled());
    assert!(!ProofStatus::Failing("draining".to_string()).is_settled());
    assert!(ProofStatus::Failed("boom".to_string()).is_settled());
    assert!(ProofStatus::Canceled.is_settled());
}

#[test]
fn endpoint_trimming() {
    assert_eq!(trim_endpoint("http://manager:8080//"), "http://manager:8080");
    assert_eq!(trim_endpoint("http://manager:8080"), "http://manager:8080");
    assert_eq!(trim_endpoint("///"), "");
    assert_eq!(trim_endpoint(""), "");
    assert_eq!(trim_endpoint("a/b/"), "a/b");
}

#[test]
fn request_paths() {
    assert_eq!(upload_path("u1"), "/upload_input/u1");
    assert_eq!(proof_events_path("u1"), "/proof_events/u1");
    assert_eq!(proof_state_path("u1"), "/proof_state/u1");
    assert_eq!(proof_path("u1"), "/proof/u1");
    assert_eq!(vk_path("program-1"), "/vk/program-1");
    assert_eq!(START_PROOF_PATH, "/start_proof");
    assert_eq!(CANCEL_PROOF_PATH, "/cancel_proof");
    assert_eq!(endpoint_url("http://m:1", "/proof/u1"), "http://m:1/proof/u1");
}

#[test]
fn status_check() {
    assert!(check_status("/proof/u".to_string(), 200, String::new()).is_ok());
    assert!(check_status("/proof/u".to_string(), 299, String::new()).is_ok());
    let r = check_status("/proof/u".to_string(), 404, "nope".to_string());
    assert!(matches!(
        r,
        Err(Error::Status { ref path, status: 404, ref body }) if path == "/proof/u" && body == "nope"
    ));
    assert!(check_status("/p".to_string(), 199, String::new()).is_err());
    assert!(check_status("/p".to_string(), 300, String::new()).is_err());
    assert!(cancel_outcome(200));
    assert!(!cancel_outcome(409));
}

#[test]
fn input_with_proofs_is_refused() {
    assert!(check_input(false).is_ok());
    assert!(matches!(
        check_input(true),
        Err(Error::UnsupportedInput(m)) if m == "no dedicated proofs stream"
    ));
    assert!(matches!(
        new_proof_uuid(true),
        Err(Error::UnsupportedInput(m)) if m == "no dedicated proofs stream"
    ));
}

#[test]
fn fresh_uuids_are_simple_and_distinct() {
    let a = new_proof_uuid(false).unwrap();
    let b = new_proof_uuid(false).unwrap();
    for u in [&a, &b] {
        assert_eq!(u.len(), 32);
        assert!(u.chars().all(|c| c.is_ascii_digit() || ('a'..='f').contains(&c)));
        assert_eq!(u.as_bytes()[12], b'4');
        assert!(matches!(u.as_bytes()[16], b'8' | b'9' | b'a' | b'b'));
    }
    assert_ne!(a, b);
}

#[test]
fn start_proof_answers() {
    let ok = start_proof_outcome("u".to_string(), &program(), 200, String::new());
    assert_eq!(ok.unwrap(), "u");

    let r = start_proof_outcome(
        "u".to_string(),
        &program(),
        409,
        "error: program_not_in_loadout".to_string(),
    );
    assert!(matches!(
        r,
        Err(Error::ProgramNotRegistered { ref program }) if program == "program-00112233aabbccdd@v0"
    ));

    let r = start_proof_outcome("u".to_string(), &program(), 409, "busy".to_string());
    assert!(matches!(r, Err(Error::ClusterBusy)));

    let r = start_proof_outcome("u".to_string(), &program(), 503, "warming up".to_string());
    assert!(matches!(r, Err(Error::NotReady(ref m)) if m == "warming up"));

    let r = start_proof_outcome(
        "u".to_string(),
        &program(),
        500,
        "worker failed to accept work".to_string(),
    );
    assert!(matches!(r, Err(Error::NotReady(ref m)) if m == "worker failed to accept work"));

    let r = start_proof_outcome("u".to_string(), &program(), 500, "panic".to_string());
    assert!(matches!(
        r,
        Err(Error::Status { ref path, status: 500, ref body }) if path == "/start_proof" && body == "panic"
    ));

    let r = start_proof_outcome("u".to_string(), &program(), 418, "teapot".to_string());
    assert!(matches!(
        r,
        Err(Error::Status { ref path, status: 418, ref body }) if path == "/start_proof" && body == "teapot"
    ));
}

#[test]
fn vk_answers() {
    assert!(vk_response_outcome("program-1", 200, String::new()).is_ok());
    assert!(matches!(
        vk_response_outcome("program-1", 404, "missing".to_string()),
        Err(Error::ProgramNotRegistered { ref program }) if program == "program-1"
    ));
    assert!(matches!(
        vk_response_outcome("program-1", 502, "bad gateway".to_string()),
        Err(Error::Status { ref path, status: 502, ref body }) if path == "/vk/program-1" && body == "bad gateway"
    ));
}

#[test]
fn settled_proof_outcomes() {
    assert!(settled_outcome("u", ProofStatus::Completed).is_ok());
    assert!(matches!(
        settled_outcome("u", ProofStatus::Failed("oom".to_string())),
        Err(Error::JobFailed { ref proof_uuid, ref reason }) if proof_uuid == "u" && reason == "oom"
    ));
    assert!(matches!(
        settled_outcome("u", ProofStatus::Canceled),
        Err(Error::JobCancelled { ref proof_uuid }) if proof_uuid == "u"
    ));
}

#[test]
fn proving_time_from_state() {
    let state = ProofStateResponse { e2e_latency_ms: Some(1234) };
    assert_eq!(proving_time_ms(&state).unwrap(), 1234);
    let state = ProofStateResponse { e2e_latency_ms: None };
    assert!(matches!(proving_time_ms(&state), Err(Error::MissingField(f)) if f == "e2e_latency_ms"));
}

#[test]
fn event_stream_steps() {
    assert!(matches!(stream_step("u", StreamEvent::Open), StreamStep::Continue));
    assert!(matches!(stream_step("u", StreamEvent::Interrupted), StreamStep::Continue));
    assert!(matches!(
        stream_step("u", StreamEvent::Message(ProofStatus::InProgress)),
        StreamStep::Continue
    ));
    assert!(matches!(
        stream_step("u", StreamEvent::Message(ProofStatus::Failing("x".to_string()))),
        StreamStep::Continue
    ));
    assert!(matches!(
        stream_step("u", StreamEvent::Message(ProofStatus::Completed)),
        StreamStep::Settled(ProofStatus::Completed)
    ));
    assert!(matches!(
        stream_step("u", StreamEvent::Message(ProofStatus::Failed("x".to_string()))),
        StreamStep::Settled(ProofStatus::Failed(ref r)) if r == "x"
    ));
    assert!(matches!(
        stream_step("u", StreamEvent::Message(ProofStatus::Canceled)),
        StreamStep::Settled(ProofStatus::Canceled)
    ));
    let step = stream_step(
        "u",
        StreamEvent::InvalidStatusCode { status: 404, body: "gone".to_string() },
    );
    assert!(matches!(
        step,
        StreamStep::Fail(Error::Status { ref path, status: 404, ref body }) if path == "/proof_events/u" && body == "gone"
    ));
    assert!(matches!(
        stream_ended("u"),
        Error::EventStream(ref m) if m == "the event stream for u ended before the proof settled"
    ));
}

#[test]
fn submission_retries() {
    assert!(matches!(submit_step(Ok("u".to_string())), SubmitStep::Submitted(ref u) if u == "u"));
    assert!(matches!(submit_step(Err(Error::ClusterBusy)), SubmitStep::Retry));
    assert!(matches!(submit_step(Err(Error::NotReady("w".to_string()))), SubmitStep::Retry));
    assert!(matches!(
        submit_step(Err(Error::ProgramNotRegistered { program: "p".to_string() })),
        SubmitStep::Fail(Error::ProgramNotRegistered { .. })
    ));
    assert!(matches!(
        submit_step(Err(Error::UnsupportedInput("no dedicated proofs stream"))),
        SubmitStep::Fail(Error::UnsupportedInput(_))
    ));
}

#[test]
fn deadline_outcomes() {
    assert!(matches!(submit_deadline_outcome::<u8>(None), Err(Error::CreateProveJobTimeout)));
    assert_eq!(submit_deadline_outcome(Some("u".to_string())).unwrap(), "u");
    let inner: Result<String, Error> = Err(Error::ClusterBusy);
    assert!(matches!(submit_deadline_outcome(Some(inner)), Ok(Err(Error::ClusterBusy))));

    let (cancel, r) = wait_deadline_outcome::<u32>("u".to_string(), None);
    assert!(cancel);
    assert!(matches!(r, Err(Error::ProveTimeout { ref proof_uuid }) if proof_uuid == "u"));
    let (cancel, r) = wait_deadline_outcome("u".to_string(), Some(5u32));
    assert!(!cancel);
    assert_eq!(r.unwrap(), 5);
}

#[test]
fn program_identity_from_digest() {
    let digest = [0x01u8, 0x23, 0x45, 0x67, 0x89, 0xab, 0xcd, 0xef, 0xff, 0xff];
    let p = program_ref_from_digest(&digest);
    assert_eq!(p.name, "program-0123456789abcdef");
    assert_eq!(p.version, PROGRAM_VERSION);
    assert_eq!(PROGRAM_VERSION, 0);
}

#[test]
fn program_identity_from_elf() {
    for elf in [b"".to_vec(), b"\x7fELF guest".to_vec()] {
        let digest = sha2::Sha256::digest(&elf);
        let expected = format!(
            "program-{:016x}",
            u64::from_be_bytes(digest[..8].try_into().unwrap())
        );
        let p = program_ref(&elf);
        assert_eq!(p.name, expected);
        assert_eq!(p.version, 0);
    }
    // SHA-256 of the empty string starts with e3b0c44298fc1c14.
    assert_eq!(program_ref(b"").name, "program-e3b0c44298fc1c14");
}

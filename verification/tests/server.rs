use ere::compiler::{ZiskRustRv64ima, DEFAULT_TOOLCHAIN, TARGET_NAME};
use ere::metrics::{
    path_to_method, record_call, record_execute, record_execute_estimated_cost, record_prove,
    record_prove_proof_bytes, record_verify, EXECUTE_TOTAL, PROVE_DURATION_SECONDS,
};
use ere::program::hashed_output_matches;
use ere::resource::{
    check_resource_kind, openvm_resource_kinds, sp1_resource_kinds, zisk_resource_kinds, ResourceKind,
};
use ere::text::{decimal_string, str_contains, str_lt};
use sha2::Digest;

#[test]
fn request_paths_name_methods() {
    assert_eq!(path_to_method("/twirp/api.ZkvmService/Execute"), "execute");
    assert_eq!(
        path_to_method("/twirp/api.ZkvmService/ExecuteEstimatedCost"),
        "execute_estimated_cost"
    );
    assert_eq!(path_to_method("/twirp/api.ZkvmService/Prove"), "prove");
    assert_eq!(path_to_method("/twirp/api.ZkvmService/Verify"), "verify");
    assert_eq!(path_to_method("/twirp/api.ZkvmService/Verify/"), "unknown");
    assert_eq!(path_to_method("/metrics"), "unknown");
    assert_eq!(path_to_method(""), "unknown");
}

#[test]
fn call_records() {
    let ok: Result<u8, ()> = Ok(1);
    let err: Result<u8, ()> = Err(());
    let r = record_execute(&ok);
    assert_eq!(
        (r.total, r.duration, r.status),
        ("ere_server_execute_total", "ere_server_execute_duration_seconds", "success")
    );
    let r = record_execute_estimated_cost(&err);
    assert_eq!(
        (r.total, r.duration, r.status),
        (
            "ere_server_execute_estimated_cost_total",
            "ere_server_execute_estimated_cost_duration_seconds",
            "error"
        )
    );
    let r = record_prove(&ok);
    assert_eq!((r.total, r.duration), ("ere_server_prove_total", PROVE_DURATION_SECONDS));
    let r = record_verify(&err);
    assert_eq!(
        (r.total, r.duration, r.status),
        ("ere_server_verify_total", "ere_server_verify_duration_seconds", "error")
    );
    let r = record_call(EXECUTE_TOTAL, "d", &ok);
    assert_eq!((r.total, r.duration, r.status), (EXECUTE_TOTAL, "d", "success"));
    assert_eq!(record_prove_proof_bytes(1234), ("ere_server_prove_proof_bytes", 1234));
}

#[test]
fn resource_kinds_per_prover() {
    assert_eq!(openvm_resource_kinds(), vec![ResourceKind::Cpu, ResourceKind::Gpu]);
    assert_eq!(
        sp1_resource_kinds(true),
        vec![ResourceKind::Cpu, ResourceKind::Gpu, ResourceKind::Network]
    );
    assert_eq!(sp1_resource_kinds(false), vec![ResourceKind::Cpu, ResourceKind::Network]);
    assert_eq!(
        zisk_resource_kinds(),
        vec![ResourceKind::Cpu, ResourceKind::Gpu, ResourceKind::Cluster]
    );
    assert!(check_resource_kind(ResourceKind::Gpu, openvm_resource_kinds()).is_ok());
    let e = check_resource_kind(ResourceKind::Network, zisk_resource_kinds()).unwrap_err();
    assert_eq!(e.kind, ResourceKind::Network);
    assert_eq!(e.supported, zisk_resource_kinds());
    assert!(check_resource_kind(ResourceKind::Gpu, sp1_resource_kinds(false)).is_err());
    assert!(check_resource_kind(ResourceKind::Cluster, vec![]).is_err());
}

#[test]
fn zisk_compiler_settings() {
    assert_eq!(ZiskRustRv64ima::toolchain(None), "nightly");
    assert_eq!(DEFAULT_TOOLCHAIN, "nightly");
    assert_eq!(
        ZiskRustRv64ima::toolchain(Some("nightly-2025-01-01".to_string())),
        "nightly-2025-01-01"
    );
    assert_eq!(
        ZiskRustRv64ima::rustflags(),
        vec!["-C", "passes=lower-atomic", "-C", "panic=abort", "--cfg", "getrandom_backend=\"custom\""]
    );
    assert_eq!(
        ZiskRustRv64ima::cargo_build_options(),
        vec!["-Zbuild-std=core,alloc", "-Zjson-target-spec"]
    );
    assert_eq!(TARGET_NAME, "riscv64ima-unknown-none-elf");
}

#[test]
fn hashed_output_check() {
    let output = b"encoded output".to_vec();
    let digest = sha2::Sha256::digest(&output);
    let mut public_values = digest.to_vec();
    assert!(hashed_output_matches(&output, &public_values));
    public_values.extend_from_slice(&[0; 32]);
    assert!(hashed_output_matches(&output, &public_values));
    public_values[40] = 1;
    assert!(!hashed_output_matches(&output, &public_values));
    public_values[40] = 0;
    public_values[0] ^= 1;
    assert!(!hashed_output_matches(&output, &public_values));
    assert!(!hashed_output_matches(&output, &digest[..31]));
    assert!(!hashed_output_matches(b"other", &digest));
}

#[test]
fn text_helpers() {
    assert_eq!(decimal_string(0), "0");
    assert_eq!(decimal_string(1200), "1200");
    assert_eq!(decimal_string(u64::MAX), "18446744073709551615");
    assert!(str_contains("worker failed to accept work now", "failed to accept work"));
    assert!(str_contains("abc", ""));
    assert!(!str_contains("ab", "abc"));
    assert!(str_lt("bls12_381_fp2_to_g2", "bls12_381_fp_to_g1"));
    assert!(str_lt("ab", "abc"));
    assert!(!str_lt("abc", "abc"));
    assert!(!str_lt("b", "abc"));
    assert!(str_lt("", "a"));
    for (a, b) in [("x", "y"), ("sha256", "modexp"), ("é", "e"), ("", "")] {
        assert_eq!(str_lt(a, b), a < b);
    }
}

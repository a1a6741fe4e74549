use ere::dockerized::{
    apply_cuda_build_args, timeout_for, Operation, health_timed_out, joined_archs, RetryAction,
    RetryCall, RetryEvent, RetryStage, server_container_plan, server_endpoint, BuildAction, BuildArg, BuildEvent,
    BuildStage, DockerizedzkVMConfig, ImageBuild, ImageTags, ServerImageBuild, ZkvmKind,
    DEFAULT_HEALTH_TIMEOUT_NANOS, MAX_RETRY, PORT_OFFSET,
};

fn tags() -> ImageTags {
    ImageTags {
        base: "ere-base:1".to_string(),
        base_zkvm: "ere-base-zisk:1".to_string(),
        server: "ere-server-zisk:1".to_string(),
    }
}

fn arg_pairs(args: &[BuildArg]) -> Vec<(String, Option<String>)> {
    args.iter()
        .map(|a| match a {
            BuildArg::Value(k, v) => (k.clone(), Some(v.clone())),
            BuildArg::FromEnv(k) => (k.to_string(), None),
        })
        .collect()
}

fn value(k: &str, v: &str) -> (String, Option<String>) {
    (k.to_string(), Some(v.to_string()))
}

fn env(k: &str) -> (String, Option<String>) {
    (k.to_string(), None)
}

fn expect_build(action: BuildAction) -> ImageBuild {
    match action {
        BuildAction::Build(b) => b,
        other => panic!("expected a build, got {other:?}"),
    }
}

fn expect_check(action: BuildAction) -> String {
    match action {
        BuildAction::CheckImage(t) => t,
        other => panic!("expected an image check, got {other:?}"),
    }
}

#[test]
fn kinds_index_and_name() {
    assert_eq!(ZkvmKind::OpenVM.index(), 0);
    assert_eq!(ZkvmKind::SP1.index(), 1);
    assert_eq!(ZkvmKind::Zisk.index(), 2);
    assert_eq!(ZkvmKind::OpenVM.as_str(), "openvm");
    assert_eq!(ZkvmKind::SP1.as_str(), "sp1");
    assert_eq!(ZkvmKind::Zisk.as_str(), "zisk");
}

#[test]
fn cuda_build_args_per_kind() {
    assert_eq!(joined_archs(&[]), "");
    assert_eq!(joined_archs(&[89]), "89");
    assert_eq!(joined_archs(&[89, 120]), "89,120");
    assert_eq!(
        apply_cuda_build_args(ZkvmKind::OpenVM, &[89, 120]),
        Some(("CUDA_ARCH".to_string(), "89,120".to_string()))
    );
    assert_eq!(
        apply_cuda_build_args(ZkvmKind::Zisk, &[89, 120]),
        Some(("CUDA_ARCHS".to_string(), "89,120".to_string()))
    );
    assert_eq!(apply_cuda_build_args(ZkvmKind::SP1, &[89, 120]), None);
    assert_eq!(apply_cuda_build_args(ZkvmKind::OpenVM, &[]), None);
    assert_eq!(apply_cuda_build_args(ZkvmKind::Zisk, &[]), None);
}

#[test]
fn default_config() {
    let c = DockerizedzkVMConfig::default();
    assert_eq!(c.execute_timeout, None);
    assert_eq!(c.prove_timeout, None);
    assert_eq!(c.verify_timeout, None);
    assert_eq!(c.health_timeout, 300_000_000_000);
    assert_eq!(DEFAULT_HEALTH_TIMEOUT_NANOS, 300_000_000_000);
    assert_eq!(
        core::time::Duration::from_nanos(c.health_timeout as u64),
        core::time::Duration::from_secs(300)
    );
}

#[test]
fn container_plans() {
    let common = [
        "RUST_LOG",
        "RUST_BACKTRACE",
        "NO_COLOR",
        "ERE_COST_ESTIMATION_HEAP_START",
        "ERE_COST_ESTIMATION_HEAP_END",
    ];

    let p = server_container_plan(ZkvmKind::OpenVM, false, None, None);
    assert_eq!(p.name, "ere-server-openvm");
    assert_eq!(p.port, 4174);
    assert_eq!(p.host, "127.0.0.1");
    assert_eq!(p.network, None);
    let mut env = common.to_vec();
    env.push("ERE_OPENVM_SEGMENT_MEMORY");
    assert_eq!(p.inherit_env, env);
    assert!(p.options.is_empty());
    assert_eq!(p.gpus, None);

    let p = server_container_plan(ZkvmKind::SP1, true, None, Some("ere-net".to_string()));
    assert_eq!(p.name, "ere-server-sp1");
    assert_eq!(p.port, PORT_OFFSET + 1);
    assert_eq!(p.host, "ere-server-sp1");
    assert_eq!(p.network, Some("ere-net".to_string()));
    let mut env = common.to_vec();
    env.extend(["ERE_SP1_EXECUTOR_CONCURRENCY", "ERE_SP1_ESTIMATOR_CONCURRENCY"]);
    assert_eq!(p.inherit_env, env);
    assert_eq!(p.options, vec![("shm-size", "32G")]);
    assert_eq!(p.gpus, Some("all".to_string()));

    let p = server_container_plan(ZkvmKind::Zisk, true, Some("device=0,1".to_string()), None);
    assert_eq!(p.name, "ere-server-zisk");
    assert_eq!(p.port, 4176);
    assert_eq!(p.inherit_env.len(), 15);
    assert_eq!(p.inherit_env[5], "ERE_ZISK_SETUP_ON_INIT");
    assert_eq!(p.inherit_env[14], "ERE_ZISK_CLUSTER_PROVE_TIMEOUT_SECS");
    assert_eq!(p.options, vec![("shm-size", "32G"), ("ulimit", "memlock=-1:-1")]);
    assert_eq!(p.gpus, Some("device=0,1".to_string()));
    assert_eq!(p.args, vec!["--port".to_string(), "4176".to_string()]);

    assert_eq!(server_endpoint("127.0.0.1", 4174), "http://127.0.0.1:4174");
    assert_eq!(server_endpoint("ere-server-sp1", 4175), "http://ere-server-sp1:4175");
}

#[test]
fn retry_rules() {
    assert_eq!(MAX_RETRY, 3);
    assert!(!health_timed_out(300_000_000_000, 300_000_000_000));
    assert!(health_timed_out(300_000_000_001, 300_000_000_000));
    assert!(!health_timed_out(1, 1));
    assert!(health_timed_out(1, 0));
}

#[test]
fn existing_server_image_is_used_as_is() {
    let mut b = ServerImageBuild::new(ZkvmKind::Zisk, false, false, false, tags());
    assert_eq!(expect_check(b.step(BuildEvent::Begin)), "ere-server-zisk:1");
    assert!(matches!(b.step(BuildEvent::Exists(true)), BuildAction::Finished));
    assert_eq!(b.stage, BuildStage::Done);
}

#[test]
fn pulled_server_image_is_used_as_is() {
    let mut b = ServerImageBuild::new(ZkvmKind::Zisk, false, false, true, tags());
    assert_eq!(expect_check(b.step(BuildEvent::Begin)), "ere-server-zisk:1");
    assert!(matches!(
        b.step(BuildEvent::Exists(false)),
        BuildAction::PullImage(ref t) if t == "ere-server-zisk:1"
    ));
    assert_eq!(expect_check(b.step(BuildEvent::Pulled(true))), "ere-server-zisk:1");
    assert!(matches!(b.step(BuildEvent::Exists(true)), BuildAction::Finished));
}

#[test]
fn failed_pull_builds_from_cached_bases() {
    let mut b = ServerImageBuild::new(ZkvmKind::Zisk, false, false, true, tags());
    b.step(BuildEvent::Begin);
    b.step(BuildEvent::Exists(false));
    assert_eq!(expect_check(b.step(BuildEvent::Pulled(false))), "ere-base:1");
    assert_eq!(expect_check(b.step(BuildEvent::Exists(true))), "ere-base-zisk:1");
    let server = expect_build(b.step(BuildEvent::Exists(true)));
    assert_eq!(server.dockerfile, "docker/zisk/Dockerfile.server");
    assert_eq!(server.tag, "ere-server-zisk:1");
    assert_eq!(
        arg_pairs(&server.args),
        vec![value("BASE_ZKVM_IMAGE", "ere-base-zisk:1"), env("RUSTFLAGS")]
    );
    assert!(matches!(b.step(BuildEvent::Built), BuildAction::Finished));
}

#[test]
fn forced_build_rebuilds_everything() {
    let mut b = ServerImageBuild::new(ZkvmKind::OpenVM, false, true, true, tags());
    let base = expect_build(b.step(BuildEvent::Begin));
    assert_eq!(base.dockerfile, "docker/Dockerfile.base");
    assert_eq!(base.tag, "ere-base:1");
    assert!(base.args.is_empty());
    let zkvm = expect_build(b.step(BuildEvent::Built));
    assert_eq!(zkvm.dockerfile, "docker/openvm/Dockerfile.base");
    assert_eq!(zkvm.tag, "ere-base-zisk:1");
    assert_eq!(arg_pairs(&zkvm.args), vec![value("BASE_IMAGE", "ere-base:1"), env("RUSTFLAGS")]);
    let server = expect_build(b.step(BuildEvent::Built));
    assert_eq!(server.dockerfile, "docker/openvm/Dockerfile.server");
    assert!(matches!(b.step(BuildEvent::Built), BuildAction::Finished));
}

#[test]
fn gpu_build_passes_cuda_arguments() {
    let mut b = ServerImageBuild::new(ZkvmKind::Zisk, true, true, false, tags());
    assert!(matches!(b.step(BuildEvent::Begin), BuildAction::DetectCudaArchs));
    let base = expect_build(b.step(BuildEvent::CudaArchs(vec![89, 120])));
    assert_eq!(arg_pairs(&base.args), vec![value("CUDA", "1")]);
    assert_eq!(b.cuda_archs, vec![89, 120]);
    let zkvm = expect_build(b.step(BuildEvent::Built));
    assert_eq!(
        arg_pairs(&zkvm.args),
        vec![
            value("BASE_IMAGE", "ere-base:1"),
            env("RUSTFLAGS"),
            value("CUDA", "1"),
            value("CUDA_ARCHS", "89,120"),
        ]
    );
    let server = expect_build(b.step(BuildEvent::Built));
    assert_eq!(
        arg_pairs(&server.args),
        vec![
            value("BASE_ZKVM_IMAGE", "ere-base-zisk:1"),
            env("RUSTFLAGS"),
            value("CUDA", "1"),
            value("CUDA_ARCHS", "89,120"),
        ]
    );
}

#[test]
fn gpu_build_without_detected_archs_keeps_dockerfile_default() {
    let mut b = ServerImageBuild::new(ZkvmKind::SP1, true, false, false, tags());
    b.step(BuildEvent::Begin);
    assert!(matches!(b.step(BuildEvent::Exists(false)), BuildAction::DetectCudaArchs));
    assert_eq!(expect_check(b.step(BuildEvent::CudaArchs(vec![]))), "ere-base:1");
    let base = expect_build(b.step(BuildEvent::Exists(false)));
    assert_eq!(arg_pairs(&base.args), vec![value("CUDA", "1")]);
    assert_eq!(expect_check(b.step(BuildEvent::Built)), "ere-base-zisk:1");
    let zkvm = expect_build(b.step(BuildEvent::Exists(false)));
    assert_eq!(zkvm.dockerfile, "docker/sp1/Dockerfile.base");
    assert_eq!(
        arg_pairs(&zkvm.args),
        vec![value("BASE_IMAGE", "ere-base:1"), env("RUSTFLAGS"), value("CUDA", "1")]
    );
}

#[test]
fn call_time_limits() {
    let config = DockerizedzkVMConfig {
        execute_timeout: Some(1),
        prove_timeout: Some(2),
        verify_timeout: None,
        health_timeout: 5,
    };
    assert_eq!(timeout_for(&config, Operation::Execute), Some(1));
    assert_eq!(timeout_for(&config, Operation::ExecuteEstimatedCost), Some(1));
    assert_eq!(timeout_for(&config, Operation::Prove), Some(2));
    assert_eq!(timeout_for(&config, Operation::Verify), None);
}

fn start_call(timeout: Option<u128>) -> RetryCall {
    let mut call = RetryCall::new(timeout);
    assert!(matches!(call.retry_step(RetryEvent::Begin), RetryAction::GetContainer));
    call
}

#[test]
fn call_gives_up_after_three_unavailable_containers() {
    let mut call = start_call(None);
    assert!(matches!(call.retry_step(RetryEvent::ContainerUnavailable), RetryAction::GetContainer));
    assert_eq!(call.attempt, 2);
    assert!(matches!(call.retry_step(RetryEvent::ContainerUnavailable), RetryAction::GetContainer));
    assert_eq!(call.attempt, 3);
    assert!(matches!(
        call.retry_step(RetryEvent::ContainerUnavailable),
        RetryAction::Unavailable(ref m) if m == "Container is not available after 3 attempts"
    ));
    assert_eq!(call.stage, RetryStage::Done);
}

#[test]
fn call_runs_once_and_returns_its_answer() {
    let mut call = start_call(None);
    assert!(matches!(call.retry_step(RetryEvent::ContainerUnavailable), RetryAction::GetContainer));
    assert!(matches!(call.retry_step(RetryEvent::ContainerReady), RetryAction::Run));
    assert!(matches!(call.retry_step(RetryEvent::Succeeded), RetryAction::Return));

    let mut call = start_call(None);
    call.retry_step(RetryEvent::ContainerReady);
    assert!(matches!(call.retry_step(RetryEvent::Failed { rpc: false }), RetryAction::Return));

    let mut call = start_call(None);
    call.retry_step(RetryEvent::ContainerReady);
    assert!(matches!(call.retry_step(RetryEvent::Failed { rpc: true }), RetryAction::CheckHealth));
    assert!(matches!(call.retry_step(RetryEvent::Health(true)), RetryAction::Return));
}

#[test]
fn call_reports_an_exited_container() {
    let mut call = start_call(None);
    call.retry_step(RetryEvent::ContainerReady);
    call.retry_step(RetryEvent::Failed { rpc: true });
    assert!(matches!(call.retry_step(RetryEvent::Health(false)), RetryAction::AwaitExit));
    let action = call.retry_step(RetryEvent::Exited {
        container_id: "c1".to_string(),
        exit_info: Some("OOMKilled".to_string()),
    });
    assert!(matches!(
        action,
        RetryAction::ContainerExited { ref container_id, ref exit_info } if container_id == "c1" && exit_info == "OOMKilled"
    ));

    let mut call = start_call(None);
    call.retry_step(RetryEvent::ContainerReady);
    call.retry_step(RetryEvent::Failed { rpc: true });
    call.retry_step(RetryEvent::Health(false));
    let action = call.retry_step(RetryEvent::Exited { container_id: "c1".to_string(), exit_info: None });
    assert!(matches!(action, RetryAction::Return));
}

#[test]
fn call_timeout_removes_only_the_same_container() {
    let mut call = start_call(Some(7));
    call.retry_step(RetryEvent::ContainerReady);
    let action = call.retry_step(RetryEvent::TimedOut {
        current: Some("c1".to_string()),
        container_id: "c1".to_string(),
    });
    assert!(matches!(action, RetryAction::TimedOut { timeout: 7, remove_container: true }));

    let mut call = start_call(Some(7));
    call.retry_step(RetryEvent::ContainerReady);
    let action = call.retry_step(RetryEvent::TimedOut {
        current: Some("c2".to_string()),
        container_id: "c1".to_string(),
    });
    assert!(matches!(action, RetryAction::TimedOut { timeout: 7, remove_container: false }));

    let mut call = start_call(Some(0));
    call.retry_step(RetryEvent::ContainerReady);
    let action = call.retry_step(RetryEvent::TimedOut { current: None, container_id: "c1".to_string() });
    assert!(matches!(action, RetryAction::TimedOut { timeout: 0, remove_container: false }));
}

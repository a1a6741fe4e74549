//! The rules of running zkVMs in containers: which images to build and with
//! which arguments, how a server container is started, and when a call is
//! retried.

use vstd::prelude::*;

use crate::cost::{ERE_COST_ESTIMATION_HEAP_END, ERE_COST_ESTIMATION_HEAP_START};
use crate::text::{decimal_string, decimal_text};

verus! {

/// The zkVMs that run in containers.
#[derive(Clone, Copy, Debug, PartialEq, Eq, Structural)]
pub enum ZkvmKind {
    OpenVM,
    SP1,
    Zisk,
}

impl ZkvmKind {
    /// The kind's position among the kinds.
    pub open spec fn spec_index(self) -> u16 {
        match self {
            ZkvmKind::OpenVM => 0,
            ZkvmKind::SP1 => 1,
            ZkvmKind::Zisk => 2,
        }
    }

    /// The kind's lowercase name.
    pub open spec fn spec_name(self) -> Seq<char> {
        match self {
            ZkvmKind::OpenVM => "openvm"@,
            ZkvmKind::SP1 => "sp1"@,
            ZkvmKind::Zisk => "zisk"@,
        }
    }

    /// The kind's position among the kinds.
    pub fn index(self) -> (r: u16)
        ensures
            r == self.spec_index(),
    {
        match self {
            ZkvmKind::OpenVM => 0,
            ZkvmKind::SP1 => 1,
            ZkvmKind::Zisk => 2,
        }
    }

    /// The kind's lowercase name, which names its docker directory and its
    /// server container.
    pub fn as_str(self) -> (r: &'static str)
        ensures
            r@ == self.spec_name(),
    {
        match self {
            ZkvmKind::OpenVM => "openvm",
            ZkvmKind::SP1 => "sp1",
            ZkvmKind::Zisk => "zisk",
        }
    }
}

/// Decimal CUDA architectures, separated by commas.
pub open spec fn join_archs(archs: Seq<u32>) -> Seq<char>
    decreases archs.len(),
{
    if archs.len() == 0 {
        Seq::empty()
    } else if archs.len() == 1 {
        decimal_text(archs[0] as nat)
    } else {
        join_archs(archs.drop_last()) + seq![','] + decimal_text(archs.last() as nat)
    }
}

/// `archs` as decimal numbers separated by commas, such as `89,120`.
pub fn joined_archs(archs: &[u32]) -> (s: String)
    ensures
        s@ == join_archs(archs@),
{
    let mut s = String::new();
    let mut i: usize = 0;
    while i < archs.len()
        invariant
            0 <= i <= archs@.len(),
            s@ == join_archs(archs@.take(i as int)),
        decreases archs.len() - i,
    {
        let d = decimal_string(archs[i] as u64);
        if i > 0 {
            s.append(",");
        }
        s.append(d.as_str());
        proof {
            reveal_strlit(",");
        }
        assert(archs@.take(i + 1).drop_last() =~= archs@.take(i as int));
        i = i + 1;
        assert(s@ =~= join_archs(archs@.take(i as int)));
    }
    assert(archs@.take(archs@.len() as int) =~= archs@);
    s
}

/// The build argument that passes `cuda_archs` to the image of
/// `zkvm_kind`, as the key and its value; none when no architecture is known
/// (the Dockerfile's default stands) or the zkVM takes none. OpenVM reads
/// `CUDA_ARCH` and ZisK `CUDA_ARCHS`, both comma-separated.
pub fn apply_cuda_build_args(zkvm_kind: ZkvmKind, cuda_archs: &[u32]) -> (r: Option<
    (String, String),
>)
    ensures
        cuda_archs@.len() == 0 || zkvm_kind is SP1 ==> r is None,
        cuda_archs@.len() > 0 && zkvm_kind is OpenVM ==> (r matches Some((k, v)) && k@
            == "CUDA_ARCH"@ && v@ == join_archs(cuda_archs@)),
        cuda_archs@.len() > 0 && zkvm_kind is Zisk ==> (r matches Some((k, v)) && k@
            == "CUDA_ARCHS"@ && v@ == join_archs(cuda_archs@)),
{
    if cuda_archs.len() == 0 {
        return None;
    }
    match zkvm_kind {
        ZkvmKind::OpenVM => Some((String::from_str("CUDA_ARCH"), joined_archs(cuda_archs))),
        ZkvmKind::Zisk => Some((String::from_str("CUDA_ARCHS"), joined_archs(cuda_archs))),
        ZkvmKind::SP1 => None,
    }
}

/// Nanoseconds a spawned server may take to become healthy by default (300
/// seconds); this covers any preprocessing the zkVM does before it serves.
pub const DEFAULT_HEALTH_TIMEOUT_NANOS: u128 = 300_000_000_000;

/// Limits on the calls to a containerized zkVM, as durations in nanoseconds,
/// which hold every `Duration` exactly; a call without a limit may take any
/// time.
#[derive(Debug, Clone)]
pub struct DockerizedzkVMConfig {
    pub execute_timeout: Option<u128>,
    pub prove_timeout: Option<u128>,
    pub verify_timeout: Option<u128>,
    pub health_timeout: u128,
}

impl Default for DockerizedzkVMConfig {
    fn default() -> (r: Self)
        ensures
            r.execute_timeout is None,
            r.prove_timeout is None,
            r.verify_timeout is None,
            r.health_timeout == DEFAULT_HEALTH_TIMEOUT_NANOS,
    {
        DockerizedzkVMConfig {
            execute_timeout: None,
            prove_timeout: None,
            verify_timeout: None,
            health_timeout: DEFAULT_HEALTH_TIMEOUT_NANOS,
        }
    }
}

/// The first port of the servers; each kind listens at its index above it.
pub const PORT_OFFSET: u16 = 4174;

/// How a server container is started.
#[derive(Debug)]
pub struct ContainerPlan {
    /// The container's name, `ere-server-{kind}`.
    pub name: String,
    /// The port the server listens at, published on the same host port.
    pub port: u16,
    /// The docker network to join, if any.
    pub network: Option<String>,
    /// The host at which the server is reached: the container's name on a
    /// network, the loopback address otherwise.
    pub host: String,
    /// The environment variables the container inherits, in order.
    pub inherit_env: Vec<&'static str>,
    /// The docker options, as names and values, in order.
    pub options: Vec<(&'static str, &'static str)>,
    /// The GPU devices the container gets, as docker's `--gpus` takes them,
    /// if any.
    pub gpus: Option<String>,
    /// The server's first arguments, `--port` and the port; the prover
    /// resource's arguments follow them.
    pub args: Vec<String>,
}

/// The GPU devices a container gets: those configured, else all.
pub open spec fn gpu_devices(configured: Option<String>) -> Seq<char> {
    match configured {
        Some(d) => d@,
        None => "all"@,
    }
}

/// The variables every server container inherits.
pub open spec fn common_env() -> Seq<Seq<char>> {
    seq![
        "RUST_LOG"@,
        "RUST_BACKTRACE"@,
        "NO_COLOR"@,
        ERE_COST_ESTIMATION_HEAP_START@,
        ERE_COST_ESTIMATION_HEAP_END@,
    ]
}

/// The variables only the server of `kind` inherits.
pub open spec fn kind_env(kind: ZkvmKind) -> Seq<Seq<char>> {
    match kind {
        ZkvmKind::OpenVM => seq!["ERE_OPENVM_SEGMENT_MEMORY"@],
        ZkvmKind::SP1 => seq!["ERE_SP1_EXECUTOR_CONCURRENCY"@, "ERE_SP1_ESTIMATOR_CONCURRENCY"@],
        ZkvmKind::Zisk => seq![
            "ERE_ZISK_SETUP_ON_INIT"@,
            "ERE_ZISK_UNLOCK_MAPPED_MEMORY"@,
            "ERE_ZISK_MINIMAL_MEMORY"@,
            "ERE_ZISK_CPU_MOPS"@,
            "ERE_ZISK_PACKED"@,
            "ERE_ZISK_MAX_STREAMS"@,
            "ERE_ZISK_MAX_RECURSIVE_STREAMS"@,
            "ERE_ZISK_NUMBER_THREADS_WITNESS"@,
            "ERE_ZISK_MAX_WITNESS_STORED"@,
            "ERE_ZISK_CLUSTER_PROVE_TIMEOUT_SECS"@,
        ],
    }
}

/// Every server container inherits `RUST_LOG`, `RUST_BACKTRACE`, `NO_COLOR`
/// and the two heap-symbol variables; the OpenVM server also
/// `ERE_OPENVM_SEGMENT_MEMORY`, the SP1 server its two concurrency
/// variables, and the ZisK server its ten `ERE_ZISK_*` settings. Each is
/// inherited once.
pub proof fn lemma_container_env(kind: ZkvmKind)
    ensures
        (common_env() + kind_env(kind)).no_duplicates(),
        kind is OpenVM ==> common_env() + kind_env(kind) == seq![
            "RUST_LOG"@,
            "RUST_BACKTRACE"@,
            "NO_COLOR"@,
            ERE_COST_ESTIMATION_HEAP_START@,
            ERE_COST_ESTIMATION_HEAP_END@,
            "ERE_OPENVM_SEGMENT_MEMORY"@,
        ],
        kind is SP1 ==> common_env() + kind_env(kind) == seq![
            "RUST_LOG"@,
            "RUST_BACKTRACE"@,
            "NO_COLOR"@,
            ERE_COST_ESTIMATION_HEAP_START@,
            ERE_COST_ESTIMATION_HEAP_END@,
            "ERE_SP1_EXECUTOR_CONCURRENCY"@,
            "ERE_SP1_ESTIMATOR_CONCURRENCY"@,
        ],
        kind is Zisk ==> common_env() + kind_env(kind) == seq![
            "RUST_LOG"@,
            "RUST_BACKTRACE"@,
            "NO_COLOR"@,
            ERE_COST_ESTIMATION_HEAP_START@,
            ERE_COST_ESTIMATION_HEAP_END@,
            "ERE_ZISK_SETUP_ON_INIT"@,
            "ERE_ZISK_UNLOCK_MAPPED_MEMORY"@,
            "ERE_ZISK_MINIMAL_MEMORY"@,
            "ERE_ZISK_CPU_MOPS"@,
            "ERE_ZISK_PACKED"@,
            "ERE_ZISK_MAX_STREAMS"@,
            "ERE_ZISK_MAX_RECURSIVE_STREAMS"@,
            "ERE_ZISK_NUMBER_THREADS_WITNESS"@,
            "ERE_ZISK_MAX_WITNESS_STORED"@,
            "ERE_ZISK_CLUSTER_PROVE_TIMEOUT_SECS"@,
        ],
{
    reveal_strlit("RUST_LOG");
    reveal_strlit("RUST_BACKTRACE");
    reveal_strlit("NO_COLOR");
    reveal_strlit("ERE_COST_ESTIMATION_HEAP_START");
    reveal_strlit("ERE_COST_ESTIMATION_HEAP_END");
    reveal_strlit("ERE_OPENVM_SEGMENT_MEMORY");
    reveal_strlit("ERE_SP1_EXECUTOR_CONCURRENCY");
    reveal_strlit("ERE_SP1_ESTIMATOR_CONCURRENCY");
    reveal_strlit("ERE_ZISK_SETUP_ON_INIT");
    reveal_strlit("ERE_ZISK_UNLOCK_MAPPED_MEMORY");
    reveal_strlit("ERE_ZISK_MINIMAL_MEMORY");
    reveal_strlit("ERE_ZISK_CPU_MOPS");
    reveal_strlit("ERE_ZISK_PACKED");
    reveal_strlit("ERE_ZISK_MAX_STREAMS");
    reveal_strlit("ERE_ZISK_MAX_RECURSIVE_STREAMS");
    reveal_strlit("ERE_ZISK_NUMBER_THREADS_WITNESS");
    reveal_strlit("ERE_ZISK_MAX_WITNESS_STORED");
    reveal_strlit("ERE_ZISK_CLUSTER_PROVE_TIMEOUT_SECS");
    // Each name has its length; names of one length differ at a character.
    assert("RUST_LOG"@.len() == 8);
    assert("RUST_BACKTRACE"@.len() == 14);
    assert("NO_COLOR"@.len() == 8);
    assert(ERE_COST_ESTIMATION_HEAP_START@.len() == 30);
    assert(ERE_COST_ESTIMATION_HEAP_END@.len() == 28);
    assert("ERE_OPENVM_SEGMENT_MEMORY"@.len() == 25);
    assert("ERE_SP1_EXECUTOR_CONCURRENCY"@.len() == 28);
    assert("ERE_SP1_ESTIMATOR_CONCURRENCY"@.len() == 29);
    assert("ERE_ZISK_SETUP_ON_INIT"@.len() == 22);
    assert("ERE_ZISK_UNLOCK_MAPPED_MEMORY"@.len() == 29);
    assert("ERE_ZISK_MINIMAL_MEMORY"@.len() == 23);
    assert("ERE_ZISK_CPU_MOPS"@.len() == 17);
    assert("ERE_ZISK_PACKED"@.len() == 15);
    assert("ERE_ZISK_MAX_STREAMS"@.len() == 20);
    assert("ERE_ZISK_MAX_RECURSIVE_STREAMS"@.len() == 30);
    assert("ERE_ZISK_NUMBER_THREADS_WITNESS"@.len() == 31);
    assert("ERE_ZISK_MAX_WITNESS_STORED"@.len() == 27);
    assert("ERE_ZISK_CLUSTER_PROVE_TIMEOUT_SECS"@.len() == 35);
    assert("RUST_LOG"@[0] != "NO_COLOR"@[0]);
    assert(ERE_COST_ESTIMATION_HEAP_END@[4] != "ERE_SP1_EXECUTOR_CONCURRENCY"@[4]);
    assert(ERE_COST_ESTIMATION_HEAP_START@[4] != "ERE_ZISK_MAX_RECURSIVE_STREAMS"@[4]);
    let env = common_env() + kind_env(kind);
    assert forall|i: int, j: int| 0 <= i < j < env.len() implies env[i] != env[j] by {
        assert(env[i].len() != env[j].len() || env[i][0] != env[j][0] || env[i][4] != env[j][4]);
    }
}

/// The OpenVM server container gets no docker option; the SP1 one 32G of
/// shared memory; the ZisK one 32G of shared memory and memory locking
/// without limit.
pub proof fn lemma_container_options(kind: ZkvmKind)
    ensures
        kind is OpenVM ==> kind_options(kind).len() == 0,
        kind is SP1 ==> kind_options(kind) == seq![("shm-size"@, "32G"@)],
        kind is Zisk ==> kind_options(kind) == seq![("shm-size"@, "32G"@), ("ulimit"@, "memlock=-1:-1"@)],
{
}

/// The docker options of the server of `kind`. SP1 and ZisK exchange data
/// between processes in shared memory (ZisK needs at least 16G), so both get
/// 32G; ZisK also locks memory without limit.
pub open spec fn kind_options(kind: ZkvmKind) -> Seq<(Seq<char>, Seq<char>)> {
    match kind {
        ZkvmKind::OpenVM => seq![],
        ZkvmKind::SP1 => seq![("shm-size"@, "32G"@)],
        ZkvmKind::Zisk => seq![("shm-size"@, "32G"@), ("ulimit"@, "memlock=-1:-1"@)],
    }
}

/// The characters of each string.
pub open spec fn str_views(v: Seq<&'static str>) -> Seq<Seq<char>> {
    v.map_values(|s: &'static str| s@)
}

/// The characters of each pair of strings.
pub open spec fn pair_views(v: Seq<(&'static str, &'static str)>) -> Seq<(Seq<char>, Seq<char>)> {
    v.map_values(|p: (&'static str, &'static str)| (p.0@, p.1@))
}

/// Pushes `items` onto `out`, in order.
fn push_all(out: &mut Vec<&'static str>, items: &[&'static str])
    ensures
        final(out)@ == old(out)@ + items@,
{
    let mut i: usize = 0;
    while i < items.len()
        invariant
            0 <= i <= items@.len(),
            out@ == old(out)@ + items@.take(i as int),
        decreases items.len() - i,
    {
        out.push(items[i]);
        i = i + 1;
        assert(out@ =~= old(out)@ + items@.take(i as int));
    }
    assert(items@.take(items@.len() as int) =~= items@);
}

/// How the server of `zkvm_kind` is started: with GPUs when `gpu` (the
/// devices configured in `configured_gpus`, else all), on docker network
/// `network` when one is set.
pub fn server_container_plan(
    zkvm_kind: ZkvmKind,
    gpu: bool,
    configured_gpus: Option<String>,
    network: Option<String>,
) -> (p: ContainerPlan)
    ensures
        p.name@ == "ere-server-"@ + zkvm_kind.spec_name(),
        p.port == PORT_OFFSET + zkvm_kind.spec_index(),
        p.network == network,
        network is Some ==> p.host@ == p.name@,
        network is None ==> p.host@ == "127.0.0.1"@,
        str_views(p.inherit_env@) == common_env() + kind_env(zkvm_kind),
        pair_views(p.options@) == kind_options(zkvm_kind),
        p.gpus is Some <==> gpu,
        p.gpus matches Some(d) ==> d@ == gpu_devices(configured_gpus),
        p.args@.len() == 2,
        p.args@[0]@ == "--port"@,
        p.args@[1]@ == decimal_text(p.port as nat),
{
    let name = String::from_str("ere-server-").concat(zkvm_kind.as_str());
    let port = PORT_OFFSET + zkvm_kind.index();
    let host = match &network {
        Some(_) => name.clone(),
        None => String::from_str("127.0.0.1"),
    };
    let mut inherit_env: Vec<&'static str> = Vec::new();
    let common = [
        "RUST_LOG",
        "RUST_BACKTRACE",
        "NO_COLOR",
        ERE_COST_ESTIMATION_HEAP_START,
        ERE_COST_ESTIMATION_HEAP_END,
    ];
    push_all(&mut inherit_env, &common);
    let mut options: Vec<(&'static str, &'static str)> = Vec::new();
    match zkvm_kind {
        ZkvmKind::OpenVM => {
            let own = ["ERE_OPENVM_SEGMENT_MEMORY"];
            push_all(&mut inherit_env, &own);
        },
        ZkvmKind::SP1 => {
            options.push(("shm-size", "32G"));
            let own = ["ERE_SP1_EXECUTOR_CONCURRENCY", "ERE_SP1_ESTIMATOR_CONCURRENCY"];
            push_all(&mut inherit_env, &own);
        },
        ZkvmKind::Zisk => {
            options.push(("shm-size", "32G"));
            options.push(("ulimit", "memlock=-1:-1"));
            let own = [
                "ERE_ZISK_SETUP_ON_INIT",
                "ERE_ZISK_UNLOCK_MAPPED_MEMORY",
                "ERE_ZISK_MINIMAL_MEMORY",
                "ERE_ZISK_CPU_MOPS",
                "ERE_ZISK_PACKED",
                "ERE_ZISK_MAX_STREAMS",
                "ERE_ZISK_MAX_RECURSIVE_STREAMS",
                "ERE_ZISK_NUMBER_THREADS_WITNESS",
                "ERE_ZISK_MAX_WITNESS_STORED",
                "ERE_ZISK_CLUSTER_PROVE_TIMEOUT_SECS",
            ];
            push_all(&mut inherit_env, &own);
        },
    }
    assert(str_views(inherit_env@) =~= common_env() + kind_env(zkvm_kind));
    assert(pair_views(options@) =~= kind_options(zkvm_kind));
    let gpus = if gpu {
        Some(
            match configured_gpus {
                Some(d) => d,
                None => String::from_str("all"),
            },
        )
    } else {
        None
    };
    let args = vec![String::from_str("--port"), decimal_string(port as u64)];
    proof {
        reveal_strlit("--port");
    }
    ContainerPlan { name, port, network, host, inherit_env, options, gpus, args }
}

/// The address of the server at `host` and `port`, `http://{host}:{port}`.
pub fn server_endpoint(host: &str, port: u16) -> (r: String)
    ensures
        r@ == "http://"@ + host@ + ":"@ + decimal_text(port as nat),
{
    let p = decimal_string(port as u64);
    String::from_str("http://").concat(host).concat(":").concat(p.as_str())
}

/// The calls a containerized zkVM serves.
#[derive(Clone, Copy, Debug, PartialEq, Eq, Structural)]
pub enum Operation {
    Execute,
    ExecuteEstimatedCost,
    Prove,
    Verify,
}

/// The time limit of `op` under `config`, in nanoseconds: executions, with
/// or without cost estimation, share the execution limit.
pub fn timeout_for(config: &DockerizedzkVMConfig, op: Operation) -> (t: Option<u128>)
    ensures
        t == match op {
            Operation::Execute | Operation::ExecuteEstimatedCost => config.execute_timeout,
            Operation::Prove => config.prove_timeout,
            Operation::Verify => config.verify_timeout,
        },
{
    match op {
        Operation::Execute => config.execute_timeout,
        Operation::ExecuteEstimatedCost => config.execute_timeout,
        Operation::Prove => config.prove_timeout,
        Operation::Verify => config.verify_timeout,
    }
}

/// How many times a call tries to get a healthy container.
pub const MAX_RETRY: u64 = 3;

/// Seconds to wait for a container to exit after a call that it did not fully
/// answer, which is usually the sign of an out-of-memory kill.
pub const DOCKER_WAIT_FOR_EXIT_TIMEOUT_SECS: u64 = 10;

/// Milliseconds between two health probes of a starting server.
pub const HEALTH_POLL_INTERVAL_MS: u64 = 500;

/// Whether a call that timed out in container `timed_out` removes the
/// container now held, `held`: only if it is still that container.
fn removes_container(held: &Option<String>, timed_out: &String) -> (r: bool)
    ensures
        r <==> (held matches Some(id) && id@ == timed_out@),
{
    match held {
        Some(id) => crate::text::str_eq(id.as_str(), timed_out.as_str()),
        None => false,
    }
}

/// Whether a server that has been starting for `elapsed_nanos` nanoseconds
/// has run out of its `timeout_nanos`.
pub fn health_timed_out(elapsed_nanos: u128, timeout_nanos: u128) -> (r: bool)
    ensures
        r == (elapsed_nanos > timeout_nanos),
{
    elapsed_nanos > timeout_nanos
}

/// Where a call through a server container stands.
#[derive(Clone, Copy, Debug, PartialEq, Eq, Structural)]
pub enum RetryStage {
    Idle,
    GettingContainer,
    Running,
    CheckingHealth,
    AwaitingExit,
    Done,
}

/// What the last action of a call found.
#[derive(Debug)]
pub enum RetryEvent {
    /// The call starts.
    Begin,
    /// No healthy container could be had.
    ContainerUnavailable,
    /// A healthy container is at hand.
    ContainerReady,
    /// The operation did not answer within the time limit; `current` is the
    /// container the call's slot holds now and `container_id` the one the
    /// operation ran in.
    TimedOut { current: Option<String>, container_id: String },
    /// The operation answered with success.
    Succeeded,
    /// The operation answered with an error, an RPC failure or not.
    Failed { rpc: bool },
    /// Whether the container still answers its health check.
    Health(bool),
    /// The container `container_id` exited with `exit_info`, or did not exit
    /// in time.
    Exited { container_id: String, exit_info: Option<String> },
}

/// What a call through a server container does next.
#[derive(Debug)]
pub enum RetryAction {
    /// Get a healthy container, recreating it when needed.
    GetContainer,
    /// Run the operation in the container, under the time limit if any.
    Run,
    /// Ask whether the container still answers its health check.
    CheckHealth,
    /// Wait up to `DOCKER_WAIT_FOR_EXIT_TIMEOUT_SECS` for the container to
    /// exit.
    AwaitExit,
    /// Stop with the operation's own answer, success or error.
    Return,
    /// Stop: no container could be had, with this message.
    Unavailable(String),
    /// Stop: the operation ran out of `timeout` nanoseconds; remove the
    /// container first when `remove_container`.
    TimedOut { timeout: u128, remove_container: bool },
    /// Stop: the container exited under the operation.
    ContainerExited { container_id: String, exit_info: String },
}

/// A call to a containerized zkVM: it gets a healthy container, trying at
/// most `MAX_RETRY` times, runs the operation once under its time limit, and
/// tells a container that died under the operation from the operation's own
/// error.
#[derive(Debug)]
pub struct RetryCall {
    pub attempt: u64,
    pub timeout: Option<u128>,
    pub stage: RetryStage,
}

/// The message of a call that could get no container.
pub open spec fn unavailable_message() -> Seq<char> {
    "Container is not available after "@ + decimal_text(MAX_RETRY as nat) + " attempts"@
}

/// An action as plain values.
pub enum RetryView {
    GetContainer,
    Run,
    CheckHealth,
    AwaitExit,
    Return,
    Unavailable(Seq<char>),
    TimedOut(u128, bool),
    ContainerExited(Seq<char>, Seq<char>),
}

/// The action `a` as plain values.
pub open spec fn retry_view(a: RetryAction) -> RetryView {
    match a {
        RetryAction::GetContainer => RetryView::GetContainer,
        RetryAction::Run => RetryView::Run,
        RetryAction::CheckHealth => RetryView::CheckHealth,
        RetryAction::AwaitExit => RetryView::AwaitExit,
        RetryAction::Return => RetryView::Return,
        RetryAction::Unavailable(m) => RetryView::Unavailable(m@),
        RetryAction::TimedOut { timeout, remove_container } => RetryView::TimedOut(
            timeout,
            remove_container,
        ),
        RetryAction::ContainerExited { container_id, exit_info } => RetryView::ContainerExited(
            container_id@,
            exit_info@,
        ),
    }
}

/// Whether `e` answers the action of a call at stage `stage` under the time
/// limit `timeout`.
pub open spec fn answers_call(stage: RetryStage, timeout: Option<u128>, e: RetryEvent) -> bool {
    match stage {
        RetryStage::Idle => e is Begin,
        RetryStage::GettingContainer => e is ContainerUnavailable || e is ContainerReady,
        RetryStage::Running => e is Succeeded || e is Failed || (e is TimedOut && timeout is Some),
        RetryStage::CheckingHealth => e is Health,
        RetryStage::AwaitingExit => e is Exited,
        RetryStage::Done => false,
    }
}

/// The next stage, attempt and action of call `c` after event `e`.
pub open spec fn next_call_step(c: RetryCall, e: RetryEvent) -> (RetryStage, u64, RetryView) {
    match c.stage {
        RetryStage::Idle => (RetryStage::GettingContainer, 1, RetryView::GetContainer),
        RetryStage::GettingContainer => if e is ContainerReady {
            (RetryStage::Running, c.attempt, RetryView::Run)
        } else if c.attempt < MAX_RETRY {
            (RetryStage::GettingContainer, (c.attempt + 1) as u64, RetryView::GetContainer)
        } else {
            (RetryStage::Done, c.attempt, RetryView::Unavailable(unavailable_message()))
        },
        RetryStage::Running => match e {
            RetryEvent::TimedOut { current, container_id } => (
                RetryStage::Done,
                c.attempt,
                RetryView::TimedOut(
                    c.timeout->0,
                    current matches Some(id) && id@ == container_id@,
                ),
            ),
            RetryEvent::Failed { rpc } => if rpc {
                (RetryStage::CheckingHealth, c.attempt, RetryView::CheckHealth)
            } else {
                (RetryStage::Done, c.attempt, RetryView::Return)
            },
            _ => (RetryStage::Done, c.attempt, RetryView::Return),
        },
        RetryStage::CheckingHealth => if e == RetryEvent::Health(false) {
            (RetryStage::AwaitingExit, c.attempt, RetryView::AwaitExit)
        } else {
            (RetryStage::Done, c.attempt, RetryView::Return)
        },
        RetryStage::AwaitingExit => match e {
            RetryEvent::Exited { container_id, exit_info: Some(info) } => (
                RetryStage::Done,
                c.attempt,
                RetryView::ContainerExited(container_id@, info@),
            ),
            _ => (RetryStage::Done, c.attempt, RetryView::Return),
        },
        RetryStage::Done => (RetryStage::Done, c.attempt, RetryView::Return),
    }
}

impl RetryCall {
    /// A call that has not started, under the time limit `timeout`.
    pub fn new(timeout: Option<u128>) -> (r: Self)
        ensures
            r.attempt == 1,
            r.timeout == timeout,
            r.stage == RetryStage::Idle,
    {
        RetryCall { attempt: 1, timeout, stage: RetryStage::Idle }
    }

    /// Takes the answer `event` to the last action and returns the next one.
    pub fn retry_step(&mut self, event: RetryEvent) -> (r: RetryAction)
        requires
            answers_call(old(self).stage, old(self).timeout, event),
            1 <= old(self).attempt <= MAX_RETRY,
        ensures
            (final(self).stage, final(self).attempt, retry_view(r)) == next_call_step(
                *old(self),
                event,
            ),
            final(self).timeout == old(self).timeout,
            1 <= final(self).attempt <= MAX_RETRY,
    {
        match self.stage {
            RetryStage::Idle => {
                self.stage = RetryStage::GettingContainer;
                self.attempt = 1;
                RetryAction::GetContainer
            },
            RetryStage::GettingContainer => {
                if matches!(event, RetryEvent::ContainerReady) {
                    self.stage = RetryStage::Running;
                    RetryAction::Run
                } else if self.attempt < MAX_RETRY {
                    self.attempt = self.attempt + 1;
                    RetryAction::GetContainer
                } else {
                    self.stage = RetryStage::Done;
                    let m = String::from_str("Container is not available after ").concat(
                        decimal_string(MAX_RETRY).as_str(),
                    ).concat(" attempts");
                    RetryAction::Unavailable(m)
                }
            },
            RetryStage::Running => {
                self.stage = RetryStage::Done;
                match event {
                    RetryEvent::TimedOut { current, container_id } => {
                        let timeout = match self.timeout {
                            Some(t) => t,
                            None => 0,
                        };
                        let remove_container = removes_container(&current, &container_id);
                        RetryAction::TimedOut { timeout, remove_container }
                    },
                    RetryEvent::Failed { rpc } => {
                        if rpc {
                            self.stage = RetryStage::CheckingHealth;
                            RetryAction::CheckHealth
                        } else {
                            RetryAction::Return
                        }
                    },
                    _ => RetryAction::Return,
                }
            },
            RetryStage::CheckingHealth => {
                if matches!(event, RetryEvent::Health(false)) {
                    self.stage = RetryStage::AwaitingExit;
                    RetryAction::AwaitExit
                } else {
                    self.stage = RetryStage::Done;
                    RetryAction::Return
                }
            },
            RetryStage::AwaitingExit => {
                self.stage = RetryStage::Done;
                match event {
                    RetryEvent::Exited { container_id, exit_info: Some(info) } => {
                        RetryAction::ContainerExited { container_id, exit_info: info }
                    },
                    _ => RetryAction::Return,
                }
            },
            RetryStage::Done => RetryAction::Return,
        }
    }
}

/// Call `c` once it has taken event `e`.
pub open spec fn call_after(c: RetryCall, e: RetryEvent) -> RetryCall {
    let (stage, attempt, _) = next_call_step(c, e);
    RetryCall { stage, attempt, ..c }
}

/// The actions that call `c` takes on `events`, one per event.
pub open spec fn call_run(c: RetryCall, events: Seq<RetryEvent>) -> Seq<RetryView>
    decreases events.len(),
{
    if events.len() == 0 {
        Seq::empty()
    } else {
        seq![next_call_step(c, events[0]).2] + call_run(call_after(c, events[0]), events.skip(1))
    }
}

/// How many of `actions` run the operation.
pub open spec fn runs(actions: Seq<RetryView>) -> nat
    decreases actions.len(),
{
    if actions.len() == 0 {
        0
    } else {
        (if actions[0] is Run {
            1nat
        } else {
            0nat
        }) + runs(actions.skip(1))
    }
}

/// A call runs its operation at most once, whatever it is told: once it ran
/// the operation, it only checks the container and stops.
pub proof fn lemma_call_runs_at_most_once(c: RetryCall, events: Seq<RetryEvent>)
    ensures
        runs(call_run(c, events)) <= (if c.stage is Idle || c.stage is GettingContainer {
            1nat
        } else {
            0nat
        }),
    decreases events.len(),
{
    if events.len() > 0 {
        let e = events[0];
        let actions = call_run(c, events);
        lemma_call_runs_at_most_once(call_after(c, e), events.skip(1));
        assert(actions.skip(1) =~= call_run(call_after(c, e), events.skip(1)));
    }
}

/// A call stops with the unavailable message exactly when it fails to get a
/// container for the `MAX_RETRY`-th time, and keeps trying before that.
pub proof fn lemma_call_gives_up_after_max_retry(c: RetryCall)
    requires
        c.stage is GettingContainer,
        1 <= c.attempt <= MAX_RETRY,
    ensures
        next_call_step(c, RetryEvent::ContainerUnavailable).2 is Unavailable <==> c.attempt
            == MAX_RETRY,
        c.attempt < MAX_RETRY ==> next_call_step(c, RetryEvent::ContainerUnavailable) == (
            RetryStage::GettingContainer,
            (c.attempt + 1) as u64,
            RetryView::GetContainer,
        ),
{
}

/// The tags of the three images of one zkVM: the base image with the common
/// dependencies, the zkVM's base image with its SDK, and the server image.
#[derive(Debug, Clone)]
pub struct ImageTags {
    pub base: String,
    pub base_zkvm: String,
    pub server: String,
}

/// One argument of an image build: a key and its value, or a variable that
/// the build takes from the environment.
#[derive(Debug)]
pub enum BuildArg {
    Value(String, String),
    FromEnv(&'static str),
}

/// One image build: the Dockerfile, relative to the workspace, the tag, and
/// the arguments, in order.
#[derive(Debug)]
pub struct ImageBuild {
    pub dockerfile: String,
    pub tag: String,
    pub args: Vec<BuildArg>,
}

/// What the build of a server image does next.
#[derive(Debug)]
pub enum BuildAction {
    /// Ask whether this image exists locally.
    CheckImage(String),
    /// Pull this image from the registry.
    PullImage(String),
    /// Detect the CUDA architectures of the machine's GPUs.
    DetectCudaArchs,
    /// Build this image.
    Build(ImageBuild),
    /// Stop: the server image is there.
    Finished,
}

/// What the last action found.
#[derive(Debug)]
pub enum BuildEvent {
    /// The build starts.
    Begin,
    /// Whether the image asked for exists.
    Exists(bool),
    /// Whether the pull succeeded.
    Pulled(bool),
    /// The CUDA architectures found.
    CudaArchs(Vec<u32>),
    /// The image was built.
    Built,
}

/// Where the build of a server image stands.
#[derive(Clone, Copy, Debug, PartialEq, Eq, Structural)]
pub enum BuildStage {
    Idle,
    CheckingServer,
    Pulling,
    CheckingPulled,
    DetectingArchs,
    CheckingBase,
    BuildingBase,
    CheckingBaseZkvm,
    BuildingBaseZkvm,
    BuildingServer,
    Done,
}

/// The build of the server image of a zkVM: the base image, then the zkVM's
/// base image, then the server image, each on top of the one before. With
/// `gpu` the images get GPU support. Images are cached: unless
/// `force_rebuild`, an existing server image (or, with a `registry`, one that
/// could be pulled) is used as it is, and an existing base image is not
/// rebuilt; forcing also rules out pulling.
#[derive(Debug)]
pub struct ServerImageBuild {
    pub zkvm_kind: ZkvmKind,
    pub gpu: bool,
    pub force_rebuild: bool,
    pub registry: bool,
    pub tags: ImageTags,
    pub stage: BuildStage,
    pub cuda_archs: Vec<u32>,
}

/// A build argument as its key and, unless taken from the environment, its
/// value.
pub open spec fn arg_view(a: BuildArg) -> (Seq<char>, Option<Seq<char>>) {
    match a {
        BuildArg::Value(k, v) => (k@, Some(v@)),
        BuildArg::FromEnv(k) => (k@, None),
    }
}

/// Build arguments as keys and values.
pub open spec fn args_view(args: Seq<BuildArg>) -> Seq<(Seq<char>, Option<Seq<char>>)> {
    args.map_values(|a: BuildArg| arg_view(a))
}

/// An action as plain values.
pub enum ActionView {
    CheckImage(Seq<char>),
    PullImage(Seq<char>),
    DetectCudaArchs,
    Build(Seq<char>, Seq<char>, Seq<(Seq<char>, Option<Seq<char>>)>),
    Finished,
}

/// The action `a` as plain values.
pub open spec fn action_view(a: BuildAction) -> ActionView {
    match a {
        BuildAction::CheckImage(t) => ActionView::CheckImage(t@),
        BuildAction::PullImage(t) => ActionView::PullImage(t@),
        BuildAction::DetectCudaArchs => ActionView::DetectCudaArchs,
        BuildAction::Build(b) => ActionView::Build(b.dockerfile@, b.tag@, args_view(b.args@)),
        BuildAction::Finished => ActionView::Finished,
    }
}

/// The arguments that give an image of `kind` GPU support for `archs`.
pub open spec fn gpu_args(kind: ZkvmKind, archs: Seq<u32>) -> Seq<(Seq<char>, Option<Seq<char>>)> {
    seq![("CUDA"@, Some("1"@))] + if archs.len() == 0 || kind is SP1 {
        Seq::empty()
    } else {
        seq![
            (if kind is OpenVM {
                "CUDA_ARCH"@
            } else {
                "CUDA_ARCHS"@
            }, Some(join_archs(archs))),
        ]
    }
}

/// The build of the base image.
pub open spec fn base_build(m: ServerImageBuild) -> ActionView {
    ActionView::Build(
        "docker/Dockerfile.base"@,
        m.tags.base@,
        if m.gpu {
            seq![("CUDA"@, Some("1"@))]
        } else {
            seq![]
        },
    )
}

/// The build of the zkVM's base image, or with `server` of the server image,
/// each on top of the image before it.
pub open spec fn zkvm_build(m: ServerImageBuild, server: bool) -> ActionView {
    let dir = "docker/"@ + m.zkvm_kind.spec_name();
    let head = if server {
        seq![("BASE_ZKVM_IMAGE"@, Some(m.tags.base_zkvm@)), ("RUSTFLAGS"@, None)]
    } else {
        seq![("BASE_IMAGE"@, Some(m.tags.base@)), ("RUSTFLAGS"@, None)]
    };
    ActionView::Build(
        dir + if server {
            "/Dockerfile.server"@
        } else {
            "/Dockerfile.base"@
        },
        if server {
            m.tags.server@
        } else {
            m.tags.base_zkvm@
        },
        head + if m.gpu {
            gpu_args(m.zkvm_kind, m.cuda_archs@)
        } else {
            seq![]
        },
    )
}

/// The step into the base image: build it when forced, else ask whether it
/// exists.
pub open spec fn base_phase(m: ServerImageBuild) -> (BuildStage, ActionView) {
    if m.force_rebuild {
        (BuildStage::BuildingBase, base_build(m))
    } else {
        (BuildStage::CheckingBase, ActionView::CheckImage(m.tags.base@))
    }
}

/// The step into the zkVM's base image: build it when forced, else ask
/// whether it exists.
pub open spec fn zkvm_phase(m: ServerImageBuild) -> (BuildStage, ActionView) {
    if m.force_rebuild {
        (BuildStage::BuildingBaseZkvm, zkvm_build(m, false))
    } else {
        (BuildStage::CheckingBaseZkvm, ActionView::CheckImage(m.tags.base_zkvm@))
    }
}

/// The step into the builds: detect the GPUs' architectures first when
/// building with GPU support.
pub open spec fn begin_builds(m: ServerImageBuild) -> (BuildStage, ActionView) {
    if m.gpu {
        (BuildStage::DetectingArchs, ActionView::DetectCudaArchs)
    } else {
        base_phase(m)
    }
}

/// Whether `e` answers the action of stage `stage`.
pub open spec fn answers(stage: BuildStage, e: BuildEvent) -> bool {
    match stage {
        BuildStage::Idle => e is Begin,
        BuildStage::CheckingServer => e is Exists,
        BuildStage::Pulling => e is Pulled,
        BuildStage::CheckingPulled => e is Exists,
        BuildStage::DetectingArchs => e is CudaArchs,
        BuildStage::CheckingBase => e is Exists,
        BuildStage::BuildingBase => e is Built,
        BuildStage::CheckingBaseZkvm => e is Exists,
        BuildStage::BuildingBaseZkvm => e is Built,
        BuildStage::BuildingServer => e is Built,
        BuildStage::Done => false,
    }
}

/// The next stage and action of build `m` after event `e`; with
/// `CudaArchs(a)` the build also keeps `a`.
pub open spec fn next_step(m: ServerImageBuild, e: BuildEvent) -> (BuildStage, ActionView) {
    match m.stage {
        BuildStage::Idle => if m.force_rebuild {
            begin_builds(m)
        } else {
            (BuildStage::CheckingServer, ActionView::CheckImage(m.tags.server@))
        },
        BuildStage::CheckingServer => if e == BuildEvent::Exists(true) {
            (BuildStage::Done, ActionView::Finished)
        } else if m.registry {
            (BuildStage::Pulling, ActionView::PullImage(m.tags.server@))
        } else {
            begin_builds(m)
        },
        BuildStage::Pulling => if e == BuildEvent::Pulled(true) {
            (BuildStage::CheckingPulled, ActionView::CheckImage(m.tags.server@))
        } else {
            begin_builds(m)
        },
        BuildStage::CheckingPulled => if e == BuildEvent::Exists(true) {
            (BuildStage::Done, ActionView::Finished)
        } else {
            begin_builds(m)
        },
        BuildStage::DetectingArchs => base_phase(m),
        BuildStage::CheckingBase => if e == BuildEvent::Exists(true) {
            zkvm_phase(m)
        } else {
            (BuildStage::BuildingBase, base_build(m))
        },
        BuildStage::BuildingBase => zkvm_phase(m),
        BuildStage::CheckingBaseZkvm => if e == BuildEvent::Exists(true) {
            (BuildStage::BuildingServer, zkvm_build(m, true))
        } else {
            (BuildStage::BuildingBaseZkvm, zkvm_build(m, false))
        },
        BuildStage::BuildingBaseZkvm => (BuildStage::BuildingServer, zkvm_build(m, true)),
        BuildStage::BuildingServer => (BuildStage::Done, ActionView::Finished),
        BuildStage::Done => (BuildStage::Done, ActionView::Finished),
    }
}

/// A GPU build of the zkVM's base image or of the server image passes
/// `CUDA=1` after its image and `RUSTFLAGS` arguments, then the detected CUDA
/// architectures, comma-joined: as `CUDA_ARCH` to OpenVM and as `CUDA_ARCHS`
/// to ZisK. SP1 takes no architectures, and none are passed when none were
/// detected.
pub proof fn lemma_gpu_builds_pass_archs(m: ServerImageBuild, server: bool)
    requires
        m.gpu,
    ensures
        zkvm_build(m, server) is Build,
        ({
            let args = zkvm_build(m, server)->Build_2;
            let archs = m.cuda_archs@;
            &&& args.len() >= 3
            &&& args[2] == ("CUDA"@, Some("1"@))
            &&& archs.len() > 0 && m.zkvm_kind is OpenVM ==> args.len() == 4 && args[3] == (
                "CUDA_ARCH"@,
                Some(join_archs(archs)),
            )
            &&& archs.len() > 0 && m.zkvm_kind is Zisk ==> args.len() == 4 && args[3] == (
                "CUDA_ARCHS"@,
                Some(join_archs(archs)),
            )
            &&& archs.len() == 0 || m.zkvm_kind is SP1 ==> args.len() == 3
        }),
{
}

/// Pushes the arguments that give an image of `kind` GPU support for `archs`.
fn push_gpu_args(args: &mut Vec<BuildArg>, kind: ZkvmKind, archs: &[u32])
    ensures
        args_view(final(args)@) == args_view(old(args)@) + gpu_args(kind, archs@),
{
    let ghost before = args@;
    args.push(BuildArg::Value(String::from_str("CUDA"), String::from_str("1")));
    proof {
        reveal_strlit("CUDA");
        reveal_strlit("1");
    }
    match apply_cuda_build_args(kind, archs) {
        Some((k, v)) => args.push(BuildArg::Value(k, v)),
        None => {},
    }
    assert(args_view(args@) =~= args_view(before) + gpu_args(kind, archs@));
}

impl ServerImageBuild {
    /// A build that has not started.
    pub fn new(zkvm_kind: ZkvmKind, gpu: bool, force_rebuild: bool, registry: bool, tags: ImageTags) -> (r:
        Self)
        ensures
            r.zkvm_kind == zkvm_kind,
            r.gpu == gpu,
            r.force_rebuild == force_rebuild,
            r.registry == registry,
            r.tags == tags,
            r.stage == BuildStage::Idle,
            r.cuda_archs@ == Seq::<u32>::empty(),
    {
        ServerImageBuild {
            zkvm_kind,
            gpu,
            force_rebuild,
            registry,
            tags,
            stage: BuildStage::Idle,
            cuda_archs: Vec::new(),
        }
    }

    /// The build of the base image.
    fn base_build(&self) -> (r: BuildAction)
        ensures
            action_view(r) == base_build(*self),
    {
        let mut args: Vec<BuildArg> = Vec::new();
        if self.gpu {
            args.push(BuildArg::Value(String::from_str("CUDA"), String::from_str("1")));
        }
        proof {
            reveal_strlit("CUDA");
            reveal_strlit("1");
        }
        assert(args_view(args@) =~= (if self.gpu {
            seq![("CUDA"@, Some("1"@))]
        } else {
            seq![]
        }));
        BuildAction::Build(
            ImageBuild {
                dockerfile: String::from_str("docker/Dockerfile.base"),
                tag: self.tags.base.clone(),
                args,
            },
        )
    }

    /// The build of the zkVM's base image, or with `server` of the server
    /// image.
    fn zkvm_build(&self, server: bool) -> (r: BuildAction)
        ensures
            action_view(r) == zkvm_build(*self, server),
    {
        let mut args: Vec<BuildArg> = Vec::new();
        if server {
            args.push(BuildArg::Value(String::from_str("BASE_ZKVM_IMAGE"), self.tags.base_zkvm.clone()));
        } else {
            args.push(BuildArg::Value(String::from_str("BASE_IMAGE"), self.tags.base.clone()));
        }
        args.push(BuildArg::FromEnv("RUSTFLAGS"));
        let ghost head = args@;
        if self.gpu {
            push_gpu_args(&mut args, self.zkvm_kind, self.cuda_archs.as_slice());
        }
        proof {
            reveal_strlit("BASE_ZKVM_IMAGE");
            reveal_strlit("BASE_IMAGE");
            reveal_strlit("RUSTFLAGS");
        }
        let dir = String::from_str("docker/").concat(self.zkvm_kind.as_str());
        let dockerfile = if server {
            dir.concat("/Dockerfile.server")
        } else {
            dir.concat("/Dockerfile.base")
        };
        let tag = if server {
            self.tags.server.clone()
        } else {
            self.tags.base_zkvm.clone()
        };
        let ghost gpu_part: Seq<(Seq<char>, Option<Seq<char>>)> = if self.gpu {
            gpu_args(self.zkvm_kind, self.cuda_archs@)
        } else {
            seq![]
        };
        assert(args_view(args@) =~= args_view(head) + gpu_part);
        let ghost head_view: Seq<(Seq<char>, Option<Seq<char>>)> = if server {
            seq![("BASE_ZKVM_IMAGE"@, Some(self.tags.base_zkvm@)), ("RUSTFLAGS"@, None)]
        } else {
            seq![("BASE_IMAGE"@, Some(self.tags.base@)), ("RUSTFLAGS"@, None)]
        };
        assert(args_view(head) =~= head_view);
        assert(dockerfile@ == ("docker/"@ + self.zkvm_kind.spec_name()) + if server {
            "/Dockerfile.server"@
        } else {
            "/Dockerfile.base"@
        });
        assert(tag@ == if server {
            self.tags.server@
        } else {
            self.tags.base_zkvm@
        });
        BuildAction::Build(ImageBuild { dockerfile, tag, args })
    }

    /// The step into the base image.
    fn enter_base(&mut self) -> (r: BuildAction)
        ensures
            (final(self).stage, action_view(r)) == base_phase(*old(self)),
            *final(self) == (ServerImageBuild { stage: final(self).stage, ..*old(self) }),
    {
        if self.force_rebuild {
            self.stage = BuildStage::BuildingBase;
            self.base_build()
        } else {
            self.stage = BuildStage::CheckingBase;
            BuildAction::CheckImage(self.tags.base.clone())
        }
    }

    /// The step into the zkVM's base image.
    fn enter_zkvm(&mut self) -> (r: BuildAction)
        ensures
            (final(self).stage, action_view(r)) == zkvm_phase(*old(self)),
            *final(self) == (ServerImageBuild { stage: final(self).stage, ..*old(self) }),
    {
        if self.force_rebuild {
            self.stage = BuildStage::BuildingBaseZkvm;
            self.zkvm_build(false)
        } else {
            self.stage = BuildStage::CheckingBaseZkvm;
            BuildAction::CheckImage(self.tags.base_zkvm.clone())
        }
    }

    /// The step into the builds.
    fn enter_builds(&mut self) -> (r: BuildAction)
        ensures
            (final(self).stage, action_view(r)) == begin_builds(*old(self)),
            *final(self) == (ServerImageBuild { stage: final(self).stage, ..*old(self) }),
    {
        if self.gpu {
            self.stage = BuildStage::DetectingArchs;
            BuildAction::DetectCudaArchs
        } else {
            self.enter_base()
        }
    }

    /// Takes the answer `event` to the last action and returns the next one.
    pub fn step(&mut self, event: BuildEvent) -> (r: BuildAction)
        requires
            answers(old(self).stage, event),
        ensures
            (final(self).stage, action_view(r)) == next_step(
                match event {
                    BuildEvent::CudaArchs(a) => ServerImageBuild { cuda_archs: a, ..*old(self) },
                    _ => *old(self),
                },
                event,
            ),
            final(self).zkvm_kind == old(self).zkvm_kind,
            final(self).gpu == old(self).gpu,
            final(self).force_rebuild == old(self).force_rebuild,
            final(self).registry == old(self).registry,
            final(self).tags == old(self).tags,
            event matches BuildEvent::CudaArchs(a) ==> final(self).cuda_archs == a,
            !(event is CudaArchs) ==> final(self).cuda_archs == old(self).cuda_archs,
    {
        match self.stage {
            BuildStage::Idle => {
                if self.force_rebuild {
                    self.enter_builds()
                } else {
                    self.stage = BuildStage::CheckingServer;
                    BuildAction::CheckImage(self.tags.server.clone())
                }
            },
            BuildStage::CheckingServer => {
                if matches!(event, BuildEvent::Exists(true)) {
                    self.stage = BuildStage::Done;
                    BuildAction::Finished
                } else if self.registry {
                    self.stage = BuildStage::Pulling;
                    BuildAction::PullImage(self.tags.server.clone())
                } else {
                    self.enter_builds()
                }
            },
            BuildStage::Pulling => {
                if matches!(event, BuildEvent::Pulled(true)) {
                    self.stage = BuildStage::CheckingPulled;
                    BuildAction::CheckImage(self.tags.server.clone())
                } else {
                    self.enter_builds()
                }
            },
            BuildStage::CheckingPulled => {
                if matches!(event, BuildEvent::Exists(true)) {
                    self.stage = BuildStage::Done;
                    BuildAction::Finished
                } else {
                    self.enter_builds()
                }
            },
            BuildStage::DetectingArchs => {
                match event {
                    BuildEvent::CudaArchs(a) => {
                        self.cuda_archs = a;
                    },
                    _ => {},
                }
                self.enter_base()
            },
            BuildStage::CheckingBase => {
                if matches!(event, BuildEvent::Exists(true)) {
                    self.enter_zkvm()
                } else {
                    self.stage = BuildStage::BuildingBase;
                    self.base_build()
                }
            },
            BuildStage::BuildingBase => self.enter_zkvm(),
            BuildStage::CheckingBaseZkvm => {
                if matches!(event, BuildEvent::Exists(true)) {
                    self.stage = BuildStage::BuildingServer;
                    self.zkvm_build(true)
                } else {
                    self.stage = BuildStage::BuildingBaseZkvm;
                    self.zkvm_build(false)
                }
            },
            BuildStage::BuildingBaseZkvm => {
                self.stage = BuildStage::BuildingServer;
                self.zkvm_build(true)
            },
            BuildStage::BuildingServer => {
                self.stage = BuildStage::Done;
                BuildAction::Finished
            },
            BuildStage::Done => BuildAction::Finished,
        }
    }
}

/// Build `m` once it has taken event `e`.
pub open spec fn after(m: ServerImageBuild, e: BuildEvent) -> ServerImageBuild {
    let m1 = match e {
        BuildEvent::CudaArchs(a) => ServerImageBuild { cuda_archs: a, ..m },
        _ => m,
    };
    ServerImageBuild { stage: next_step(m1, e).0, ..m1 }
}

/// The actions that build `m` takes on `events`, one per event.
pub open spec fn run(m: ServerImageBuild, events: Seq<BuildEvent>) -> Seq<ActionView>
    decreases events.len(),
{
    if events.len() == 0 {
        Seq::empty()
    } else {
        let e = events[0];
        let m1 = match e {
            BuildEvent::CudaArchs(a) => ServerImageBuild { cuda_archs: a, ..m },
            _ => m,
        };
        seq![next_step(m1, e).1] + run(after(m, e), events.skip(1))
    }
}

/// Whether stage `s` waits for an image check or a pull.
pub open spec fn is_query_stage(s: BuildStage) -> bool {
    s is CheckingServer || s is Pulling || s is CheckingPulled || s is CheckingBase
        || s is CheckingBaseZkvm
}

/// A forced rebuild neither asks whether an image exists nor pulls one: from
/// its start, whatever it is told, it only detects GPUs and builds.
pub proof fn lemma_forced_build_never_queries(m: ServerImageBuild, events: Seq<BuildEvent>)
    requires
        m.force_rebuild,
        !is_query_stage(m.stage),
    ensures
        forall|i: int|
            0 <= i < run(m, events).len() ==> !(#[trigger] run(m, events)[i] is CheckImage)
                && !(run(m, events)[i] is PullImage),
    decreases events.len(),
{
    if events.len() > 0 {
        let e = events[0];
        lemma_forced_build_never_queries(after(m, e), events.skip(1));
        let rest = run(after(m, e), events.skip(1));
        assert forall|i: int| 0 <= i < run(m, events).len() implies !(
        #[trigger] run(m, events)[i] is CheckImage) && !(run(m, events)[i] is PullImage) by {
            if i > 0 {
                assert(run(m, events)[i] == rest[i - 1]);
            }
        }
    }
}

/// An image is built only when the build is forced or the image was found
/// missing: the base image and the zkVM's base image right after the answer
/// that they do not exist, and the server image once the zkVM's base image is
/// in place. A server image that exists is used as it is unless forced.
pub proof fn lemma_builds_only_when_needed(m: ServerImageBuild, e: BuildEvent)
    requires
        answers(m.stage, e),
    ensures
        after(m, e).stage is BuildingBase ==> m.force_rebuild || (m.stage is CheckingBase && e
            == BuildEvent::Exists(false)),
        after(m, e).stage is BuildingBaseZkvm ==> m.force_rebuild || (m.stage is CheckingBaseZkvm
            && e == BuildEvent::Exists(false)),
        after(m, e).stage is BuildingServer ==> m.stage is BuildingBaseZkvm || (m.stage is CheckingBaseZkvm
            && e == BuildEvent::Exists(true)),
        m.stage is CheckingServer && e == BuildEvent::Exists(true) ==> next_step(m, e) == (
            BuildStage::Done,
            ActionView::Finished,
        ),
{
}

} // verus!

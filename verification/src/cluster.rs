//! The distributed cluster client's protocol: the bodies and paths it sends to
//! the manager, and what each of the manager's answers means.

use vstd::prelude::*;

use crate::encoding::{hex_digit, hex_lower, sha256, sha256_digest};
use crate::text::{contains_seq, decimal_string, decimal_text, str_contains, string_from_chars};

verus! {

/// Identifies one program version in the deployment loadout.
#[derive(Clone, Debug, PartialEq, Eq)]
pub struct ProgramRef {
    pub name: String,
    pub version: u32,
}

/// `name@v{version}`, the text form of a program reference.
pub open spec fn program_ref_text(name: Seq<char>, version: u32) -> Seq<char> {
    name + seq!['@', 'v'] + decimal_text(version as nat)
}

impl ProgramRef {
    /// The reference as `name@v{version}`.
    pub fn to_string(&self) -> (s: String)
        ensures
            s@ == program_ref_text(self.name@, self.version),
    {
        let version = decimal_string(self.version as u64);
        let s = self.name.clone().concat("@v").concat(version.as_str());
        proof {
            reveal_strlit("@v");
        }
        assert(s@ =~= program_ref_text(self.name@, self.version));
        s
    }
}

/// `POST /upload_input/{proof_uuid}` request body: the guest's whole input,
/// with no deferred continuation states.
#[derive(Debug)]
pub struct StdIn<'a> {
    buffer: &'a [u8],
}

impl<'a> View for StdIn<'a> {
    type V = Seq<u8>;

    closed spec fn view(&self) -> Seq<u8> {
        self.buffer@
    }
}

/// The bytes of `n` as a little-endian `u64`.
pub open spec fn le64(n: int) -> Seq<u8> {
    vstd::bytes::spec_u64_to_le_bytes(n as u64)
}

/// The staged input as the workers decode it: bincode's legacy encoding
/// (fixed-width little-endian integers) of a record whose `buffer` is a
/// sequence holding the one byte string `data` and whose `deferrals` is an
/// empty sequence. Each sequence is its length as a `u64`, then its items.
pub open spec fn upload_body_bytes(data: Seq<u8>) -> Seq<u8> {
    le64(1) + le64(data.len() as int) + data + le64(0)
}

impl<'a> StdIn<'a> {
    /// Stages `buffer` as the guest's whole input.
    pub fn from_bytes(buffer: &'a [u8]) -> (s: Self)
        ensures
            s@ == buffer@,
    {
        StdIn { buffer }
    }

    /// The staged input.
    pub fn buffer(&self) -> (b: &'a [u8])
        ensures
            b@ == self@,
    {
        self.buffer
    }

    /// The upload body that stages this input on the manager: the staged
    /// record in bincode's legacy encoding, which is what the workers decode
    /// it with. Encoding it into a vector always succeeds.
    pub fn upload_body(&self) -> (r: Result<Vec<u8>, Error>)
        ensures
            r is Ok,
            r matches Ok(body) ==> body@ == upload_body_bytes(self@),
    {
        match legacy_encode_staged_input(self.buffer) {
            Ok(body) => Ok(body),
            Err(e) => Err(Error::EncodeInput(e)),
        }
    }
}

/// `bincode::error::EncodeError`, the failure of a bincode encoding.
#[verifier::external_type_specification]
#[verifier::external_body]
pub struct ExEncodeError(::bincode::error::EncodeError);

/// The staged record for `data` (the one-element sequence of byte strings
/// `[data]`, then the empty sequence of deferrals), encoded by
/// `bincode::serde::encode_to_vec` with `bincode::config::legacy()`.
///
/// Trusted: the legacy configuration writes integers at fixed width, little
/// endian, a sequence as its length as a `u64` followed by its items, a byte
/// as itself, `()` as nothing and a pair as its two parts in order, which is
/// `upload_body_bytes`. The encoding does not fail here: it writes into a
/// vector, which takes every byte, under no size limit, and both sequences
/// report their lengths, so none of bincode's error paths is reached.
#[verifier::external_body]
fn legacy_encode_staged_input(data: &[u8]) -> (r: Result<Vec<u8>, ::bincode::error::EncodeError>)
    ensures
        r is Ok,
        r matches Ok(body) ==> body@ == upload_body_bytes(data@),
{
    let buffer: Vec<&[u8]> = vec![data];
    let deferrals: Vec<()> = Vec::new();
    ::bincode::serde::encode_to_vec((buffer, deferrals), ::bincode::config::legacy())
}

/// The workers read the staged input back from its upload body: the outer
/// sequence holds one byte string, whose length prefix gives the input's
/// length and is followed by the input itself, and no deferral follows.
pub proof fn lemma_upload_body_decodes(data: Seq<u8>)
    requires
        data.len() <= u64::MAX,
    ensures
        ({
            let body = upload_body_bytes(data);
            &&& body.len() == 24 + data.len()
            &&& vstd::bytes::spec_u64_from_le_bytes(body.subrange(0, 8)) == 1
            &&& vstd::bytes::spec_u64_from_le_bytes(body.subrange(8, 16)) == data.len()
            &&& body.subrange(16, 16 + data.len() as int) == data
            &&& vstd::bytes::spec_u64_from_le_bytes(body.subrange(16 + data.len() as int, 24 + data.len() as int)) == 0
        }),
{
    vstd::bytes::lemma_auto_spec_u64_to_from_le_bytes();
    let body = upload_body_bytes(data);
    let n = data.len() as int;
    assert(le64(1).len() == 8);
    assert(le64(n).len() == 8);
    assert(le64(0).len() == 8);
    assert(body.subrange(0, 8) =~= le64(1));
    assert(body.subrange(8, 16) =~= le64(n));
    assert(body.subrange(16, 16 + n) =~= data);
    assert(body.subrange(16 + n, 24 + n) =~= le64(0));
}

/// `POST /start_proof` request body.
#[derive(Debug)]
pub struct StartProofRequest {
    pub proof_uuid: String,
    pub program: ProgramRef,
    /// Always false, since the input is staged on the manager, which fans it
    /// out.
    pub input_already_uploaded: bool,
    pub timeout_secs: Option<u64>,
}

impl StartProofRequest {
    /// The request that starts proof `proof_uuid` of `program` on an input
    /// already staged on the manager, with the manager's own timeout.
    pub fn new(proof_uuid: String, program: ProgramRef) -> (r: Self)
        ensures
            r.proof_uuid == proof_uuid,
            r.program == program,
            !r.input_already_uploaded,
            r.timeout_secs is None,
    {
        StartProofRequest { proof_uuid, program, input_already_uploaded: false, timeout_secs: None }
    }
}

/// `POST /cancel_proof` request body.
#[derive(Debug)]
pub struct CancelProofRequest {
    pub proof_uuid: String,
}

/// Proof states reported by `GET /proof_state` and `GET /proof_events`; the
/// failure variants carry the manager's reason.
#[derive(Clone, Debug, PartialEq, Eq)]
pub enum ProofStatus {
    InProgress,
    Completed,
    /// A worker reported a fatal error and the manager is draining its peers.
    /// Transient, so it still settles into `Failed`.
    Failing(String),
    Failed(String),
    Canceled,
}

/// Whether `s` is a proof's last status.
pub open spec fn settled(s: ProofStatus) -> bool {
    s is Completed || s is Failed || s is Canceled
}

impl ProofStatus {
    /// Whether this is the proof's last status.
    pub fn is_settled(&self) -> (r: bool)
        ensures
            r == settled(*self),
    {
        match self {
            ProofStatus::Completed => true,
            ProofStatus::Failed(_) => true,
            ProofStatus::Canceled => true,
            _ => false,
        }
    }
}

/// `GET /proof_state/{proof_uuid}` response, of which the client reads the
/// timing alone.
#[derive(Debug)]
pub struct ProofStateResponse {
    /// Wall-clock milliseconds from job admission to completion.
    pub e2e_latency_ms: Option<u64>,
}

/// `s` with every trailing `/` removed.
pub open spec fn trim_trailing_slashes(s: Seq<char>) -> Seq<char>
    decreases s.len(),
{
    if s.len() > 0 && s.last() == '/' {
        trim_trailing_slashes(s.drop_last())
    } else {
        s
    }
}

/// A trimmed address ends in no `/`, trimming it again changes nothing, and
/// what was removed was slashes only: paths appended to it start the path.
pub proof fn lemma_trimmed_endpoint(s: Seq<char>)
    ensures
        ({
            let t = trim_trailing_slashes(s);
            &&& t.len() == 0 || t.last() != '/'
            &&& trim_trailing_slashes(t) == t
            &&& t.len() <= s.len()
            &&& s.take(t.len() as int) == t
            &&& forall|i: int| t.len() <= i < s.len() ==> s[i] == '/'
        }),
    decreases s.len(),
{
    if s.len() > 0 && s.last() == '/' {
        lemma_trimmed_endpoint(s.drop_last());
        let t = trim_trailing_slashes(s);
        assert(t == trim_trailing_slashes(s.drop_last()));
        assert(s.drop_last().take(t.len() as int) =~= s.take(t.len() as int));
        assert forall|i: int| t.len() <= i < s.len() implies s[i] == '/' by {
            if i < s.len() - 1 {
                assert(s[i] == s.drop_last()[i]);
            }
        }
    } else {
        assert(s.take(s.len() as int) =~= s);
    }
}

/// The manager's base address with every trailing `/` removed, so that paths
/// can be appended.
pub fn trim_endpoint(endpoint: &str) -> (r: String)
    ensures
        r@ == trim_trailing_slashes(endpoint@),
{
    let chars = crate::text::chars_of(endpoint);
    let mut n = chars.len();
    assert(chars@.take(n as int) =~= endpoint@);
    while n > 0 && chars[n - 1] == '/'
        invariant
            0 <= n <= chars@.len(),
            chars@ == endpoint@,
            trim_trailing_slashes(endpoint@) == trim_trailing_slashes(chars@.take(n as int)),
        decreases n,
    {
        assert(chars@.take(n as int).drop_last() =~= chars@.take(n - 1));
        n = n - 1;
    }
    let mut out: Vec<char> = Vec::new();
    let mut i: usize = 0;
    while i < n
        invariant
            0 <= i <= n <= chars@.len(),
            out@ == chars@.take(i as int),
        decreases n - i,
    {
        out.push(chars[i]);
        i = i + 1;
        assert(out@ =~= chars@.take(i as int));
    }
    assert(chars@.take(endpoint@.len() as int) =~= endpoint@);
    string_from_chars(&out)
}

/// The address of `path` on the manager at `endpoint`.
pub fn endpoint_url(endpoint: &str, path: &str) -> (r: String)
    ensures
        r@ == endpoint@ + path@,
{
    String::from_str(endpoint).concat(path)
}

/// `prefix` followed by `proof_uuid`.
fn uuid_path(prefix: &str, proof_uuid: &str) -> (r: String)
    ensures
        r@ == prefix@ + proof_uuid@,
{
    String::from_str(prefix).concat(proof_uuid)
}

/// `/upload_input/{proof_uuid}`.
pub fn upload_path(proof_uuid: &str) -> (r: String)
    ensures
        r@ == "/upload_input/"@ + proof_uuid@,
{
    uuid_path("/upload_input/", proof_uuid)
}

/// `/proof_events/{proof_uuid}`.
pub fn proof_events_path(proof_uuid: &str) -> (r: String)
    ensures
        r@ == "/proof_events/"@ + proof_uuid@,
{
    uuid_path("/proof_events/", proof_uuid)
}

/// `/proof_state/{proof_uuid}`.
pub fn proof_state_path(proof_uuid: &str) -> (r: String)
    ensures
        r@ == "/proof_state/"@ + proof_uuid@,
{
    uuid_path("/proof_state/", proof_uuid)
}

/// `/proof/{proof_uuid}`.
pub fn proof_path(proof_uuid: &str) -> (r: String)
    ensures
        r@ == "/proof/"@ + proof_uuid@,
{
    uuid_path("/proof/", proof_uuid)
}

/// `/vk/{name}`.
pub fn vk_path(name: &str) -> (r: String)
    ensures
        r@ == "/vk/"@ + name@,
{
    uuid_path("/vk/", name)
}

/// Path of the request that starts a proof.
pub const START_PROOF_PATH: &'static str = "/start_proof";

/// Path of the request that cancels a proof.
pub const CANCEL_PROOF_PATH: &'static str = "/cancel_proof";

/// Silence allowed on the event stream, in seconds, before the connection
/// counts as dead.
pub const EVENT_STREAM_READ_TIMEOUT_SECS: u64 = 60;

/// Seconds to wait before re-submitting a proof the cluster could not take.
pub const BUSY_RETRY_INTERVAL_SECS: u64 = 5;

/// Seconds a plain request may take.
pub const REQUEST_TIMEOUT_SECS: u64 = 300;

/// Seconds a connection may take to open.
pub const CONNECT_TIMEOUT_SECS: u64 = 10;

/// What can go wrong in a cluster request, as far as the protocol decides.
#[derive(Debug)]
pub enum Error {
    /// The manager answered `status` to the request for `path`, with `body`.
    Status { path: String, status: u16, body: String },
    /// The cluster is busy with another proof.
    ClusterBusy,
    /// The deployment does not serve `program`.
    ProgramNotRegistered { program: String },
    /// The cluster's stack is not ready yet.
    NotReady(String),
    /// The deadline passed before the proof was submitted.
    CreateProveJobTimeout,
    /// The deadline passed before the proof settled.
    ProveTimeout { proof_uuid: String },
    /// The proof settled as failed.
    JobFailed { proof_uuid: String, reason: String },
    /// The proof settled as cancelled.
    JobCancelled { proof_uuid: String },
    /// The input has a part that the cluster cannot take.
    UnsupportedInput(&'static str),
    /// The input could not be encoded for staging.
    EncodeInput(::bincode::error::EncodeError),
    /// A response lacked a field.
    MissingField(&'static str),
    /// The program's verifying key could not be decoded.
    DecodeProgramVk(String),
    /// The proof's event stream failed.
    EventStream(String),
}

/// Whether `e` is the manager's answer `status` to `path`, with `body`.
pub open spec fn is_status_error(e: Error, path: Seq<char>, status: u16, body: Seq<char>) -> bool {
    e matches Error::Status { path: p, status: s, body: b } && p@ == path && s == status && b@
        == body
}

/// Whether `status` is an HTTP success, `2xx`.
pub open spec fn spec_is_success(status: u16) -> bool {
    200 <= status <= 299
}

/// Whether `status` is an HTTP success, `2xx`.
pub fn is_success(status: u16) -> (r: bool)
    ensures
        r == spec_is_success(status),
{
    200 <= status && status <= 299
}

/// Reads the answer `status` to the request for `path`: success is `Ok`, any
/// other status fails with the body the manager sent.
pub fn check_status(path: String, status: u16, body: String) -> (r: Result<(), Error>)
    ensures
        r is Ok <==> spec_is_success(status),
        r matches Err(e) ==> is_status_error(e, path@, status, body@),
{
    if is_success(status) {
        Ok(())
    } else {
        Err(Error::Status { path, status, body })
    }
}

/// Whether the manager took the cancellation of a proof; it refuses one that
/// has already settled.
pub fn cancel_outcome(status: u16) -> (r: bool)
    ensures
        r == spec_is_success(status),
{
    is_success(status)
}

/// Refuses an input with a dedicated proofs stream, which the cluster has no
/// way to stage.
pub fn check_input(has_proofs: bool) -> (r: Result<(), Error>)
    ensures
        r is Ok <==> !has_proofs,
        r matches Err(e) ==> e matches Error::UnsupportedInput(m) && m@
            == "no dedicated proofs stream"@,
{
    if has_proofs {
        Err(Error::UnsupportedInput("no dedicated proofs stream"))
    } else {
        Ok(())
    }
}

/// Reads the manager's answer to `POST /start_proof` for proof `proof_uuid`
/// of `program`. The manager runs one proof at a time, so a busy cluster
/// (`409`) or a worker that cannot take work yet (`503`, or `500` saying it
/// failed to accept work) is transient; a program outside the loadout
/// (`409` naming it) is not.
pub fn start_proof_outcome(proof_uuid: String, program: &ProgramRef, status: u16, body: String) -> (r:
    Result<String, Error>)
    ensures
        r is Ok <==> status == 200,
        r matches Ok(u) ==> u@ == proof_uuid@,
        status == 409 && contains_seq(body@, "program_not_in_loadout"@) ==> (r matches Err(
            Error::ProgramNotRegistered { program: p },
        ) && p@ == program_ref_text(program.name@, program.version)),
        status == 409 && !contains_seq(body@, "program_not_in_loadout"@) ==> (r matches Err(
            Error::ClusterBusy,
        )),
        status == 503 ==> (r matches Err(Error::NotReady(m)) && m@ == body@),
        status == 500 && contains_seq(body@, "failed to accept work"@) ==> (r matches Err(
            Error::NotReady(m),
        ) && m@ == body@),
        status == 500 && !contains_seq(body@, "failed to accept work"@) ==> (r matches Err(e)
            && is_status_error(e, START_PROOF_PATH@, status, body@)),
        status != 200 && status != 409 && status != 500 && status != 503 ==> (r matches Err(e)
            && is_status_error(e, START_PROOF_PATH@, status, body@)),
{
    if status == 200 {
        Ok(proof_uuid)
    } else if status == 409 {
        if str_contains(body.as_str(), "program_not_in_loadout") {
            Err(Error::ProgramNotRegistered { program: program.to_string() })
        } else {
            Err(Error::ClusterBusy)
        }
    } else if status == 503 {
        Err(Error::NotReady(body))
    } else if status == 500 {
        if str_contains(body.as_str(), "failed to accept work") {
            Err(Error::NotReady(body))
        } else {
            Err(Error::Status { path: String::from_str(START_PROOF_PATH), status, body })
        }
    } else {
        Err(Error::Status { path: String::from_str(START_PROOF_PATH), status, body })
    }
}

/// Reads the manager's answer to `GET /vk/{name}`: a program that the
/// deployment does not serve has no key, which the manager reports as `404`.
pub fn vk_response_outcome(name: &str, status: u16, body: String) -> (r: Result<(), Error>)
    ensures
        r is Ok <==> spec_is_success(status),
        status == 404 ==> (r matches Err(Error::ProgramNotRegistered { program: p }) && p@
            == name@),
        status != 404 && !spec_is_success(status) ==> (r matches Err(e) && is_status_error(
            e,
            "/vk/"@ + name@,
            status,
            body@,
        )),
{
    if status == 404 {
        Err(Error::ProgramNotRegistered { program: String::from_str(name) })
    } else {
        check_status(vk_path(name), status, body)
    }
}

/// The outcome of a settled proof: `Ok` once completed, and the reason or the
/// cancellation otherwise.
pub fn settled_outcome(proof_uuid: &str, status: ProofStatus) -> (r: Result<(), Error>)
    requires
        settled(status),
    ensures
        r is Ok <==> status is Completed,
        status matches ProofStatus::Failed(reason) ==> (r matches Err(
            Error::JobFailed { proof_uuid: u, reason: m },
        ) && u@ == proof_uuid@ && m == reason),
        status is Canceled ==> (r matches Err(Error::JobCancelled { proof_uuid: u }) && u@
            == proof_uuid@),
{
    match status {
        ProofStatus::Completed => Ok(()),
        ProofStatus::Failed(reason) => Err(
            Error::JobFailed { proof_uuid: String::from_str(proof_uuid), reason },
        ),
        _ => Err(Error::JobCancelled { proof_uuid: String::from_str(proof_uuid) }),
    }
}

/// The cluster's self-reported proving time in milliseconds, from job
/// admission to completion.
pub fn proving_time_ms(state: &ProofStateResponse) -> (r: Result<u64, Error>)
    ensures
        state.e2e_latency_ms matches Some(ms) ==> r == Ok::<u64, Error>(ms),
        state.e2e_latency_ms is None ==> (r matches Err(Error::MissingField(f)) && f@
            == "e2e_latency_ms"@),
{
    match state.e2e_latency_ms {
        Some(ms) => Ok(ms),
        None => Err(Error::MissingField("e2e_latency_ms")),
    }
}

/// One event read from a proof's status stream.
#[derive(Debug)]
pub enum StreamEvent {
    /// The stream opened.
    Open,
    /// The manager reported `status`.
    Message(ProofStatus),
    /// The manager answered the subscription with `status` and `body`, which
    /// it will keep answering, so reconnecting is futile.
    InvalidStatusCode { status: u16, body: String },
    /// The connection broke; the stream reopens by itself.
    Interrupted,
}

/// What to do after a stream event.
#[derive(Debug)]
pub enum StreamStep {
    /// Keep reading.
    Continue,
    /// Close the stream: the proof settled in this status.
    Settled(ProofStatus),
    /// Close the stream and fail.
    Fail(Error),
}

/// Decides on one event of proof `proof_uuid`'s status stream. The stream
/// replays the current status on subscribe, so a reconnect misses no
/// transition, and the wait ends exactly on a settled status or on a status
/// code the manager will keep answering.
pub fn stream_step(proof_uuid: &str, event: StreamEvent) -> (r: StreamStep)
    ensures
        event is Open ==> r is Continue,
        event is Interrupted ==> r is Continue,
        event matches StreamEvent::Message(s) ==> (if settled(s) {
            r == StreamStep::Settled(s)
        } else {
            r is Continue
        }),
        event matches StreamEvent::InvalidStatusCode { status, body } ==> (r matches StreamStep::Fail(
            e,
        ) && is_status_error(e, "/proof_events/"@ + proof_uuid@, status, body@)),
        r matches StreamStep::Settled(s) ==> settled(s),
{
    match event {
        StreamEvent::Open => StreamStep::Continue,
        StreamEvent::Message(status) => {
            if status.is_settled() {
                StreamStep::Settled(status)
            } else {
                StreamStep::Continue
            }
        },
        StreamEvent::InvalidStatusCode { status, body } => StreamStep::Fail(
            Error::Status { path: proof_events_path(proof_uuid), status, body },
        ),
        StreamEvent::Interrupted => StreamStep::Continue,
    }
}

/// The failure of a status stream that ended before proof `proof_uuid`
/// settled.
pub fn stream_ended(proof_uuid: &str) -> (e: Error)
    ensures
        e matches Error::EventStream(m) && m@ == "the event stream for "@ + proof_uuid@
            + " ended before the proof settled"@,
{
    let m = String::from_str("the event stream for ").concat(proof_uuid).concat(
        " ended before the proof settled",
    );
    Error::EventStream(m)
}

/// What to do after one attempt to submit a proof.
#[derive(Debug)]
pub enum SubmitStep {
    /// The proof was submitted under this uuid.
    Submitted(String),
    /// Wait `BUSY_RETRY_INTERVAL_SECS` and submit again.
    Retry,
    /// Give up with this error.
    Fail(Error),
}

/// Decides on the result of one submission. A busy cluster or one whose
/// workers are not ready yet (which absorbs their ahead-of-time compile) is
/// retried; a program the deployment does not serve is a configuration
/// mismatch that retrying cannot repair, and fails like any other error.
pub fn submit_step(result: Result<String, Error>) -> (r: SubmitStep)
    ensures
        result matches Ok(u) ==> r == SubmitStep::Submitted(u),
        result matches Err(e) ==> (if e is ClusterBusy || e is NotReady {
            r is Retry
        } else {
            r == SubmitStep::Fail(e)
        }),
{
    match result {
        Ok(u) => SubmitStep::Submitted(u),
        Err(Error::ClusterBusy) => SubmitStep::Retry,
        Err(Error::NotReady(_)) => SubmitStep::Retry,
        Err(e) => SubmitStep::Fail(e),
    }
}

/// What a submission under a deadline came to: `None` when the deadline
/// passed before the submission settled, which fails; else what it settled
/// to.
pub fn submit_deadline_outcome<T>(submitted: Option<T>) -> (r: Result<T, Error>)
    ensures
        submitted is None ==> (r matches Err(Error::CreateProveJobTimeout)),
        submitted matches Some(res) ==> r == Ok::<T, Error>(res),
{
    match submitted {
        Some(res) => Ok(res),
        None => Err(Error::CreateProveJobTimeout),
    }
}

/// What the wait for proof `proof_uuid` under a deadline came to (`None`
/// when the deadline passed before the proof settled, which fails), and
/// whether to cancel the proof: exactly when the deadline passed.
pub fn wait_deadline_outcome<T>(proof_uuid: String, waited: Option<T>) -> (r: (bool, Result<T, Error>))
    ensures
        r.0 <==> waited is None,
        waited is None ==> (r.1 matches Err(Error::ProveTimeout { proof_uuid: u }) && u@
            == proof_uuid@),
        waited matches Some(res) ==> r.1 == Ok::<T, Error>(res),
{
    match waited {
        Some(res) => (false, Ok(res)),
        None => (true, Err(Error::ProveTimeout { proof_uuid })),
    }
}

/// Whether `s` is a proof uuid in its simple form: 32 lowercase hex digits,
/// which every worker accepts as a directory name.
pub open spec fn is_simple_uuid(s: Seq<char>) -> bool {
    &&& s.len() == 32
    &&& forall|i: int|
        0 <= i < s.len() ==> ('0' <= #[trigger] s[i] <= '9' || 'a' <= s[i] <= 'f')
}

/// Whether `s` is a random (version 4) uuid in its simple form: its
/// version digit, the 13th, is `4`, and its variant digit, the 17th, is one
/// of `8`, `9`, `a` and `b`.
pub open spec fn is_random_simple_uuid(s: Seq<char>) -> bool {
    &&& is_simple_uuid(s)
    &&& s[12] == '4'
    &&& (s[16] == '8' || s[16] == '9' || s[16] == 'a' || s[16] == 'b')
}

/// A fresh random proof uuid, by `uuid::Uuid::new_v4` in its simple form.
///
/// Trusted: a version 4 uuid is random but for its version nibble, set to
/// `4`, and its variant bits, set to `10`; its simple form is its 16 bytes as
/// 32 lowercase hex digits. Which uuid comes out is left open: it is random.
#[verifier::external_body]
fn random_proof_uuid() -> (s: String)
    ensures
        is_random_simple_uuid(s@),
{
    ::uuid::Uuid::new_v4().simple().to_string()
}

/// Checks that the cluster can take an input with (`has_proofs`) or without a
/// dedicated proofs stream, and if so draws the uuid of a new proof.
pub fn new_proof_uuid(has_proofs: bool) -> (r: Result<String, Error>)
    ensures
        r is Ok <==> !has_proofs,
        r matches Ok(u) ==> is_random_simple_uuid(u@),
        r matches Err(e) ==> e matches Error::UnsupportedInput(m) && m@
            == "no dedicated proofs stream"@,
{
    match check_input(has_proofs) {
        Ok(()) => Ok(random_proof_uuid()),
        Err(e) => Err(e),
    }
}

/// The program version every deployment serves; the name alone identifies
/// the program.
pub const PROGRAM_VERSION: u32 = 0;

/// The cluster-side name of the program whose ELF has `digest`: `program-`
/// and the first 8 digest bytes as 16 lowercase hex digits, that is the
/// big-endian `u64` they spell, zero-padded.
pub open spec fn program_name(digest: Seq<u8>) -> Seq<char> {
    "program-"@ + hex_lower(digest.take(8))
}

/// The cluster-side identity of the program whose ELF has SHA-256 `digest`.
pub fn program_ref_from_digest(digest: &[u8]) -> (r: ProgramRef)
    requires
        digest@.len() >= 8,
    ensures
        r.name@ == program_name(digest@),
        r.version == PROGRAM_VERSION,
{
    let mut out: Vec<char> = crate::text::chars_of("program-");
    proof {
        reveal_strlit("program-");
    }
    let ghost head = out@;
    assert(head.len() == 8);
    let mut i: usize = 0;
    while i < 8
        invariant
            0 <= i <= 8,
            digest@.len() >= 8,
            head == "program-"@,
            out@ == head + hex_lower(digest@.take(i as int)),
        decreases 8 - i,
    {
        let b = digest[i];
        let hi = b / 16;
        let lo = b % 16;
        let c_hi = if hi < 10 { (hi + 48) as char } else { (hi + 87) as char };
        let c_lo = if lo < 10 { (lo + 48) as char } else { (lo + 87) as char };
        assert(c_hi == hex_digit(hi as int));
        assert(c_lo == hex_digit(lo as int));
        out.push(c_hi);
        out.push(c_lo);
        i = i + 1;
        assert(hex_lower(digest@.take(i as int)) =~= hex_lower(digest@.take(i - 1)).push(c_hi).push(
            c_lo,
        ));
        assert(out@ =~= head + hex_lower(digest@.take(i as int)));
    }
    ProgramRef { name: string_from_chars(&out), version: PROGRAM_VERSION }
}

/// The cluster-side identity of the program `elf`. The deployment derives the
/// same name from the ELF it staged, so a name it does not know means the two
/// run different guests.
pub fn program_ref(elf: &[u8]) -> (r: ProgramRef)
    ensures
        r.name@ == program_name(sha256_digest(elf@)),
        r.version == PROGRAM_VERSION,
{
    let digest = sha256(elf);
    program_ref_from_digest(digest.as_slice())
}

} // verus!

//! The batch upload pipeline: admission control, a bounded-concurrency
//! coordinator, an exponential-backoff retry policy, and result aggregation.
//!
//! The pipeline's decisions are all here, verified; the host supplies the
//! transport (the actual network call) and the progress sink through the
//! [`UploadTransport`] and [`ProgressSink`] traits and performs the real
//! waiting and I/O.

use vstd::prelude::*;

verus! {

/// Largest number of requests one batch may hold.
pub const MAX_BATCH_SIZE: usize = 20;

/// Largest number of attempt sequences allowed to perform network I/O at once.
pub const MAX_CONCURRENT_UPLOADS: usize = 3;

/// Total attempts made for one request before it is given up.
pub const MAX_RETRIES: u32 = 3;

/// Backoff delay before the first retry, in milliseconds; it doubles after
/// every further failure.
pub const INITIAL_RETRY_DELAY: u64 = 1000;

/// One file to upload: where it lives, which project receives it, and the
/// name shown for it.
#[derive(Debug)]
pub struct UploadRequest {
    pub file_path: String,
    pub project_id: String,
    pub file_name: String,
}

impl Clone for UploadRequest {
    fn clone(&self) -> (r: Self)
        ensures
            r == *self,
    {
        UploadRequest {
            file_path: self.file_path.clone(),
            project_id: self.project_id.clone(),
            file_name: self.file_name.clone(),
        }
    }
}

/// Externally visible state of one upload.
#[derive(Debug, Clone, Copy, PartialEq, Eq, Structural)]
pub enum UploadStatus {
    Queued,
    Uploading,
    Processing,
    Completed,
    Failed,
    ManualExportRequired,
}

/// Terminal record for one request: produced exactly once, at the end of its
/// retry sequence. A successful upload ends as `ManualExportRequired`, since
/// the receiving service offers no automated retrieval of processed results.
#[derive(Debug)]
pub struct UploadOutcome {
    pub file_path: String,
    pub file_name: String,
    pub status: UploadStatus,
    pub error: Option<String>,
}

impl Clone for UploadOutcome {
    fn clone(&self) -> (r: Self)
        ensures
            r == *self,
    {
        UploadOutcome {
            file_path: self.file_path.clone(),
            file_name: self.file_name.clone(),
            status: self.status,
            error: match &self.error {
                Some(e) => Some(e.clone()),
                None => None,
            },
        }
    }
}

/// Aggregate over a finished batch.
#[derive(Debug)]
pub struct BatchUploadResult {
    pub total_files: usize,
    pub successful_uploads: usize,
    pub failed_uploads: usize,
    pub upload_results: Vec<UploadOutcome>,
    pub manual_export_required: bool,
}

/// Error surfaced to the caller of the pipeline.
#[derive(Debug)]
pub struct DescriptError {
    pub message: String,
    pub code: String,
}

impl Clone for DescriptError {
    fn clone(&self) -> (r: Self)
        ensures
            r == *self,
    {
        DescriptError { message: self.message.clone(), code: self.code.clone() }
    }
}

/// Progress notification handed to the host's sink; fire-and-forget.
#[derive(Debug)]
pub enum UploadEvent {
    Started { file_path: String, file_name: String },
    Progress { file_name: String, percent: u32 },
    Retrying { file_name: String, attempt: u32, max_retries: u32 },
    Completed { outcome: UploadOutcome },
    Failed { outcome: UploadOutcome },
}

/// The underlying operation wrapped by the retry policy: one upload attempt,
/// plus the wait the policy asks for between attempts. Implemented by the
/// host over its HTTP client; nothing is assumed of either method.
pub trait UploadTransport {
    fn attempt_upload(&mut self, request: &UploadRequest) -> Result<(), DescriptError>;

    fn backoff(&mut self, delay_ms: u64);
}

/// Event sink for progress reporting; delivery failure must never abort an
/// upload, so the method returns nothing.
pub trait ProgressSink {
    fn notify(&mut self, event: &UploadEvent);
}

/// 2^n.
pub open spec fn pow2(n: nat) -> nat
    decreases n,
{
    if n == 0 {
        1
    } else {
        2 * pow2((n - 1) as nat)
    }
}

/// Backoff delay slept before retry number `i + 1`:
/// `INITIAL_RETRY_DELAY * 2^i`.
pub open spec fn backoff_delay(i: int) -> nat {
    (INITIAL_RETRY_DELAY as nat) * pow2(i as nat)
}

/// Retry policy state for one request: how many attempts have failed and how
/// long to wait before the next one.
pub struct RetryState {
    failures: u32,
    delay_ms: u64,
}

impl RetryState {
    /// Number of failed attempts so far.
    pub closed spec fn failures(&self) -> u32 {
        self.failures
    }

    /// The wait before the next attempt, if one is still allowed.
    pub closed spec fn delay(&self) -> u64 {
        self.delay_ms
    }

    pub open spec fn wf(&self) -> bool {
        &&& self.failures() <= MAX_RETRIES
        &&& self.failures() < MAX_RETRIES ==> self.delay() as nat == backoff_delay(
            self.failures() as int,
        )
    }

    /// Number of failed attempts so far, for callers.
    pub fn failures_so_far(&self) -> (r: u32)
        ensures
            r == self.failures(),
    {
        self.failures
    }

    pub fn new() -> (r: Self)
        ensures
            r.wf(),
            r.failures() == 0,
            r.delay() == INITIAL_RETRY_DELAY,
    {
        proof {
            reveal_with_fuel(pow2, 1);
        }
        RetryState { failures: 0, delay_ms: INITIAL_RETRY_DELAY }
    }

    /// Record one failed attempt. Returns `Some((delay, attempt))` when the
    /// policy allows another attempt after sleeping `delay` milliseconds
    /// (`attempt` counts the failures so far, for the retry notification),
    /// and `None` when the attempts are exhausted.
    pub fn on_failure(&mut self) -> (r: Option<(u64, u32)>)
        requires
            old(self).wf(),
            old(self).failures() < MAX_RETRIES,
        ensures
            final(self).wf(),
            final(self).failures() == old(self).failures() + 1,
            r is None <==> old(self).failures() + 1 >= MAX_RETRIES,
            r matches Some(t) ==> {
                &&& t.0 == old(self).delay()
                &&& t.0 as nat == backoff_delay(old(self).failures() as int)
                &&& t.1 == old(self).failures() + 1
                &&& final(self).failures() < MAX_RETRIES
            },
    {
        proof {
            reveal_with_fuel(pow2, 4);
        }
        self.failures = self.failures + 1;
        if self.failures >= MAX_RETRIES {
            None
        } else {
            let d = self.delay_ms;
            self.delay_ms = self.delay_ms * 2;
            Some((d, self.failures))
        }
    }
}

/// True when the first `k` entries of an attempt script are failures.
pub open spec fn fails_before(script: Seq<Option<String>>, k: int) -> bool {
    forall|j: int| 0 <= j < k ==> script[j] is Some
}

/// What one full retry sequence did: its result, how many attempts ran, and
/// the backoff delays slept between them. One `Retrying` notification
/// corresponds to each recorded delay.
pub struct RetryRun {
    pub result: Result<(), String>,
    pub attempts: u32,
    pub delays: Vec<u64>,
}

/// Reference run of the retry policy against a fixed script of attempt
/// results: entry `i` is `None` when attempt `i` would succeed and
/// `Some(message)` when it would fail with that message.
///
/// The contract states the retry laws: a script whose first success comes at
/// attempt `k < MAX_RETRIES` yields success after `k + 1` attempts with the
/// backoff delays `INITIAL_RETRY_DELAY * 2^0 .. 2^(k-1)`; a script that opens
/// with `MAX_RETRIES` failures yields the last attempt's message after
/// exactly `MAX_RETRIES` attempts.
pub fn retry_with_script(script: &Vec<Option<String>>) -> (r: RetryRun)
    requires
        script@.len() >= MAX_RETRIES,
    ensures
        forall|k: int|
            0 <= k < MAX_RETRIES && script@[k] is None && fails_before(script@, k) ==> {
                &&& r.result is Ok
                &&& r.attempts == k + 1
                &&& r.delays@.len() == k
            },
        fails_before(script@, MAX_RETRIES as int) ==> {
            &&& r.result is Err
            &&& r.result->Err_0 == script@[MAX_RETRIES - 1]->0
            &&& r.attempts == MAX_RETRIES
            &&& r.delays@.len() == MAX_RETRIES - 1
        },
        forall|i: int| 0 <= i < r.delays@.len() ==> r.delays@[i] as nat == backoff_delay(i),
{
    let mut retry = RetryState::new();
    let mut delays: Vec<u64> = Vec::new();
    loop
        invariant
            retry.wf(),
            retry.failures() < MAX_RETRIES,
            script@.len() >= MAX_RETRIES,
            delays@.len() == retry.failures(),
            fails_before(script@, retry.failures() as int),
            forall|i: int| 0 <= i < delays@.len() ==> delays@[i] as nat == backoff_delay(i),
        decreases MAX_RETRIES - retry.failures(),
    {
        let failed: u32 = retry.failures_so_far();
        let attempt_index: usize = failed as usize;
        match &script[attempt_index] {
            None => {
                return RetryRun { result: Ok(()), attempts: failed + 1, delays };
            },
            Some(message) => {
                let last = message.clone();
                match retry.on_failure() {
                    None => {
                        return RetryRun { result: Err(last), attempts: MAX_RETRIES, delays };
                    },
                    Some((delay, _attempt)) => {
                        delays.push(delay);
                    },
                }
            },
        }
    }
}

/// Number of outcomes in `s` whose terminal status is `status`.
pub open spec fn count_status(s: Seq<UploadOutcome>, status: UploadStatus) -> nat
    decreases s.len(),
{
    if s.len() == 0 {
        0
    } else {
        count_status(s.drop_last(), status) + if s.last().status == status {
            1nat
        } else {
            0nat
        }
    }
}

proof fn lemma_count_status_le_len(s: Seq<UploadOutcome>, status: UploadStatus)
    ensures
        count_status(s, status) <= s.len(),
    decreases s.len(),
{
    if s.len() > 0 {
        lemma_count_status_le_len(s.drop_last(), status);
    }
}

/// Coordinator for one batch: holds the not-yet-started requests in
/// submission order, counts the attempt sequences currently in flight, and
/// collects the terminal outcomes in completion order.
///
/// Admission is enforced at construction (no batch over `MAX_BATCH_SIZE`
/// starts any work) and by `try_start`, which hands out a request only while
/// fewer than `MAX_CONCURRENT_UPLOADS` sequences are in flight.
pub struct UploadCoordinator {
    total: usize,
    queue: Vec<UploadRequest>,
    in_flight: usize,
    results: Vec<UploadOutcome>,
}

impl UploadCoordinator {
    /// Number of requests admitted into the batch.
    pub closed spec fn total(&self) -> usize {
        self.total
    }

    /// The requests not yet handed to a worker, in submission order.
    pub closed spec fn queued(&self) -> Seq<UploadRequest> {
        self.queue@
    }

    /// Number of attempt sequences started and not yet finished.
    pub closed spec fn in_flight_count(&self) -> usize {
        self.in_flight
    }

    /// The terminal outcomes recorded so far, in completion order.
    pub closed spec fn results_seq(&self) -> Seq<UploadOutcome> {
        self.results@
    }

    pub open spec fn wf(&self) -> bool {
        &&& self.total() <= MAX_BATCH_SIZE
        &&& self.in_flight_count() <= MAX_CONCURRENT_UPLOADS
        &&& self.queued().len() + self.in_flight_count() + self.results_seq().len()
            == self.total()
    }

    /// Admission control: a batch over `MAX_BATCH_SIZE` requests is rejected
    /// outright, before any work starts.
    pub fn new(requests: Vec<UploadRequest>) -> (r: Result<UploadCoordinator, DescriptError>)
        ensures
            r is Err <==> requests@.len() > MAX_BATCH_SIZE,
            r matches Err(e) ==> e.code@ == "BATCH_SIZE_EXCEEDED"@ && e.message@
                == "Batch size exceeds maximum of 20 files"@,
            r matches Ok(c) ==> {
                &&& c.wf()
                &&& c.total() == requests@.len()
                &&& c.queued() == requests@
                &&& c.in_flight_count() == 0
                &&& c.results_seq() == Seq::<UploadOutcome>::empty()
            },
    {
        if requests.len() > MAX_BATCH_SIZE {
            return Err(
                DescriptError {
                    message: "Batch size exceeds maximum of 20 files".to_owned(),
                    code: "BATCH_SIZE_EXCEEDED".to_owned(),
                },
            );
        }
        let total = requests.len();
        Ok(UploadCoordinator { total, queue: requests, in_flight: 0, results: Vec::new() })
    }

    /// Hand out the next request, or report why none can start now: the
    /// queue is empty, or the concurrency gate is full.
    pub fn try_start(&mut self) -> (r: Option<UploadRequest>)
        requires
            old(self).wf(),
        ensures
            final(self).wf(),
            final(self).total() == old(self).total(),
            final(self).results_seq() == old(self).results_seq(),
            r is Some <==> (old(self).queued().len() > 0 && old(self).in_flight_count()
                < MAX_CONCURRENT_UPLOADS),
            r matches Some(req) ==> {
                &&& req == old(self).queued()[0]
                &&& final(self).queued() == old(self).queued().drop_first()
                &&& final(self).in_flight_count() == old(self).in_flight_count() + 1
            },
            r is None ==> *final(self) == *old(self),
    {
        if self.queue.len() > 0 && self.in_flight < MAX_CONCURRENT_UPLOADS {
            let req = self.queue.remove(0);
            self.in_flight = self.in_flight + 1;
            proof {
                assert(self.queue@ =~= old(self).queue@.drop_first());
            }
            Some(req)
        } else {
            None
        }
    }

    /// Record the terminal outcome of one attempt sequence, freeing its slot
    /// at the concurrency gate.
    pub fn record_outcome(&mut self, outcome: UploadOutcome)
        requires
            old(self).wf(),
            old(self).in_flight_count() > 0,
        ensures
            final(self).wf(),
            final(self).total() == old(self).total(),
            final(self).queued() == old(self).queued(),
            final(self).in_flight_count() == old(self).in_flight_count() - 1,
            final(self).results_seq() == old(self).results_seq().push(outcome),
    {
        self.in_flight = self.in_flight - 1;
        self.results.push(outcome);
    }

    /// True once every admitted request has reached a terminal outcome.
    pub fn is_complete(&self) -> (b: bool)
        requires
            self.wf(),
        ensures
            b == (self.results_seq().len() == self.total()),
    {
        self.results.len() == self.total
    }

    /// Aggregate the finished batch. No outcome is lost: the result carries
    /// exactly one outcome per admitted request.
    pub fn into_result(self) -> (r: BatchUploadResult)
        requires
            self.wf(),
            self.results_seq().len() == self.total(),
        ensures
            r.total_files == self.total(),
            r.upload_results@ == self.results_seq(),
            r.upload_results@.len() == r.total_files,
            r.successful_uploads == count_status(
                self.results_seq(),
                UploadStatus::ManualExportRequired,
            ),
            r.failed_uploads == count_status(self.results_seq(), UploadStatus::Failed),
            r.manual_export_required == (r.successful_uploads > 0),
    {
        let mut successful: usize = 0;
        let mut failed: usize = 0;
        let n = self.results.len();
        for i in 0..n
            invariant
                n == self.results@.len(),
                successful == count_status(
                    self.results@.take(i as int),
                    UploadStatus::ManualExportRequired,
                ),
                failed == count_status(self.results@.take(i as int), UploadStatus::Failed),
                successful <= i,
                failed <= i,
        {
            proof {
                assert(self.results@.take(i + 1).drop_last() =~= self.results@.take(i as int));
                assert(self.results@.take(i + 1).last() == self.results@[i as int]);
            }
            match self.results[i].status {
                UploadStatus::ManualExportRequired => {
                    successful = successful + 1;
                },
                UploadStatus::Failed => {
                    failed = failed + 1;
                },
                _ => {},
            }
        }
        proof {
            assert(self.results@.take(n as int) =~= self.results@);
        }
        BatchUploadResult {
            total_files: self.total,
            successful_uploads: successful,
            failed_uploads: failed,
            manual_export_required: successful > 0,
            upload_results: self.results,
        }
    }
}

/// The concurrency bound: in every reachable coordinator state, at most
/// `MAX_CONCURRENT_UPLOADS` attempt sequences are in flight.
pub proof fn lemma_in_flight_bounded(c: &UploadCoordinator)
    requires
        c.wf(),
    ensures
        c.in_flight_count() <= MAX_CONCURRENT_UPLOADS,
{
}

/// Forwards events to the host's sink while keeping a ghost log of what
/// was sent, so that contracts can speak about the notification protocol.
/// Delivery stays fire-and-forget: the sink's behaviour is never assumed.
pub struct Reporter<S: ProgressSink> {
    sink: S,
    events: Ghost<Seq<UploadEvent>>,
}

impl<S: ProgressSink> Reporter<S> {
    /// The events forwarded so far, in order.
    pub closed spec fn log(&self) -> Seq<UploadEvent> {
        self.events@
    }

    /// Wrap the host's sink; nothing has been forwarded yet.
    pub fn new(sink: S) -> (r: Self)
        ensures
            r.log() == Seq::<UploadEvent>::empty(),
    {
        Reporter { sink, events: Ghost(Seq::empty()) }
    }

    /// Forward one event to the sink, recording it in the log.
    pub fn notify(&mut self, event: UploadEvent)
        ensures
            final(self).log() == old(self).log().push(event),
    {
        self.sink.notify(&event);
        proof {
            self.events@ = self.events@.push(event);
        }
    }

    /// The wrapped sink, for the host to read back.
    pub fn sink(&self) -> (r: &S) {
        &self.sink
    }

    /// Give the sink back.
    pub fn into_sink(self) -> (r: S) {
        self.sink
    }
}

/// The announcement that a request's processing began.
pub open spec fn started_event(request: UploadRequest) -> UploadEvent {
    UploadEvent::Started { file_path: request.file_path, file_name: request.file_name }
}

/// The ten synthetic progress notifications emitted for one request.
pub open spec fn progress_events(file_name: String) -> Seq<UploadEvent> {
    Seq::new(10, |i: int| UploadEvent::Progress { file_name, percent: (10 * (i + 1)) as u32 })
}

/// The retry notifications after each of the first `k` failures, numbered
/// from one.
pub open spec fn retry_events(file_name: String, k: int) -> Seq<UploadEvent> {
    Seq::new(
        k as nat,
        |i: int|
            UploadEvent::Retrying {
                file_name,
                attempt: (i + 1) as u32,
                max_retries: MAX_RETRIES,
            },
    )
}

/// The single terminal notification owed for an outcome.
pub open spec fn terminal_event(outcome: UploadOutcome) -> UploadEvent {
    if outcome.status == UploadStatus::ManualExportRequired {
        UploadEvent::Completed { outcome }
    } else {
        UploadEvent::Failed { outcome }
    }
}

/// The notification protocol of one request: exactly one `Started` first,
/// the ten progress ticks, one `Retrying` per failure before the verdict
/// (fewer than `MAX_RETRIES`), and exactly one terminal event, carrying
/// the request's outcome.
pub open spec fn request_trace(
    trace: Seq<UploadEvent>,
    request: UploadRequest,
    outcome: UploadOutcome,
) -> bool {
    exists|k: int|
        #![trigger retry_events(request.file_name, k)]
        {
            &&& 0 <= k < MAX_RETRIES
            &&& trace =~= seq![started_event(request)] + progress_events(request.file_name)
                + retry_events(request.file_name, k) + seq![terminal_event(outcome)]
        }
}

/// The event streams of consecutive requests, in order.
pub open spec fn concat_events(traces: Seq<Seq<UploadEvent>>) -> Seq<UploadEvent>
    decreases traces.len(),
{
    if traces.len() == 0 {
        Seq::empty()
    } else {
        concat_events(traces.drop_last()) + traces.last()
    }
}

/// The terminal record for a finished retry sequence: success becomes
/// `ManualExportRequired` (the service exposes no automated retrieval), and
/// exhaustion becomes `Failed` carrying the last attempt's message.
pub fn terminal_outcome(request: UploadRequest, result: Result<(), DescriptError>) -> (o:
    UploadOutcome)
    ensures
        o.file_path == request.file_path,
        o.file_name == request.file_name,
        result is Ok ==> o.status == UploadStatus::ManualExportRequired && o.error is None,
        result matches Err(e) ==> o.status == UploadStatus::Failed && (o.error matches Some(m)
            && m == e.message),
{
    match result {
        Ok(()) => UploadOutcome {
            file_path: request.file_path,
            file_name: request.file_name,
            status: UploadStatus::ManualExportRequired,
            error: None,
        },
        Err(e) => UploadOutcome {
            file_path: request.file_path,
            file_name: request.file_name,
            status: UploadStatus::Failed,
            error: Some(e.message),
        },
    }
}

/// What one run of the retry driver did: the last attempt's verdict, how
/// many attempts ran, and the backoff delays slept between them.
struct TransportRun {
    result: Result<(), DescriptError>,
    attempts: u32,
    delays: Vec<u64>,
}

/// Retry loop around the transport: attempt, and on failure consult the
/// policy, wait out the backoff, notify the sink, and try again until the
/// policy gives up. The run always holds between one and `MAX_RETRIES`
/// attempts, gives up only at `MAX_RETRIES`, sleeps the doubling backoff
/// schedule, and sends one `Retrying` notification per failure before the
/// verdict.
fn upload_file_with_retry<T: UploadTransport, S: ProgressSink>(
    transport: &mut T,
    reporter: &mut Reporter<S>,
    request: &UploadRequest,
) -> (r: TransportRun)
    ensures
        1 <= r.attempts <= MAX_RETRIES,
        r.result is Err ==> r.attempts == MAX_RETRIES,
        r.delays@.len() == r.attempts - 1,
        forall|i: int| 0 <= i < r.delays@.len() ==> r.delays@[i] as nat == backoff_delay(i),
        final(reporter).log() =~= old(reporter).log() + retry_events(
            request.file_name,
            r.attempts - 1,
        ),
{
    let mut retry = RetryState::new();
    let mut delays: Vec<u64> = Vec::new();
    proof {
        assert(retry_events(request.file_name, 0) =~= Seq::<UploadEvent>::empty());
        assert(reporter.log() =~= old(reporter).log() + retry_events(request.file_name, 0));
    }
    loop
        invariant
            retry.wf(),
            retry.failures() < MAX_RETRIES,
            delays@.len() == retry.failures(),
            forall|i: int| 0 <= i < delays@.len() ==> delays@[i] as nat == backoff_delay(i),
            reporter.log() =~= old(reporter).log() + retry_events(
                request.file_name,
                retry.failures() as int,
            ),
        decreases MAX_RETRIES - retry.failures(),
    {
        let failed_before = retry.failures_so_far();
        match transport.attempt_upload(request) {
            Ok(()) => {
                return TransportRun { result: Ok(()), attempts: failed_before + 1, delays };
            },
            Err(e) => {
                match retry.on_failure() {
                    None => {
                        return TransportRun { result: Err(e), attempts: MAX_RETRIES, delays };
                    },
                    Some((delay, attempt)) => {
                        transport.backoff(delay);
                        let event = UploadEvent::Retrying {
                            file_name: request.file_name.clone(),
                            attempt,
                            max_retries: MAX_RETRIES,
                        };
                        proof {
                            assert(retry_events(request.file_name, failed_before + 1)
                                =~= retry_events(request.file_name, failed_before as int).push(
                                event,
                            ));
                        }
                        reporter.notify(event);
                        delays.push(delay);
                    },
                }
            },
        }
    }
}

/// Run one request to its terminal outcome, keeping the notification
/// protocol: one `Started` first, the progress ticks, one `Retrying` per
/// failure before the verdict, and exactly one terminal event carrying the
/// returned outcome. A successful upload ends as `ManualExportRequired`; an
/// exhausted one ends as `Failed` with the last attempt's message.
pub fn process_upload<T: UploadTransport, S: ProgressSink>(
    transport: &mut T,
    reporter: &mut Reporter<S>,
    request: UploadRequest,
) -> (o: UploadOutcome)
    ensures
        o.file_path == request.file_path,
        o.file_name == request.file_name,
        o.status == UploadStatus::ManualExportRequired || o.status == UploadStatus::Failed,
        (o.status == UploadStatus::ManualExportRequired) <==> (o.error is None),
        old(reporter).log().len() <= final(reporter).log().len(),
        final(reporter).log().take(old(reporter).log().len() as int) =~= old(reporter).log(),
        request_trace(
            final(reporter).log().skip(old(reporter).log().len() as int),
            request,
            o,
        ),
{
    let ghost log0 = reporter.log();
    let ghost req_snap = request;
    let started = UploadEvent::Started {
        file_path: request.file_path.clone(),
        file_name: request.file_name.clone(),
    };
    proof {
        assert(started == started_event(req_snap));
    }
    reporter.notify(started);
    let ghost log1 = reporter.log();
    for step in 1..11u32
        invariant
            request == req_snap,
            log1 == log0.push(started_event(req_snap)),
            reporter.log() =~= log1 + progress_events(req_snap.file_name).take(step - 1),
    {
        let event = UploadEvent::Progress {
            file_name: request.file_name.clone(),
            percent: step * 10,
        };
        proof {
            assert(progress_events(req_snap.file_name).take(step as int).drop_last()
                =~= progress_events(req_snap.file_name).take(step - 1));
            assert(progress_events(req_snap.file_name)[step - 1] == event);
        }
        reporter.notify(event);
    }
    proof {
        assert(progress_events(req_snap.file_name).take(10) =~= progress_events(
            req_snap.file_name,
        ));
        assert(reporter.log() =~= log1 + progress_events(req_snap.file_name));
    }
    let run = upload_file_with_retry(transport, reporter, &request);
    let ghost k = run.attempts - 1;
    let outcome = terminal_outcome(request, run.result);
    let terminal = if outcome.status == UploadStatus::ManualExportRequired {
        UploadEvent::Completed { outcome: outcome.clone() }
    } else {
        UploadEvent::Failed { outcome: outcome.clone() }
    };
    proof {
        assert(terminal == terminal_event(outcome));
    }
    reporter.notify(terminal);
    proof {
        let seg = seq![started_event(req_snap)] + progress_events(req_snap.file_name)
            + retry_events(req_snap.file_name, k) + seq![terminal_event(outcome)];
        assert(reporter.log() =~= log0 + seg);
        assert(reporter.log().take(log0.len() as int) =~= log0);
        assert(reporter.log().skip(log0.len() as int) =~= seg);
        assert(request_trace(seg, req_snap, outcome));
    }
    outcome
}

/// Entry point of the pipeline: validate the batch size, then run every
/// admitted request to a terminal outcome through the retry policy, and
/// aggregate. An oversized batch is rejected fail-fast: no attempt is made,
/// nothing is slept, and no notification is sent — the transport and the
/// reporter come back unchanged. Per-file failures never fail the call, and
/// the notification log grows by exactly one protocol-shaped trace per
/// request, in order.
///
/// This driver resolves the requests one at a time; a concurrent host
/// drives `UploadCoordinator` and the retry policy itself and joins all
/// workers before aggregating, which yields outcomes in completion order
/// instead of submission order.
pub fn submit_batch<T: UploadTransport, S: ProgressSink>(
    transport: &mut T,
    reporter: &mut Reporter<S>,
    requests: Vec<UploadRequest>,
) -> (r: Result<BatchUploadResult, DescriptError>)
    ensures
        r is Err <==> requests@.len() > MAX_BATCH_SIZE,
        r matches Err(e) ==> e.code@ == "BATCH_SIZE_EXCEEDED"@ && e.message@
            == "Batch size exceeds maximum of 20 files"@,
        r is Err ==> *final(transport) == *old(transport) && *final(reporter) == *old(reporter),
        r matches Ok(b) ==> {
            &&& b.total_files == requests@.len()
            &&& b.upload_results@.len() == requests@.len()
            &&& b.successful_uploads == count_status(
                b.upload_results@,
                UploadStatus::ManualExportRequired,
            )
            &&& b.failed_uploads == count_status(b.upload_results@, UploadStatus::Failed)
            &&& b.manual_export_required == (b.successful_uploads > 0)
            &&& (forall|i: int|
                0 <= i < requests@.len() ==> {
                    &&& (#[trigger] b.upload_results@[i]).file_path == requests@[i].file_path
                    &&& b.upload_results@[i].file_name == requests@[i].file_name
                    &&& (b.upload_results@[i].status == UploadStatus::ManualExportRequired
                        || b.upload_results@[i].status == UploadStatus::Failed)
                    &&& ((b.upload_results@[i].status == UploadStatus::ManualExportRequired)
                        <==> (b.upload_results@[i].error is None))
                })
            &&& exists|traces: Seq<Seq<UploadEvent>>|
                #![trigger concat_events(traces)]
                {
                    &&& traces.len() == requests@.len()
                    &&& final(reporter).log() =~= old(reporter).log() + concat_events(traces)
                    &&& (forall|i: int|
                        0 <= i < traces.len() ==> request_trace(
                            #[trigger] traces[i],
                            requests@[i],
                            b.upload_results@[i],
                        ))
                }
        },
{
    let ghost all_requests = requests@;
    let ghost log0 = reporter.log();
    let mut coordinator = match UploadCoordinator::new(requests) {
        Err(e) => {
            return Err(e);
        },
        Ok(c) => c,
    };
    let ghost mut traces: Seq<Seq<UploadEvent>> = Seq::empty();
    proof {
        assert(concat_events(traces) =~= Seq::<UploadEvent>::empty());
    }
    loop
        invariant
            coordinator.wf(),
            coordinator.in_flight_count() == 0,
            coordinator.total() == all_requests.len(),
            coordinator.queued() =~= all_requests.skip(coordinator.results_seq().len() as int),
            traces.len() == coordinator.results_seq().len(),
            reporter.log() =~= log0 + concat_events(traces),
            forall|i: int|
                0 <= i < traces.len() ==> request_trace(
                    #[trigger] traces[i],
                    all_requests[i],
                    coordinator.results_seq()[i],
                ),
            forall|i: int|
                0 <= i < coordinator.results_seq().len() ==> {
                    &&& (#[trigger] coordinator.results_seq()[i]).file_path
                        == all_requests[i].file_path
                    &&& coordinator.results_seq()[i].file_name == all_requests[i].file_name
                    &&& (coordinator.results_seq()[i].status == UploadStatus::ManualExportRequired
                        || coordinator.results_seq()[i].status == UploadStatus::Failed)
                    &&& ((coordinator.results_seq()[i].status
                        == UploadStatus::ManualExportRequired) <==> (
                    coordinator.results_seq()[i].error is None))
                },
        ensures
            coordinator.wf(),
            coordinator.in_flight_count() == 0,
            coordinator.queued().len() == 0,
            coordinator.total() == all_requests.len(),
            coordinator.results_seq().len() == all_requests.len(),
            traces.len() == coordinator.results_seq().len(),
            reporter.log() =~= log0 + concat_events(traces),
            forall|i: int|
                0 <= i < traces.len() ==> request_trace(
                    #[trigger] traces[i],
                    all_requests[i],
                    coordinator.results_seq()[i],
                ),
            forall|i: int|
                0 <= i < coordinator.results_seq().len() ==> {
                    &&& (#[trigger] coordinator.results_seq()[i]).file_path
                        == all_requests[i].file_path
                    &&& coordinator.results_seq()[i].file_name == all_requests[i].file_name
                    &&& (coordinator.results_seq()[i].status == UploadStatus::ManualExportRequired
                        || coordinator.results_seq()[i].status == UploadStatus::Failed)
                    &&& ((coordinator.results_seq()[i].status
                        == UploadStatus::ManualExportRequired) <==> (
                    coordinator.results_seq()[i].error is None))
                },
        decreases coordinator.queued().len(),
    {
        let ghost done_before = coordinator.results_seq().len();
        match coordinator.try_start() {
            None => {
                break;
            },
            Some(request) => {
                let ghost req_snap = request;
                let ghost log_before = reporter.log();
                let outcome = process_upload(transport, reporter, request);
                let ghost outcome_snap = outcome;
                coordinator.record_outcome(outcome);
                proof {
                    assert(coordinator.queued() =~= all_requests.skip(
                        coordinator.results_seq().len() as int,
                    ));
                    assert(req_snap == all_requests[done_before as int]);
                    let seg = reporter.log().skip(log_before.len() as int);
                    assert(request_trace(seg, req_snap, outcome_snap));
                    assert(reporter.log() =~= log_before + seg);
                    let old_traces = traces;
                    traces = traces.push(seg);
                    assert(traces.drop_last() =~= old_traces);
                    assert(traces.last() == seg);
                    assert(concat_events(traces) =~= concat_events(old_traces) + seg);
                    assert(reporter.log() =~= log0 + concat_events(traces));
                }
            },
        }
    }
    Ok(coordinator.into_result())
}

/// A project at the hosting service, as its API reports it.
#[derive(Debug)]
pub struct DescriptProject {
    pub id: String,
    pub name: String,
    pub created_at: String,
    pub updated_at: String,
}

/// Caller's request to create a project at the hosting service.
#[derive(Debug)]
pub struct CreateProjectRequest {
    pub name: String,
}

/// One file of a caller's batch upload request.
#[derive(Debug)]
pub struct UploadFileRequest {
    pub file_path: String,
    pub file_name: String,
}

/// A caller's batch upload request: files bound for one project.
#[derive(Debug)]
pub struct BatchUploadRequest {
    pub project_id: String,
    pub files: Vec<UploadFileRequest>,
}

/// Expand a caller's batch request into one upload request per file, each
/// carrying the shared project id.
pub fn expand_batch_request(request: BatchUploadRequest) -> (r: Vec<UploadRequest>)
    ensures
        r@.len() == request.files@.len(),
        forall|i: int|
            0 <= i < r@.len() ==> {
                &&& (#[trigger] r@[i]).file_path == request.files@[i].file_path
                &&& r@[i].file_name == request.files@[i].file_name
                &&& r@[i].project_id@ == request.project_id@
            },
{
    let mut out: Vec<UploadRequest> = Vec::new();
    let n = request.files.len();
    let mut i: usize = 0;
    while i < n
        invariant
            n == request.files@.len(),
            i <= n,
            out@.len() == i,
            forall|k: int|
                0 <= k < i ==> {
                    &&& (#[trigger] out@[k]).file_path == request.files@[k].file_path
                    &&& out@[k].file_name == request.files@[k].file_name
                    &&& out@[k].project_id@ == request.project_id@
                },
        decreases n - i,
    {
        let file = &request.files[i];
        out.push(
            UploadRequest {
                file_path: file.file_path.clone(),
                project_id: request.project_id.clone(),
                file_name: file.file_name.clone(),
            },
        );
        i = i + 1;
    }
    out
}

/// The manual export walkthrough shown once uploads finish: the hosting
/// service exposes no automated transcript retrieval, so the user exports
/// transcripts by hand into the watched folder.
#[derive(Debug)]
pub struct ExportInstructions {
    pub title: String,
    pub steps: Vec<String>,
    pub export_folder: String,
    pub important_notes: Vec<String>,
}

impl ExportInstructions {
    /// The walkthrough for a given export folder; the folder's path
    /// appears verbatim in the save step.
    pub fn new(export_folder: String) -> (r: Self)
        ensures
            r.title@ == "Manual Export Required from Descript"@,
            r.steps@.len() == 8,
            r.steps@[0]@ == "Open Descript in your web browser or desktop app"@,
            r.steps@[1]@ == "Navigate to the project containing your uploaded videos"@,
            r.steps@[2]@
                == "Wait for cloud transcription to complete (you'll see a progress indicator)"@,
            r.steps@[3]@ == "Once transcription is done, click on the project"@,
            r.steps@[4]@ == "Go to File -> Export -> Transcript"@,
            r.steps@[5]@ == "Choose 'Text (.txt)' or 'SRT (.srt)' format"@,
            r.steps@[6]@ == "Save the file to: "@ + export_folder@,
            r.steps@[7]@ == "ContentFlow will automatically detect and import the transcript"@,
            r.export_folder == export_folder,
            r.important_notes@.len() == 4,
            r.important_notes@[0]@
                == "The Descript API does not support automatic transcript retrieval"@,
            r.important_notes@[1]@ == "Make sure to save transcripts to the monitored folder"@,
            r.important_notes@[2]@
                == "Transcription time varies based on video length (typically 1-5 minutes)"@,
            r.important_notes@[3]@
                == "You'll receive a notification when the transcript is imported"@,
    {
        let mut steps: Vec<String> = Vec::new();
        steps.push("Open Descript in your web browser or desktop app".to_owned());
        steps.push("Navigate to the project containing your uploaded videos".to_owned());
        steps.push(
            "Wait for cloud transcription to complete (you'll see a progress indicator)".to_owned(),
        );
        steps.push("Once transcription is done, click on the project".to_owned());
        steps.push("Go to File -> Export -> Transcript".to_owned());
        steps.push("Choose 'Text (.txt)' or 'SRT (.srt)' format".to_owned());
        let mut save_step = ("Save the file to: ").to_owned();
        save_step.append(export_folder.as_str());
        steps.push(save_step);
        steps.push("ContentFlow will automatically detect and import the transcript".to_owned());
        let mut important_notes: Vec<String> = Vec::new();
        important_notes.push(
            "The Descript API does not support automatic transcript retrieval".to_owned(),
        );
        important_notes.push("Make sure to save transcripts to the monitored folder".to_owned());
        important_notes.push(
            "Transcription time varies based on video length (typically 1-5 minutes)".to_owned(),
        );
        important_notes.push(
            "You'll receive a notification when the transcript is imported".to_owned(),
        );
        ExportInstructions {
            title: "Manual Export Required from Descript".to_owned(),
            steps,
            export_folder,
            important_notes,
        }
    }
}



} // verus!

//! Batch pipeline behavior: admission control, aggregation, concurrency
//! gating, and the retry policy, driven through fake transports.

use contentflow::{
    retry_with_script, submit_batch, terminal_outcome, BatchUploadRequest, DescriptError,
    ProgressSink, Reporter, UploadCoordinator, UploadEvent, UploadFileRequest, UploadOutcome,
    UploadRequest, UploadStatus, UploadTransport, MAX_BATCH_SIZE, MAX_CONCURRENT_UPLOADS,
    MAX_RETRIES,
};

/// A transport that fails each file a configured number of times before
/// succeeding, recording every attempt and backoff wait.
struct FakeTransport {
    fails_for: Vec<(String, u32)>,
    attempts: Vec<String>,
    backoffs: Vec<u64>,
}

impl FakeTransport {
    fn new(fails_for: Vec<(String, u32)>) -> Self {
        FakeTransport { fails_for, attempts: Vec::new(), backoffs: Vec::new() }
    }

    fn attempts_for(&self, name: &str) -> usize {
        self.attempts.iter().filter(|a| a.as_str() == name).count()
    }
}

impl UploadTransport for FakeTransport {
    fn attempt_upload(&mut self, request: &UploadRequest) -> Result<(), DescriptError> {
        self.attempts.push(request.file_name.clone());
        for entry in self.fails_for.iter_mut() {
            if entry.0 == request.file_name && entry.1 > 0 {
                entry.1 -= 1;
                return Err(DescriptError {
                    message: format!("transport failure for {}", request.file_name),
                    code: "UPLOAD_ERROR".to_string(),
                });
            }
        }
        Ok(())
    }

    fn backoff(&mut self, delay_ms: u64) {
        self.backoffs.push(delay_ms);
    }
}

/// A sink that records every event it sees, both by kind and in order.
struct RecordingSink {
    started: Vec<String>,
    retrying: Vec<(String, u32, u32)>,
    completed: Vec<UploadOutcome>,
    failed: Vec<UploadOutcome>,
    order: Vec<String>,
}

impl RecordingSink {
    fn new() -> Self {
        RecordingSink {
            started: Vec::new(),
            retrying: Vec::new(),
            completed: Vec::new(),
            failed: Vec::new(),
            order: Vec::new(),
        }
    }
}

impl ProgressSink for RecordingSink {
    fn notify(&mut self, event: &UploadEvent) {
        match event {
            UploadEvent::Started { file_name, .. } => {
                self.order.push(format!("started {}", file_name));
                self.started.push(file_name.clone());
            }
            UploadEvent::Progress { file_name, percent } => {
                self.order.push(format!("progress {} {}", file_name, percent));
            }
            UploadEvent::Retrying { file_name, attempt, max_retries } => {
                self.order.push(format!("retrying {} {}", file_name, attempt));
                self.retrying.push((file_name.clone(), *attempt, *max_retries));
            }
            UploadEvent::Completed { outcome } => {
                self.order.push(format!("completed {}", outcome.file_name));
                self.completed.push(outcome.clone());
            }
            UploadEvent::Failed { outcome } => {
                self.order.push(format!("failed {}", outcome.file_name));
                self.failed.push(outcome.clone());
            }
        }
    }
}

fn request(name: &str) -> UploadRequest {
    UploadRequest {
        file_path: format!("/tmp/{}", name),
        project_id: "proj-1".to_string(),
        file_name: name.to_string(),
    }
}

#[test]
fn batch_of_five_all_succeed() {
    let requests: Vec<UploadRequest> =
        (0..5).map(|i| request(&format!("clip{}.mp4", i))).collect();
    let mut transport = FakeTransport::new(Vec::new());
    let mut reporter = Reporter::new(RecordingSink::new());
    let result = submit_batch(&mut transport, &mut reporter, requests).unwrap();
    assert_eq!(result.total_files, 5);
    assert_eq!(result.successful_uploads, 5);
    assert_eq!(result.failed_uploads, 0);
    assert!(result.manual_export_required);
    assert_eq!(result.upload_results.len(), 5);
    for outcome in &result.upload_results {
        assert_eq!(outcome.status, UploadStatus::ManualExportRequired);
        assert!(outcome.error.is_none());
    }
}

#[test]
fn oversized_batch_rejected_before_any_work() {
    let requests: Vec<UploadRequest> =
        (0..21).map(|i| request(&format!("clip{}.mp4", i))).collect();
    assert!(requests.len() == MAX_BATCH_SIZE + 1);
    let mut transport = FakeTransport::new(Vec::new());
    let mut reporter = Reporter::new(RecordingSink::new());
    let result = submit_batch(&mut transport, &mut reporter, requests);
    let err = result.err().expect("oversized batch must be rejected");
    assert_eq!(err.code, "BATCH_SIZE_EXCEEDED");
    assert_eq!(err.message, "Batch size exceeds maximum of 20 files");
    // no network call was made and no event of any kind fired
    assert_eq!(transport.attempts.len(), 0);
    assert_eq!(reporter.sink().order.len(), 0);
}

#[test]
fn batch_at_limit_accepted() {
    let requests: Vec<UploadRequest> =
        (0..MAX_BATCH_SIZE).map(|i| request(&format!("clip{}.mp4", i))).collect();
    let mut transport = FakeTransport::new(Vec::new());
    let mut reporter = Reporter::new(RecordingSink::new());
    let result = submit_batch(&mut transport, &mut reporter, requests).unwrap();
    assert_eq!(result.total_files, MAX_BATCH_SIZE);
    assert_eq!(result.upload_results.len(), MAX_BATCH_SIZE);
}

#[test]
fn no_outcome_lost_with_mixed_results() {
    let requests: Vec<UploadRequest> = vec![
        request("ok.mp4"),
        request("bad.mp4"),
        request("flaky.mp4"),
    ];
    // bad.mp4 always fails; flaky.mp4 fails once then succeeds
    let mut transport = FakeTransport::new(vec![
        ("bad.mp4".to_string(), u32::MAX),
        ("flaky.mp4".to_string(), 1),
    ]);
    let mut reporter = Reporter::new(RecordingSink::new());
    let result = submit_batch(&mut transport, &mut reporter, requests).unwrap();
    assert_eq!(result.total_files, 3);
    assert_eq!(result.upload_results.len(), 3);
    assert_eq!(result.successful_uploads, 2);
    assert_eq!(result.failed_uploads, 1);
    assert!(result.manual_export_required);
    let bad = result
        .upload_results
        .iter()
        .find(|o| o.file_name == "bad.mp4")
        .unwrap();
    assert_eq!(bad.status, UploadStatus::Failed);
    assert_eq!(
        bad.error.as_deref(),
        Some("transport failure for bad.mp4")
    );
    // terminal events were emitted exactly once per request
    let sink = reporter.sink();
    assert_eq!(sink.completed.len() + sink.failed.len(), 3);
    assert_eq!(sink.started.len(), 3);
}

#[test]
fn transport_failing_k_times_then_succeeding() {
    // two failures, then success: outcome is ManualExportRequired after
    // three attempts, with two Retrying notifications and doubling delays
    let requests = vec![request("slow.mp4")];
    let mut transport = FakeTransport::new(vec![("slow.mp4".to_string(), 2)]);
    let mut reporter = Reporter::new(RecordingSink::new());
    let result = submit_batch(&mut transport, &mut reporter, requests).unwrap();
    assert_eq!(result.successful_uploads, 1);
    assert_eq!(result.upload_results[0].status, UploadStatus::ManualExportRequired);
    assert_eq!(transport.attempts_for("slow.mp4"), 3);
    assert_eq!(transport.backoffs, vec![1000, 2000]);
    let sink = reporter.into_sink();
    assert_eq!(
        sink.retrying,
        vec![
            ("slow.mp4".to_string(), 1, MAX_RETRIES),
            ("slow.mp4".to_string(), 2, MAX_RETRIES),
        ]
    );
    // protocol: one Started first, one terminal last, retries in between
    assert_eq!(sink.order.first().map(|s| s.as_str()), Some("started slow.mp4"));
    assert_eq!(sink.order.last().map(|s| s.as_str()), Some("completed slow.mp4"));
    assert_eq!(sink.started.len(), 1);
    assert_eq!(sink.completed.len(), 1);
    assert_eq!(sink.failed.len(), 0);
}

#[test]
fn transport_always_failing_exhausts_retries() {
    let requests = vec![request("dead.mp4")];
    let mut transport = FakeTransport::new(vec![("dead.mp4".to_string(), u32::MAX)]);
    let mut reporter = Reporter::new(RecordingSink::new());
    let result = submit_batch(&mut transport, &mut reporter, requests).unwrap();
    assert_eq!(result.failed_uploads, 1);
    assert!(!result.manual_export_required);
    let outcome = &result.upload_results[0];
    assert_eq!(outcome.status, UploadStatus::Failed);
    // the outcome carries the last attempt's error message
    assert_eq!(
        outcome.error.as_deref(),
        Some("transport failure for dead.mp4")
    );
    // exactly MAX_RETRIES attempts ran, with MAX_RETRIES - 1 backoffs
    assert_eq!(transport.attempts_for("dead.mp4"), MAX_RETRIES as usize);
    assert_eq!(transport.backoffs, vec![1000, 2000]);
    let sink = reporter.into_sink();
    assert_eq!(sink.order.last().map(|s| s.as_str()), Some("failed dead.mp4"));
    assert_eq!(sink.completed.len(), 0);
    assert_eq!(sink.failed.len(), 1);
}

#[test]
fn retry_script_success_after_two_failures() {
    let script = vec![
        Some("first down".to_string()),
        Some("second down".to_string()),
        None,
    ];
    let run = retry_with_script(&script);
    assert!(run.result.is_ok());
    assert_eq!(run.attempts, 3);
    assert_eq!(run.delays, vec![1000, 2000]);
}

#[test]
fn retry_script_immediate_success() {
    let script = vec![None, Some("never seen".to_string()), Some("never seen".to_string())];
    let run = retry_with_script(&script);
    assert!(run.result.is_ok());
    assert_eq!(run.attempts, 1);
    assert!(run.delays.is_empty());
}

#[test]
fn retry_script_exhaustion_keeps_last_error() {
    let script = vec![
        Some("one".to_string()),
        Some("two".to_string()),
        Some("three".to_string()),
    ];
    let run = retry_with_script(&script);
    assert_eq!(run.result, Err("three".to_string()));
    assert_eq!(run.attempts, MAX_RETRIES);
    assert_eq!(run.delays, vec![1000, 2000]);
}

#[test]
fn coordinator_gates_concurrency_at_three() {
    let requests: Vec<UploadRequest> =
        (0..6).map(|i| request(&format!("clip{}.mp4", i))).collect();
    let mut coordinator = UploadCoordinator::new(requests).unwrap();
    let mut in_flight: usize = 0;
    let mut high_water: usize = 0;
    let mut started: Vec<UploadRequest> = Vec::new();
    // start as many uploads as admission permits: exactly MAX_CONCURRENT_UPLOADS
    while let Some(req) = coordinator.try_start() {
        started.push(req);
        in_flight += 1;
        high_water = high_water.max(in_flight);
    }
    assert_eq!(in_flight, MAX_CONCURRENT_UPLOADS);
    // finishing one admits exactly one more
    let done = started.remove(0);
    coordinator.record_outcome(UploadOutcome {
        file_path: done.file_path,
        file_name: done.file_name,
        status: UploadStatus::ManualExportRequired,
        error: None,
    });
    in_flight -= 1;
    while let Some(req) = coordinator.try_start() {
        started.push(req);
        in_flight += 1;
        high_water = high_water.max(in_flight);
    }
    assert_eq!(in_flight, MAX_CONCURRENT_UPLOADS);
    assert_eq!(high_water, MAX_CONCURRENT_UPLOADS);
    // drain the rest; admission stays within the cap throughout
    loop {
        if started.is_empty() {
            break;
        }
        let done = started.remove(0);
        coordinator.record_outcome(UploadOutcome {
            file_path: done.file_path,
            file_name: done.file_name,
            status: UploadStatus::ManualExportRequired,
            error: None,
        });
        in_flight -= 1;
        while let Some(req) = coordinator.try_start() {
            started.push(req);
            in_flight += 1;
            high_water = high_water.max(in_flight);
            assert!(in_flight <= MAX_CONCURRENT_UPLOADS);
        }
    }
    assert_eq!(high_water, MAX_CONCURRENT_UPLOADS);
    assert!(coordinator.is_complete());
    let result = coordinator.into_result();
    assert_eq!(result.total_files, 6);
    assert_eq!(result.successful_uploads, 6);
}

#[test]
fn expand_batch_request_shares_project() {
    let batch = BatchUploadRequest {
        project_id: "p7".to_string(),
        files: vec![
            UploadFileRequest {
                file_path: "/a/one.mp4".to_string(),
                file_name: "one.mp4".to_string(),
            },
            UploadFileRequest {
                file_path: "/a/two.mp4".to_string(),
                file_name: "two.mp4".to_string(),
            },
        ],
    };
    let requests = contentflow::expand_batch_request(batch);
    assert_eq!(requests.len(), 2);
    assert_eq!(requests[0].project_id, "p7");
    assert_eq!(requests[1].project_id, "p7");
    assert_eq!(requests[0].file_name, "one.mp4");
    assert_eq!(requests[1].file_path, "/a/two.mp4");
}

#[test]
fn export_instructions_embed_folder() {
    let instructions = contentflow::ExportInstructions::new("/data/exports".to_string());
    assert_eq!(instructions.title, "Manual Export Required from Descript");
    assert_eq!(instructions.steps.len(), 8);
    assert_eq!(instructions.steps[6], "Save the file to: /data/exports");
    assert_eq!(instructions.export_folder, "/data/exports");
    assert_eq!(instructions.important_notes.len(), 4);
}

#[test]
fn terminal_outcome_maps_success_to_manual_export() {
    let ok = terminal_outcome(request("a.mp4"), Ok(()));
    assert_eq!(ok.status, UploadStatus::ManualExportRequired);
    assert!(ok.error.is_none());
    assert_eq!(ok.file_name, "a.mp4");
    let err = terminal_outcome(
        request("b.mp4"),
        Err(DescriptError {
            message: "last failure".to_string(),
            code: "UPLOAD_ERROR".to_string(),
        }),
    );
    assert_eq!(err.status, UploadStatus::Failed);
    assert_eq!(err.error.as_deref(), Some("last failure"));
}

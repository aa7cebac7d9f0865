use fetcher::{
    after_response, classify_response, Next, is_html, is_success, range_header, start_decision, FetchConfig, FetchError,
    FetchOutcome, ProgressEvent, RedirectPolicy, SinkMode, Start, Transfer, WritePlan,
};

fn config(resume: bool, force: bool, recursive: bool) -> FetchConfig {
    FetchConfig {
        url: "http://example.com/file.bin".to_string(),
        output: None,
        verbose: false,
        redirects: RedirectPolicy::Limited(10),
        resume,
        force,
        recursive,
        max_depth: 5,
        max_concurrent: 5,
        same_domain: false,
    }
}

/// Runs one fetch against a simulated destination and server response, the
/// way the program does: returns the outcome and the destination afterwards.
fn simulate(
    cfg: &FetchConfig,
    file: Option<Vec<u8>>,
    status: u16,
    body: &[u8],
    chunk: usize,
) -> (FetchOutcome, Option<Vec<u8>>) {
    let len = file.as_ref().map(|f| f.len() as u64).unwrap_or(0);
    let next = after_response(cfg, file.is_some(), len, status, Some(body.len() as u64), None, &cfg.url);
    let plan = match next {
        Next::Finish(outcome) => return (outcome, file),
        Next::Write { plan, capture } => {
            assert!(!capture);
            plan
        }
    };
    let mut dest = match plan.sink {
        SinkMode::Append => file.unwrap(),
        SinkMode::Truncate => Vec::new(),
    };
    let mut t = Transfer::new(plan, false);
    for c in body.chunks(chunk) {
        let ev = t.on_chunk(c);
        assert_eq!(ev.delta, c.len() as u64);
        dest.extend_from_slice(c);
    }
    (t.finish(), Some(dest))
}

fn bytes(n: usize, seed: u8) -> Vec<u8> {
    (0..n).map(|i| (i as u8).wrapping_mul(7).wrapping_add(seed)).collect()
}

#[test]
fn single_download_completes_with_all_bytes() {
    let body = bytes(1000, 1);
    let (out, file) = simulate(&config(false, false, false), None, 200, &body, 128);
    assert_eq!(out, FetchOutcome::Completed(1000));
    assert_eq!(file.unwrap(), body);
}

#[test]
fn resume_partial_file_with_partial_content() {
    let full = bytes(1000, 3);
    let existing = full[..400].to_vec();
    let (out, file) = simulate(&config(true, false, false), Some(existing.clone()), 206, &full[400..], 100);
    assert_eq!(out, FetchOutcome::Completed(600));
    let file = file.unwrap();
    assert_eq!(file.len(), 1000);
    assert_eq!(&file[..400], &existing[..]);
    assert_eq!(file, full);
}

#[test]
fn resume_ignored_by_server_restarts_from_scratch() {
    let existing = bytes(400, 9);
    let full = bytes(1000, 3);
    let (out, file) = simulate(&config(true, false, false), Some(existing), 200, &full, 333);
    assert_eq!(out, FetchOutcome::Completed(1000));
    assert_eq!(file.unwrap(), full);
}

#[test]
fn force_overwrites_existing_file() {
    let existing = bytes(1000, 5);
    let fresh = bytes(500, 8);
    let (out, file) = simulate(&config(true, true, false), Some(existing), 200, &fresh, 64);
    assert_eq!(out, FetchOutcome::Completed(500));
    assert_eq!(file.unwrap(), fresh);
}

#[test]
fn existing_file_without_flags_is_skipped() {
    let existing = bytes(300, 2);
    let (out, file) = simulate(&config(false, false, false), Some(existing.clone()), 200, &bytes(10, 0), 4);
    assert_eq!(out, FetchOutcome::Skipped(fetcher::SkipReason::AlreadyExists));
    assert_eq!(file.unwrap(), existing);
}

#[test]
fn not_found_fails_without_touching_file() {
    let cfg = config(false, false, false);
    let (out, file) = simulate(&cfg, None, 404, b"missing", 4);
    assert_eq!(out, FetchOutcome::Failed(FetchError::ServerError(404, cfg.url.clone())));
    assert!(file.is_none());
    let existing = bytes(50, 1);
    let (out, file) = simulate(&config(true, false, false), Some(existing.clone()), 404, b"x", 1);
    assert!(matches!(out, FetchOutcome::Failed(FetchError::ServerError(404, _))));
    assert_eq!(file.unwrap(), existing);
}

#[test]
fn unfollowed_redirect_is_a_server_error() {
    let cfg = FetchConfig { redirects: RedirectPolicy::NoFollow, ..config(false, false, false) };
    for status in [301u16, 302, 303, 307, 308] {
        let (out, file) = simulate(&cfg, None, status, b"", 1);
        assert_eq!(out, FetchOutcome::Failed(FetchError::ServerError(status, cfg.url.clone())));
        assert!(file.is_none());
    }
}

#[test]
fn start_decisions() {
    let plain = config(false, false, false);
    assert_eq!(start_decision(&plain, false, 0), Start::Request { resume_offset: 0 });
    assert_eq!(start_decision(&plain, true, 10), Start::Skip);
    assert_eq!(start_decision(&config(true, false, false), true, 10), Start::Request { resume_offset: 10 });
    assert_eq!(start_decision(&config(true, false, false), false, 10), Start::Request { resume_offset: 0 });
    assert_eq!(start_decision(&config(true, true, false), true, 10), Start::Request { resume_offset: 0 });
    assert_eq!(start_decision(&config(false, true, false), true, 10), Start::Request { resume_offset: 0 });
}

#[test]
fn range_header_values() {
    assert_eq!(range_header(0), None);
    assert_eq!(range_header(400), Some(b"bytes=400-".to_vec()));
    assert_eq!(range_header(7), Some(b"bytes=7-".to_vec()));
    assert_eq!(range_header(10), Some(b"bytes=10-".to_vec()));
    assert_eq!(range_header(u64::MAX), Some(format!("bytes={}-", u64::MAX).into_bytes()));
}

#[test]
fn success_statuses() {
    assert!(is_success(200));
    assert!(is_success(206));
    assert!(is_success(299));
    assert!(!is_success(199));
    assert!(!is_success(300));
    assert!(!is_success(404));
}

#[test]
fn classify_sizes_and_sinks() {
    assert_eq!(
        classify_response(400, 206, Some(600), "u"),
        Ok(WritePlan { sink: SinkMode::Append, start: 400, total: 1000 })
    );
    assert_eq!(
        classify_response(400, 200, Some(1000), "u"),
        Ok(WritePlan { sink: SinkMode::Truncate, start: 0, total: 1000 })
    );
    assert_eq!(
        classify_response(0, 200, None, "u"),
        Ok(WritePlan { sink: SinkMode::Truncate, start: 0, total: 0 })
    );
    assert_eq!(
        classify_response(0, 206, Some(5), "u"),
        Ok(WritePlan { sink: SinkMode::Truncate, start: 0, total: 5 })
    );
    assert_eq!(
        classify_response(u64::MAX - 1, 206, Some(5), "u"),
        Ok(WritePlan { sink: SinkMode::Append, start: u64::MAX - 1, total: u64::MAX })
    );
    assert_eq!(
        classify_response(0, 500, Some(5), "http://h/x"),
        Err(FetchError::ServerError(500, "http://h/x".to_string()))
    );
}

#[test]
fn html_content_types() {
    assert!(is_html(Some(b"text/html")));
    assert!(is_html(Some(b"text/html; charset=utf-8")));
    assert!(is_html(Some(b"application/xhtml, text/html")));
    assert!(!is_html(Some(b"text/plain")));
    assert!(!is_html(Some(b"text/htm")));
    assert!(!is_html(Some(b"")));
    assert!(!is_html(None));
    assert!(!is_html(Some(b"text/html\x01")));
    assert!(is_html(Some(b"\ttext/html")));
}

#[test]
fn capture_keeps_html_body() {
    let plan = WritePlan { sink: SinkMode::Truncate, start: 0, total: 11 };
    let mut t = Transfer::new(plan, true);
    assert_eq!(t.on_chunk(b"<html>"), ProgressEvent { delta: 6, total: 11 });
    assert_eq!(t.on_chunk(b"</p>"), ProgressEvent { delta: 4, total: 11 });
    assert_eq!(t.on_chunk(b"!"), ProgressEvent { delta: 1, total: 11 });
    assert_eq!(t.received(), 11);
    assert_eq!(t.content(), &b"<html></p>!".to_vec());
    assert_eq!(t.plan(), plan);
    assert_eq!(t.finish(), FetchOutcome::Completed(11));

    let mut u = Transfer::new(plan, false);
    u.on_chunk(b"abc");
    assert!(u.content().is_empty());
    assert_eq!(u.received(), 3);
}

#[test]
fn after_response_steps() {
    let crawl = config(false, false, true);
    assert_eq!(
        after_response(&crawl, false, 0, 200, Some(5), Some(b"text/html"), "u"),
        Next::Write { plan: WritePlan { sink: SinkMode::Truncate, start: 0, total: 5 }, capture: true }
    );
    assert_eq!(
        after_response(&crawl, false, 0, 200, Some(5), Some(b"image/png"), "u"),
        Next::Write { plan: WritePlan { sink: SinkMode::Truncate, start: 0, total: 5 }, capture: false }
    );
    assert_eq!(
        after_response(&config(false, false, false), false, 0, 200, None, Some(b"text/html"), "u"),
        Next::Write { plan: WritePlan { sink: SinkMode::Truncate, start: 0, total: 0 }, capture: false }
    );
    assert_eq!(
        after_response(&config(true, false, false), true, 400, 206, Some(600), None, "u"),
        Next::Write { plan: WritePlan { sink: SinkMode::Append, start: 400, total: 1000 }, capture: false }
    );
    assert_eq!(
        after_response(&config(false, false, false), true, 400, 200, Some(600), None, "u"),
        Next::Finish(FetchOutcome::Skipped(fetcher::SkipReason::AlreadyExists))
    );
    assert_eq!(
        after_response(&config(false, false, false), false, 0, 404, None, None, "http://h/x"),
        Next::Finish(FetchOutcome::Failed(FetchError::ServerError(404, "http://h/x".to_string())))
    );
}

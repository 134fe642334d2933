use aza::embed::{commit_request, discard_candidate, stage_after, EmbedRequest, EmbedStatus, Stage, UpdateParameter};
use aza::error::{EmbedError, FetchErrorKind, UploadError, UploadErrorKind};
use aza::item::{eligible_items, Item, PDF_CONTENT_TYPE};
use aza::outcome::{aggregate, BatchResult, Completion, UploadOutcome};
use aza::paginator::{Page, PageRequest, Paginator};
use aza::report::{report, FailureReport, RunTimestamp};
use aza::scheduler::UploadScheduler;

fn pdf(key: &str, title: &str) -> Item {
    Item {
        key: key.to_string(),
        version: 1,
        parent_item: None,
        title: title.to_string(),
        filename: Some(format!("{}.pdf", title)),
        content_type: Some("application/pdf".to_string()),
    }
}

fn note(key: &str) -> Item {
    Item {
        key: key.to_string(),
        version: 1,
        parent_item: None,
        title: format!("note {}", key),
        filename: None,
        content_type: None,
    }
}

fn store_of(n: usize) -> Vec<Item> {
    (0..n).map(|i| pdf(&format!("K{}", i), &format!("T{}", i))).collect()
}

/// Answers a request the way a remote store holding exactly `store` does.
fn answer(store: &[Item], req: PageRequest) -> Page {
    let start = req.offset.min(store.len());
    let end = (req.offset + req.limit).min(store.len());
    Page { items: store[start..end].to_vec(), total: store.len() }
}

/// Drives a listing against `store`; returns the items and the number of requests.
fn fetch_all(store: &[Item], page_size: usize) -> (Vec<Item>, usize) {
    let mut p = Paginator::new(page_size);
    let mut requests = 0;
    while let Some(req) = p.next_request() {
        requests += 1;
        assert!(requests <= store.len() + 2, "listing does not end");
        p.accept_page(answer(store, req)).unwrap();
    }
    assert!(p.is_finished());
    (p.into_items(), requests)
}

fn stamp() -> RunTimestamp {
    RunTimestamp { year: 2024, month: 3, day: 7, hour: 9, minute: 5, second: 0 }
}

struct Run {
    result: BatchResult,
    embed: Option<EmbedRequest>,
    log: Option<FailureReport>,
    uploads: usize,
    peak_in_flight: usize,
}

/// A whole run: list, filter, upload with the given ceiling (the uploads of
/// keys in `failing` fail), commit, report. Uploads finish newest first.
fn run(store: &[Item], page_size: usize, max_concurrency: usize, failing: &[&str]) -> Run {
    let (items, _) = fetch_all(store, page_size);
    let eligible = eligible_items(&items, PDF_CONTENT_TYPE);
    let mut s = UploadScheduler::new(max_concurrency);
    for item in eligible {
        assert!(s.submit(item));
    }
    s.close();
    let mut running: Vec<(usize, Item)> = Vec::new();
    let mut uploads = 0;
    let mut peak = 0;
    loop {
        while let Some(job) = s.next_dispatch() {
            uploads += 1;
            running.push(job);
        }
        peak = peak.max(running.len());
        assert!(s.in_flight() <= max_concurrency);
        match running.pop() {
            Some((ticket, item)) => {
                let result = if failing.contains(&item.key.as_str()) {
                    Err(UploadError { kind: UploadErrorKind::Transport, reason: "disk full".to_string() })
                } else {
                    Ok(format!("custom-documents/{}.json", item.key))
                };
                assert!(s.complete(ticket, result));
            }
            None => break,
        }
    }
    assert!(s.is_finished());
    let result = s.result();
    let embed = commit_request("zotero-climate", result.succeeded.clone());
    let log = report(&result.failed, "/logs", &stamp());
    Run { result, embed, log, uploads, peak_in_flight: peak }
}

#[test]
fn five_items_one_upload_fails() {
    let store: Vec<Item> = (1..=5).map(|i| pdf(&format!("K{}", i), &format!("Item {}", i))).collect();
    let r = run(&store, 2, 2, &["K3"]);
    assert_eq!(r.result.succeeded.len(), 4);
    assert_eq!(r.result.failed.len(), 1);
    assert_eq!(r.result.failed[0].key, "K3");
    let embed = r.embed.expect("an embedding commit");
    assert_eq!(embed.slug, "zotero-climate");
    assert_eq!(embed.direction, UpdateParameter::Adds);
    let mut docs = embed.docs.clone();
    docs.sort();
    assert_eq!(
        docs,
        vec![
            "custom-documents/K1.json",
            "custom-documents/K2.json",
            "custom-documents/K4.json",
            "custom-documents/K5.json"
        ]
    );
    let log = r.log.expect("a failure log");
    assert_eq!(log.path, "/logs/log_2024-03-07_09-05-00.txt");
    assert_eq!(log.lines, vec!["Item 3".to_string()]);
    assert!(r.peak_in_flight <= 2);
}

#[test]
fn empty_store_runs_nothing() {
    let (items, requests) = fetch_all(&[], 100);
    assert!(items.is_empty());
    assert_eq!(requests, 1);
    let r = run(&[], 100, 4, &[]);
    assert_eq!(r.uploads, 0);
    assert!(r.embed.is_none());
    assert!(r.log.is_none());
    assert_eq!(stage_after(Stage::Uploading, r.result.succeeded.len(), false), Stage::Reporting);
}

#[test]
fn pagination_yields_every_item_for_each_page_size() {
    let n = 7;
    let store = store_of(n);
    for p in [1, n, n + 1, 3] {
        let (items, requests) = fetch_all(&store, p);
        let keys: Vec<String> = items.iter().map(|i| i.key.clone()).collect();
        let expected: Vec<String> = store.iter().map(|i| i.key.clone()).collect();
        assert_eq!(keys, expected, "page size {}", p);
        assert_eq!(requests, (n + p - 1) / p);
    }
}

#[test]
fn pagination_keeps_first_total() {
    let store = store_of(3);
    let mut p = Paginator::new(2);
    let req = p.next_request().unwrap();
    assert_eq!(req, PageRequest { offset: 0, limit: 2 });
    p.accept_page(answer(&store, req)).unwrap();
    let req = p.next_request().unwrap();
    assert_eq!(req, PageRequest { offset: 2, limit: 2 });
    // a later page announcing a larger total does not extend the listing
    p.accept_page(Page { items: store[2..3].to_vec(), total: 50 }).unwrap();
    assert!(p.next_request().is_none());
    assert_eq!(p.items().len(), 3);
}

#[test]
fn pagination_refuses_malformed_pages() {
    let store = store_of(4);
    let mut p = Paginator::new(2);
    let too_long = Page { items: store.clone(), total: 4 };
    let err = p.accept_page(too_long).unwrap_err();
    assert_eq!(err.kind, FetchErrorKind::MalformedPage);
    assert_eq!(p.next_request(), Some(PageRequest { offset: 0, limit: 2 }));
    let past_total = Page { items: store[0..2].to_vec(), total: 1 };
    assert_eq!(p.accept_page(past_total).unwrap_err().kind, FetchErrorKind::MalformedPage);
    assert!(p.items().is_empty());
}

#[test]
fn every_eligible_item_gets_one_outcome() {
    let mut store = store_of(9);
    store.insert(4, note("N1"));
    store.push(note("N2"));
    let r = run(&store, 4, 3, &["K0", "K8"]);
    assert_eq!(r.result.succeeded.len() + r.result.failed.len(), 9);
    assert_eq!(r.uploads, 9);
    assert_eq!(r.result.failed.len(), 2);
}

#[test]
fn concurrency_ceiling_is_respected() {
    let store = store_of(20);
    for ceiling in [1, 2, 5, 100] {
        let r = run(&store, 6, ceiling, &[]);
        assert!(r.peak_in_flight <= ceiling);
        assert_eq!(r.peak_in_flight, ceiling.min(20));
        assert_eq!(r.result.succeeded.len(), 20);
    }
}

#[test]
fn dispatch_waits_for_a_free_slot() {
    let store = store_of(3);
    let mut s = UploadScheduler::new(2);
    for item in store {
        s.submit(item);
    }
    let (t0, i0) = s.next_dispatch().unwrap();
    let (t1, _) = s.next_dispatch().unwrap();
    assert_eq!((t0, t1), (0, 1));
    assert_eq!(i0.key, "K0");
    assert!(s.next_dispatch().is_none());
    assert_eq!(s.in_flight(), 2);
    // a failure frees a slot like a success does
    let e = UploadError { kind: UploadErrorKind::MissingFile, reason: "gone".to_string() };
    assert!(s.complete(t1, Err(e)));
    let (t2, i2) = s.next_dispatch().unwrap();
    assert_eq!(t2, 2);
    assert_eq!(i2.key, "K2");
    assert!(!s.is_finished());
}

#[test]
fn stale_or_unknown_tickets_are_refused() {
    let mut s = UploadScheduler::new(1);
    s.submit(pdf("A", "a"));
    assert!(!s.complete(0, Ok("h".to_string())));
    let (t, _) = s.next_dispatch().unwrap();
    assert!(s.complete(t, Ok("h".to_string())));
    assert!(!s.complete(t, Ok("h2".to_string())));
    assert!(!s.complete(7, Ok("h3".to_string())));
    s.close();
    assert!(!s.submit(pdf("B", "b")));
    assert!(s.is_finished());
    assert_eq!(s.result().succeeded, vec!["h".to_string()]);
}

#[test]
fn duplicate_handle_becomes_a_failure() {
    let mut s = UploadScheduler::new(4);
    s.submit(pdf("A", "a"));
    s.submit(pdf("B", "b"));
    s.close();
    let (ta, _) = s.next_dispatch().unwrap();
    let (tb, _) = s.next_dispatch().unwrap();
    assert!(s.complete(tb, Ok("same".to_string())));
    assert!(s.complete(ta, Ok("same".to_string())));
    let r = s.result();
    assert_eq!(r.succeeded, vec!["same".to_string()]);
    assert_eq!(r.failed.len(), 1);
    assert_eq!(r.failed[0].key, "A");
}

#[test]
fn one_failure_does_not_stop_the_others() {
    let store = store_of(6);
    let r = run(&store, 10, 3, &["K2"]);
    assert_eq!(r.result.succeeded.len(), 5);
    assert_eq!(r.result.failed.iter().map(|i| i.key.clone()).collect::<Vec<_>>(), vec!["K2"]);
    assert_eq!(r.embed.unwrap().docs.len(), 5);
}

#[test]
fn all_uploads_failing_skips_embedding() {
    let store = store_of(2);
    let r = run(&store, 10, 3, &["K0", "K1"]);
    assert!(r.result.succeeded.is_empty());
    assert!(r.embed.is_none());
    assert_eq!(r.log.unwrap().lines.len(), 2);
}

#[test]
fn reporter_with_no_failures_returns_none() {
    assert!(report(&Vec::new(), "/logs", &stamp()).is_none());
    assert!(report(&Vec::new(), "", &RunTimestamp { year: 1, month: 12, day: 31, hour: 23, minute: 59, second: 59 }).is_none());
}

#[test]
fn reporter_names_log_by_timestamp() {
    let mut untitled = pdf("KEY9", "");
    untitled.title = String::new();
    let failed = vec![pdf("K1", "Berger 2016"), untitled];
    let t = RunTimestamp { year: 987, month: 11, day: 2, hour: 23, minute: 59, second: 60 };
    let log = report(&failed, "/home/u/.config/aza", &t).unwrap();
    assert_eq!(log.path, "/home/u/.config/aza/log_0987-11-02_23-59-60.txt");
    assert_eq!(log.lines, vec!["Berger 2016".to_string(), "KEY9".to_string()]);
}

#[test]
fn aggregate_splits_outcomes() {
    let cs = vec![
        Completion { ticket: 1, outcome: UploadOutcome::Success { handle: "h1".to_string() } },
        Completion {
            ticket: 0,
            outcome: UploadOutcome::Failure {
                item: pdf("K0", "t0"),
                cause: UploadError { kind: UploadErrorKind::Timeout, reason: "late".to_string() },
            },
        },
        Completion { ticket: 2, outcome: UploadOutcome::Success { handle: "h2".to_string() } },
    ];
    let r = aggregate(&cs);
    assert_eq!(r.succeeded, vec!["h1".to_string(), "h2".to_string()]);
    assert_eq!(r.failed.len(), 1);
    assert_eq!(r.failed[0].key, "K0");
    let empty = aggregate(&Vec::new());
    assert!(empty.succeeded.is_empty() && empty.failed.is_empty());
}

#[test]
fn stages_follow_in_order() {
    assert_eq!(stage_after(Stage::Fetching, 0, false), Stage::Filtering);
    assert_eq!(stage_after(Stage::Filtering, 0, false), Stage::Uploading);
    assert_eq!(stage_after(Stage::Uploading, 3, false), Stage::Embedding);
    assert_eq!(stage_after(Stage::Uploading, 0, false), Stage::Reporting);
    assert_eq!(stage_after(Stage::Embedding, 3, false), Stage::Reporting);
    assert_eq!(stage_after(Stage::Reporting, 3, false), Stage::Done);
    assert_eq!(stage_after(Stage::Done, 3, false), Stage::Done);
}

#[test]
fn cancellation_takes_effect_between_stages() {
    assert_eq!(stage_after(Stage::Fetching, 0, true), Stage::Done);
    assert_eq!(stage_after(Stage::Filtering, 0, true), Stage::Done);
    assert_eq!(stage_after(Stage::Uploading, 3, true), Stage::Reporting);
    assert_eq!(stage_after(Stage::Embedding, 3, true), Stage::Reporting);
    assert_eq!(stage_after(Stage::Reporting, 3, true), Stage::Done);
}

#[test]
fn failed_commit_offers_the_workspace_for_removal() {
    let failed = EmbedStatus::Failed(EmbedError { reason: "503".to_string() });
    assert_eq!(discard_candidate("ws-1", 4, &failed), Some("ws-1".to_string()));
    assert_eq!(discard_candidate("ws-1", 0, &failed), None);
    assert_eq!(discard_candidate("ws-1", 4, &EmbedStatus::Committed), None);
    assert_eq!(discard_candidate("ws-1", 0, &EmbedStatus::Skipped), None);
}

#[test]
fn commit_request_holds_all_handles() {
    assert!(commit_request("ws", Vec::new()).is_none());
    let r = commit_request("ws", vec!["a".to_string(), "b".to_string()]).unwrap();
    assert_eq!(r.slug, "ws");
    assert_eq!(r.docs, vec!["a".to_string(), "b".to_string()]);
}

#[test]
fn offsets_stop_at_the_largest_size() {
    let big = usize::MAX - 1;
    let mut p = Paginator::new(big);
    assert_eq!(p.next_request(), Some(PageRequest { offset: 0, limit: big }));
    p.accept_page(Page { items: Vec::new(), total: usize::MAX }).unwrap();
    assert_eq!(p.next_request(), Some(PageRequest { offset: big, limit: big }));
    p.accept_page(Page { items: Vec::new(), total: 0 }).unwrap();
    assert!(p.next_request().is_none());
    assert!(p.is_finished());
}

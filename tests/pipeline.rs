use async_dl::destination::{file_name_from_path, last_path_segment, resolve, Destination};
use async_dl::run::{output_dir_name, output_dir_verdict, summarize, DirCreation, Summary};
use async_dl::schedule::{filter_responses, Collector, Gate};
use async_dl::transfer::{TransferAction, TransferEvent, TransferOutcome, TransferUnit};

fn dest(dir: &str, name: &str) -> Destination {
    Destination { dir: dir.to_string(), file_name: name.to_string() }
}

fn same_dest(a: &Destination, b: &Destination) -> bool {
    a.dir == b.dir && a.file_name == b.file_name
}

#[test]
fn resolve_takes_last_segment() {
    let d = resolve("out", "https://example.com/uploads/2020/03/file_example_SVG_30kB.svg");
    assert_eq!(d.dir, "out");
    assert_eq!(d.file_name, "file_example_SVG_30kB.svg");
}

#[test]
fn resolve_ignores_query_and_fragment() {
    let d = resolve("out", "https://example.com/a/b.txt?x=1#frag");
    assert_eq!(d.file_name, "b.txt");
}

#[test]
fn resolve_bare_host_falls_back() {
    let d = resolve("out", "https://example.com");
    assert_eq!(d.file_name, "temp");
}

#[test]
fn resolve_trailing_slash_falls_back() {
    let d = resolve("out", "https://example.com/dir/");
    assert_eq!(d.file_name, "temp");
}

#[test]
fn resolve_cannot_be_a_base_falls_back() {
    let d = resolve("out", "mailto:someone@example.com");
    assert_eq!(d.file_name, "temp");
}

#[test]
fn resolve_unparsable_falls_back() {
    let d = resolve("out", "not a url");
    assert_eq!(d.file_name, "temp");
}

#[test]
fn resolve_is_repeatable() {
    let url = "http://speedtest-sgp1.digitalocean.com/5gb.test";
    let a = resolve("/tmp/x", url);
    let b = resolve("/tmp/x", url);
    assert!(same_dest(&a, &b));
    assert_eq!(a.file_name, "5gb.test");
}

#[test]
fn last_segment_of_paths() {
    assert_eq!(last_path_segment("/a/b/c.bin"), Some("c.bin".to_string()));
    assert_eq!(last_path_segment("/"), Some(String::new()));
    assert_eq!(last_path_segment("/x"), Some("x".to_string()));
    assert_eq!(last_path_segment("opaque"), None);
    assert_eq!(last_path_segment(""), None);
}

#[test]
fn file_name_of_paths() {
    assert_eq!(file_name_from_path("/a/index.html"), "index.html");
    assert_eq!(file_name_from_path("/a/"), "temp");
    assert_eq!(file_name_from_path("someone@example.com"), "temp");
}

#[test]
fn transfer_existing_destination_is_skipped() {
    let (mut u, first) = TransferUnit::begin("out", "https://example.com/f.pdf");
    match first {
        TransferAction::CheckExists(d) => assert!(same_dest(&d, &dest("out", "f.pdf"))),
        _ => panic!("expected an existence check"),
    }
    match u.step(TransferEvent::ExistenceChecked(true)) {
        TransferAction::Report(TransferOutcome::Skipped(d)) => {
            assert!(same_dest(&d, &dest("out", "f.pdf")))
        }
        _ => panic!("expected a skip"),
    }
    assert!(u.is_done());
    // nothing after a skip asks to touch the file
    assert!(matches!(u.step(TransferEvent::FileCreated(Ok(()))), TransferAction::Idle));
    assert!(matches!(u.step(TransferEvent::BodyWritten(Ok(()))), TransferAction::Idle));
}

#[test]
fn transfer_success_completes() {
    let url = "https://example.com/uploads/file_example_JSON_1kb.json";
    let (mut u, _) = TransferUnit::begin("out", url);
    assert!(matches!(
        u.step(TransferEvent::ExistenceChecked(false)),
        TransferAction::CreateFile(_)
    ));
    assert!(matches!(u.step(TransferEvent::FileCreated(Ok(()))), TransferAction::ReadBody));
    assert!(matches!(u.step(TransferEvent::BodyRead(Ok(1024))), TransferAction::WriteBody(_)));
    assert!(!u.is_done());
    match u.step(TransferEvent::BodyWritten(Ok(()))) {
        TransferAction::Report(TransferOutcome::Completed(d, n, src)) => {
            assert!(same_dest(&d, &dest("out", "file_example_JSON_1kb.json")));
            assert_eq!(n, 1024);
            assert_eq!(src, url);
        }
        _ => panic!("expected completion"),
    }
    assert!(u.is_done());
}

#[test]
fn transfer_create_failure_is_failed() {
    let (mut u, _) = TransferUnit::begin("out", "https://example.com/a");
    u.step(TransferEvent::ExistenceChecked(false));
    match u.step(TransferEvent::FileCreated(Err("permission denied".to_string()))) {
        TransferAction::Report(TransferOutcome::Failed(why)) => assert_eq!(why, "permission denied"),
        _ => panic!("expected failure"),
    }
}

#[test]
fn transfer_body_failure_is_failed() {
    let (mut u, _) = TransferUnit::begin("out", "https://example.com/a");
    u.step(TransferEvent::ExistenceChecked(false));
    u.step(TransferEvent::FileCreated(Ok(())));
    match u.step(TransferEvent::BodyRead(Err("connection reset".to_string()))) {
        TransferAction::Report(TransferOutcome::Failed(why)) => assert_eq!(why, "connection reset"),
        _ => panic!("expected failure"),
    }
}

#[test]
fn transfer_write_failure_is_failed() {
    let (mut u, _) = TransferUnit::begin("out", "https://example.com/a");
    u.step(TransferEvent::ExistenceChecked(false));
    u.step(TransferEvent::FileCreated(Ok(())));
    u.step(TransferEvent::BodyRead(Ok(5)));
    match u.step(TransferEvent::BodyWritten(Err("disk full".to_string()))) {
        TransferAction::Report(TransferOutcome::Failed(why)) => assert_eq!(why, "disk full"),
        _ => panic!("expected failure"),
    }
}

#[test]
fn transfer_out_of_order_event_is_ignored() {
    let (mut u, _) = TransferUnit::begin("out", "https://example.com/a");
    assert!(matches!(u.step(TransferEvent::BodyRead(Ok(3))), TransferAction::Idle));
    assert!(matches!(
        u.step(TransferEvent::ExistenceChecked(false)),
        TransferAction::CreateFile(_)
    ));
}

#[test]
fn filter_drops_failed_and_non_ok() {
    let r = filter_responses(&vec![Some(200), None, Some(404), Some(200), Some(500), Some(301)]);
    assert_eq!(r.retained, vec![0, 3]);
    assert_eq!(r.discarded, 4);
}

#[test]
fn filter_with_no_targets() {
    let r = filter_responses(&vec![]);
    assert!(r.retained.is_empty());
    assert_eq!(r.discarded, 0);
    let c = Collector::new(0);
    assert!(c.is_complete());
    assert_eq!(c.outcomes().map(|v| v.len()), Some(0));
}

#[test]
fn all_succeed_gives_n_completed() {
    let urls = [
        "https://example.com/uploads/one.webm",
        "https://example.com/uploads/two.mp4",
        "https://example.com/uploads/three.ogg",
    ];
    let statuses = vec![Some(200); urls.len()];
    let f = filter_responses(&statuses);
    assert_eq!(f.retained, vec![0, 1, 2]);
    let mut c = Collector::new(f.retained.len());
    for (slot, &i) in f.retained.iter().enumerate() {
        let (mut u, _) = TransferUnit::begin("out", urls[i]);
        u.step(TransferEvent::ExistenceChecked(false));
        u.step(TransferEvent::FileCreated(Ok(())));
        u.step(TransferEvent::BodyRead(Ok(10 + i as u64)));
        match u.step(TransferEvent::BodyWritten(Ok(()))) {
            TransferAction::Report(o) => assert!(c.record(slot, o)),
            _ => panic!("expected a report"),
        }
    }
    let outs = c.outcomes().expect("all reported");
    let s = summarize(f.discarded, &outs);
    assert_eq!(s, Summary { dropped: 0, skipped: 0, failed: 0, completed: 3 });
    let names: Vec<String> = outs
        .iter()
        .map(|o| match o {
            TransferOutcome::Completed(d, n, _) => {
                assert!(*n > 0);
                d.file_name.clone()
            }
            _ => panic!("expected completion"),
        })
        .collect();
    assert_eq!(names, vec!["one.webm", "two.mp4", "three.ogg"]);
}

#[test]
fn collector_waits_for_every_outcome() {
    let mut c = Collector::new(2);
    assert_eq!(c.len(), 2);
    assert!(!c.is_complete());
    assert!(c.record(1, TransferOutcome::Failed("x".to_string())));
    assert!(c.outcomes().is_none());
    assert!(!c.record(1, TransferOutcome::Skipped(dest("out", "y"))));
    assert!(!c.record(5, TransferOutcome::Failed("z".to_string())));
    assert!(c.record(0, TransferOutcome::Skipped(dest("out", "y"))));
    assert!(c.is_complete());
    let outs = c.outcomes().unwrap();
    assert!(matches!(&outs[0], TransferOutcome::Skipped(_)));
    assert!(matches!(&outs[1], TransferOutcome::Failed(w) if w == "x"));
}

#[test]
fn summary_counts_each_kind() {
    let outs = vec![
        TransferOutcome::Skipped(dest("out", "a")),
        TransferOutcome::Failed("b".to_string()),
        TransferOutcome::Completed(dest("out", "c"), 3, "u".to_string()),
        TransferOutcome::Skipped(dest("out", "d")),
    ];
    assert_eq!(summarize(2, &outs), Summary { dropped: 2, skipped: 2, failed: 1, completed: 1 });
}

#[test]
fn dir_verdicts() {
    assert_eq!(output_dir_verdict(DirCreation::Created), Ok(false));
    assert_eq!(output_dir_verdict(DirCreation::AlreadyExists), Ok(true));
    assert_eq!(
        output_dir_verdict(DirCreation::Failed("read-only".to_string())),
        Err("read-only".to_string())
    );
    assert_eq!(output_dir_name(), "temp");
}

#[test]
fn second_run_skips_what_the_first_wrote() {
    let url = "https://example.com/uploads/file-sample_1MB.doc";
    assert!(output_dir_verdict(DirCreation::AlreadyExists).is_ok());
    let (first, _) = TransferUnit::begin("out", url);
    let (mut second, _) = TransferUnit::begin("out", url);
    assert!(same_dest(&first.dest, &second.dest));
    match second.step(TransferEvent::ExistenceChecked(true)) {
        TransferAction::Report(TransferOutcome::Skipped(d)) => assert!(same_dest(&d, &first.dest)),
        _ => panic!("expected a skip"),
    }
}

#[test]
fn gate_bounds_concurrency() {
    let mut g = Gate::new(Some(2));
    assert!(g.try_enter());
    assert!(g.try_enter());
    assert!(!g.try_enter());
    assert_eq!(g.active(), 2);
    g.leave();
    assert!(g.try_enter());
    g.leave();
    g.leave();
    g.leave();
    assert_eq!(g.active(), 0);
    let mut open = Gate::new(None);
    for _ in 0..100 {
        assert!(open.try_enter());
    }
    assert_eq!(open.active(), 100);
}

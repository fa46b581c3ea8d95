use axe::frame::{CloseFrame, Frame};
use axe::liveness::{Liveness, Verdict};
use axe::nav::NavResult;
use axe::session::{Session, Step, Stream};

fn fresh() -> Session {
    Session::new("0", Liveness::new(20_000, 7_000, 0))
}

fn describe(f: &Frame) -> String {
    match f {
        Frame::Text(s) => s.clone(),
        Frame::Ping(_) => "<ping>".to_string(),
        Frame::Pong(_) => "<pong>".to_string(),
        Frame::Binary(_) => "<binary>".to_string(),
        Frame::Close(_) => "<close>".to_string(),
    }
}

/// Sends everything queued, as a writable socket would take it.
fn drain(s: &mut Session, now: u64) -> Vec<String> {
    let mut out = Vec::new();
    while let Some(f) = s.front() {
        out.push(describe(f));
        s.confirm_sent(now);
    }
    out
}

fn text(s: &str) -> Frame {
    Frame::Text(s.to_string())
}

#[test]
fn ready_then_pong() {
    let mut s = fresh();
    assert_eq!(drain(&mut s, 0), vec!["ready:0"]);
    assert!(matches!(s.on_frame(text("ping"), 5), Step::Continue));
    assert_eq!(drain(&mut s, 5), vec!["pong"]);
}

#[test]
fn ready_is_sent_first_even_after_commands() {
    let mut s = Session::new("1.2.3", Liveness::new(20_000, 7_000, 0));
    s.on_frame(text("ping"), 1);
    s.on_frame(text("wobble"), 2);
    let sent = drain(&mut s, 3);
    assert_eq!(sent[0], "ready:1.2.3");
    assert_eq!(sent.iter().filter(|t| t.starts_with("ready:")).count(), 1);
}

#[test]
fn navigate_asks_for_patch_then_queues_patch_and_location() {
    let mut s = fresh();
    drain(&mut s, 0);
    match s.on_frame(text("navigate:/settings"), 1) {
        Step::Navigate { path, query, location } => {
            assert_eq!(path, "/settings");
            assert!(query.is_empty());
            assert_eq!(location, "/settings");
            s.on_nav_result(NavResult::Patch("<div id=\"app\">settings</div>".to_string()), &location);
        }
        other => panic!("{:?}", other),
    }
    assert_eq!(
        drain(&mut s, 2),
        vec!["patch:<div id=\"app\">settings</div>", "location:/settings"]
    );
}

#[test]
fn navigate_splits_query() {
    let mut s = fresh();
    match s.on_frame(text("navigate:/service?name=svc-a"), 1) {
        Step::Navigate { path, query, location } => {
            assert_eq!(path, "/service");
            assert_eq!(query.get("name").map(|v| v.as_str()), Some("svc-a"));
            assert_eq!(location, "/service?name=svc-a");
        }
        other => panic!("{:?}", other),
    }
}

#[test]
fn redirect_and_whole_page_results() {
    let mut s = fresh();
    drain(&mut s, 0);
    s.on_nav_result(NavResult::Redirect("/".to_string()), "/old");
    s.on_nav_result(NavResult::FullHtml(b"<html/>".to_vec()), "/x");
    s.on_nav_result(NavResult::NotFound(b"<html/>".to_vec()), "/y");
    assert_eq!(
        drain(&mut s, 1),
        vec![
            "location:/",
            "error: invalid navigation result",
            "error: invalid navigation result"
        ]
    );
}

#[test]
fn deploy_streams_lines_then_exit() {
    let mut s = fresh();
    drain(&mut s, 0);
    match s.on_frame(text("deploy:svc-a"), 1) {
        Step::Spawn(name) => assert_eq!(name, "svc-a"),
        other => panic!("{:?}", other),
    }
    s.on_spawned();
    s.on_child_output(Stream::Stdout, b"hello\nworld\n");
    assert!(!s.child_finished());
    assert!(!s.on_child_exited("exit status: 0"));
    s.on_child_eof(Stream::Stdout);
    s.on_child_eof(Stream::Stderr);
    assert!(s.child_finished());
    assert!(s.on_child_exited("exit status: 0"));
    assert_eq!(
        drain(&mut s, 2),
        vec![
            "new_deployment: svc-a",
            "hello",
            "world",
            "child process exited: exit status: 0"
        ]
    );
    assert!(!s.child_finished());
}

#[test]
fn second_deploy_is_refused() {
    let mut s = fresh();
    drain(&mut s, 0);
    assert!(matches!(s.on_frame(text("deploy:svc-a"), 1), Step::Spawn(_)));
    s.on_spawned();
    assert!(matches!(s.on_frame(text("deploy:svc-a"), 1), Step::Continue));
    assert_eq!(
        drain(&mut s, 2),
        vec!["new_deployment: svc-a", "new_deployment: svc-a", "deploy already running"]
    );
}

#[test]
fn spawn_failure_is_reported() {
    let mut s = fresh();
    drain(&mut s, 0);
    assert!(matches!(s.on_frame(text("deploy:svc-a"), 1), Step::Spawn(_)));
    s.on_spawn_failed("No such file or directory (os error 2)");
    assert_eq!(
        drain(&mut s, 2),
        vec!["new_deployment: svc-a", "deploy failed: No such file or directory (os error 2)"]
    );
    assert!(matches!(s.on_frame(text("deploy:svc-a"), 3), Step::Spawn(_)));
}

#[test]
fn unknown_kind_keeps_connection() {
    let mut s = fresh();
    drain(&mut s, 0);
    assert!(matches!(s.on_frame(text("wobble:foo"), 1), Step::Continue));
    assert!(matches!(s.on_frame(text("ping:"), 1), Step::Continue));
    assert!(matches!(s.on_frame(text("deploy:"), 1), Step::Continue));
    assert_eq!(
        drain(&mut s, 2),
        vec![
            "error, unknown event kind",
            "error, excess data in event call",
            "error, missing event arg"
        ]
    );
    assert!(matches!(s.on_frame(text("ping"), 3), Step::Continue));
    assert_eq!(drain(&mut s, 3), vec!["pong"]);
}

#[test]
fn search_hands_query_out() {
    let mut s = fresh();
    drain(&mut s, 0);
    match s.on_frame(text("search_services:svc"), 1) {
        Step::Search(q) => assert_eq!(q, "svc"),
        other => panic!("{:?}", other),
    }
    assert!(!s.has_queued());
    s.push_fragment("<ul id=\"messages\"></ul>".to_string());
    assert_eq!(drain(&mut s, 2), vec!["<ul id=\"messages\"></ul>"]);
}

#[test]
fn close_is_echoed_and_binary_ignored() {
    let mut s = fresh();
    drain(&mut s, 0);
    assert!(matches!(s.on_frame(Frame::Binary(vec![1, 2]), 1), Step::Continue));
    assert!(matches!(s.on_frame(Frame::Pong(vec![]), 1), Step::Continue));
    let frame = CloseFrame { code: 1000, reason: "bye".to_string() };
    match s.on_frame(Frame::Close(Some(frame)), 2) {
        Step::Close(Some(c)) => {
            assert_eq!(c.code, 1000);
            assert_eq!(c.reason, "bye");
        }
        other => panic!("{:?}", other),
    }
    assert!(!s.has_queued());
}

#[test]
fn crlf_and_unterminated_lines() {
    let mut s = fresh();
    drain(&mut s, 0);
    s.on_spawned();
    s.on_child_output(Stream::Stdout, b"a\r\nb\nc");
    s.on_child_eof(Stream::Stdout);
    assert_eq!(drain(&mut s, 1), vec!["a", "b", "c"]);
}

#[test]
fn bytes_before_newline_join_the_pending_line() {
    let mut s = fresh();
    drain(&mut s, 0);
    s.on_spawned();
    s.on_child_output(Stream::Stderr, b"par");
    assert!(!s.has_queued());
    s.on_child_output(Stream::Stdout, b"other");
    s.on_child_output(Stream::Stderr, b"tial\r");
    s.on_child_output(Stream::Stderr, b"\nnext");
    assert_eq!(drain(&mut s, 1), vec!["partial"]);
    s.on_child_eof(Stream::Stdout);
    s.on_child_eof(Stream::Stderr);
    assert_eq!(drain(&mut s, 1), vec!["other", "next"]);
}

#[test]
fn one_mebibyte_without_newline() {
    let mut s = fresh();
    drain(&mut s, 0);
    s.on_spawned();
    let chunk = vec![b'x'; 4096];
    for _ in 0..256 {
        s.on_child_output(Stream::Stdout, &chunk);
    }
    assert!(!s.has_queued());
    s.on_child_eof(Stream::Stdout);
    s.on_child_eof(Stream::Stderr);
    assert!(s.on_child_exited("exit status: 0"));
    let sent = drain(&mut s, 1);
    assert_eq!(sent.len(), 2);
    assert_eq!(sent[0].len(), 1 << 20);
    assert!(sent[0].bytes().all(|b| b == b'x'));
    assert_eq!(sent[1], "child process exited: exit status: 0");
}

#[test]
fn invalid_utf8_is_replaced() {
    let mut s = fresh();
    drain(&mut s, 0);
    s.on_spawned();
    s.on_child_output(Stream::Stdout, &[b'o', 0xff, b'k', b'\n']);
    assert_eq!(drain(&mut s, 1), vec!["o\u{fffd}k"]);
}

#[test]
fn output_without_deploy_is_ignored() {
    let mut s = fresh();
    drain(&mut s, 0);
    s.on_child_output(Stream::Stdout, b"stray\n");
    s.on_child_eof(Stream::Stdout);
    assert!(!s.has_queued());
}

#[test]
fn write_interest_follows_queue() {
    let mut s = fresh();
    assert_eq!(s.sync_interest(), Some(true));
    assert_eq!(s.sync_interest(), None);
    drain(&mut s, 0);
    assert_eq!(s.sync_interest(), Some(false));
    assert_eq!(s.sync_interest(), None);
    s.on_frame(text("ping"), 1);
    assert_eq!(s.sync_interest(), Some(true));
}

#[test]
fn would_block_keeps_order() {
    let mut s = fresh();
    s.on_frame(text("ping"), 1);
    s.on_frame(text("wobble"), 1);
    // The socket takes one frame, then would block: the rest stays queued.
    assert_eq!(describe(s.front().unwrap()), "ready:0");
    s.confirm_sent(1);
    assert_eq!(describe(s.front().unwrap()), "pong");
    s.on_frame(text("ping"), 2);
    assert_eq!(drain(&mut s, 3), vec!["pong", "error, unknown event kind", "pong"]);
}

#[test]
fn idle_connection_is_pinged_then_closed() {
    let mut s = fresh();
    drain(&mut s, 0);
    assert_eq!(s.verdict(19_999), Verdict::Wait);
    assert_eq!(s.wait_timeout(5_000), 15_000);
    assert_eq!(s.verdict(20_000), Verdict::SendPing);
    s.on_ping_sent(20_000);
    assert_eq!(s.wait_timeout(21_000), 0);
    assert_eq!(s.verdict(26_999), Verdict::Wait);
    assert_eq!(s.verdict(27_000), Verdict::Close);
}

#[test]
fn inbound_frame_after_ping_keeps_connection() {
    let mut s = fresh();
    drain(&mut s, 0);
    s.on_ping_sent(20_000);
    s.on_frame(Frame::Pong(vec![]), 26_000);
    assert_eq!(s.verdict(27_000), Verdict::Wait);
    assert_eq!(s.verdict(40_000), Verdict::Wait);
    assert_eq!(s.verdict(46_000), Verdict::SendPing);
}

#[test]
fn queued_ping_starts_timeout_when_sent() {
    let mut s = fresh();
    drain(&mut s, 0);
    s.queue_ping();
    assert_eq!(s.verdict(20_000), Verdict::SendPing);
    assert_eq!(drain(&mut s, 20_500), vec!["<ping>"]);
    assert_eq!(s.verdict(27_499), Verdict::Wait);
    assert_eq!(s.verdict(27_500), Verdict::Close);
}

#[test]
fn randomized_timer_ranges() {
    for _ in 0..50 {
        let l = Liveness::randomized(100);
        assert!((20_000..=30_000).contains(&l.ping_interval));
        assert_eq!(l.ping_interval % 1000, 0);
        assert!((7_000..=10_000).contains(&l.pong_timeout));
        assert_eq!(l.pong_timeout % 1000, 0);
        assert_eq!(l.last_inbound, 100);
        assert_eq!(l.ping_sent_at, None);
    }
}

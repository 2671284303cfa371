use famiibo::messages::{after_poll, completion, Message, Poll, PollAction, Stream};
use famiibo::status::{
    exit_report_status, percent_of, CmdStatus, Error, ExitReport, Next, Phase, Session,
    SessionEvent, StdoutWatch, WatchAction, WatchEvent,
};

fn progress_of(a: WatchAction) -> u64 {
    match a {
        WatchAction::Send(CmdStatus::Progress(p)) => p,
        _ => panic!("expected progress"),
    }
}

#[test]
fn percentages_follow_the_line_count() {
    assert_eq!(percent_of(0), 0);
    assert_eq!(percent_of(1), 0);
    assert_eq!(percent_of(2), 1);
    assert_eq!(percent_of(80), 50);
    assert_eq!(percent_of(158), 99);
    assert_eq!(percent_of(159), 100);
    assert_eq!(percent_of(318), 200);
    assert_eq!(percent_of(u64::MAX), ((u64::MAX as u128) * 100 / 159) as u64);
    for n in 1u64..=400 {
        let f = ((n as f32 / 159.0) * 100.0).floor();
        assert_eq!(percent_of(n) as f32, f);
    }
}

#[test]
fn a_full_run_reports_every_line_then_succeeds() {
    let mut w = StdoutWatch::new();
    let mut last = 0;
    for i in 1..=158u64 {
        let p = progress_of(w.step(WatchEvent::Line(format!("line {}", i))));
        assert!(p <= 100 && p >= last);
        last = p;
    }
    assert_eq!(last, 99);
    match w.step(WatchEvent::Line("Finished writing tag".to_string())) {
        WatchAction::SendLast(CmdStatus::Progress(100)) => {}
        _ => panic!("expected the last progress"),
    }
    assert_eq!(w.lines, 159);
    assert!(matches!(w.step(WatchEvent::Closed), WatchAction::Done(Ok(()))));
}

#[test]
fn a_failed_step_stops_the_watch() {
    let mut w = StdoutWatch::new();
    let line = "Error: Writing to 4: aa aa aa aa...Failed".to_string();
    match w.step(WatchEvent::Line(line.clone())) {
        WatchAction::Done(Err(Error::Internal(m))) => assert_eq!(m, line),
        _ => panic!("expected a failure"),
    }
}

#[test]
fn an_early_end_is_an_error() {
    let mut w = StdoutWatch::new();
    w.step(WatchEvent::Line("a".to_string()));
    w.step(WatchEvent::Line("b".to_string()));
    w.step(WatchEvent::Line("c".to_string()));
    match w.step(WatchEvent::Closed) {
        WatchAction::Done(Err(e)) => {
            assert_eq!(e.message(), "Error: Exited early expected 159 found 3")
        }
        _ => panic!("expected an error"),
    }
    let mut w = StdoutWatch::new();
    match w.step(WatchEvent::SendFailed("gone".to_string())) {
        WatchAction::Done(Err(Error::Internal(m))) => assert_eq!(m, "gone"),
        _ => panic!("expected an error"),
    }
}

fn sent(s: &famiibo::status::SessionStep) -> Option<&CmdStatus> {
    s.send.as_ref()
}

#[test]
fn exec_happy_path() {
    let mut s = Session::new();
    let st = s.step(SessionEvent::Spawned(true));
    assert_eq!(sent(&st), Some(&CmdStatus::Started));
    assert_eq!(st.next, Next::ReadLine);
    let mut last = 0;
    for i in 0..40 {
        let st = s.step(SessionEvent::Line(format!("Writing page {}", i)));
        match sent(&st) {
            Some(CmdStatus::Progress(p)) => {
                assert!(*p <= 100 && *p >= last);
                last = *p;
            }
            other => panic!("expected progress found {:?}", other),
        }
        assert!(st.checked);
        assert_eq!(st.next, Next::ReadLine);
    }
    let st = s.step(SessionEvent::Line("Finished writing tag".to_string()));
    assert_eq!(sent(&st), Some(&CmdStatus::Progress(100)));
    assert_eq!(st.next, Next::EndWatch);
    let st = s.step(SessionEvent::StdoutClosed);
    assert_eq!(sent(&st), None);
    assert_eq!(st.next, Next::WaitExit);
    let st = s.step(SessionEvent::Exited(ExitReport::Exited {
        success: true,
        status: "exit status: 0".to_string(),
        stderr: vec![],
    }));
    assert_eq!(sent(&st), Some(&CmdStatus::Success));
    assert_eq!(st.next, Next::Stop);
    assert_eq!(s.phase, Phase::Finished);
    let st = s.step(SessionEvent::StdoutClosed);
    assert_eq!(sent(&st), None);
}

#[test]
fn exec_failure() {
    let mut s = Session::new();
    assert_eq!(sent(&s.step(SessionEvent::Spawned(true))), Some(&CmdStatus::Started));
    let st = s.step(SessionEvent::Line("Writing to 4: aa aa aa aa...Failed".to_string()));
    assert_eq!(
        sent(&st),
        Some(&CmdStatus::Failed(
            "Exited unsuccessfully: Error: Writing to 4: aa aa aa aa...Failed".to_string()
        ))
    );
    assert_eq!(st.next, Next::WaitExit);
    let st = s.step(SessionEvent::Exited(ExitReport::Exited {
        success: false,
        status: "exit status: 1".to_string(),
        stderr: b"Expected error\n".to_vec(),
    }));
    assert_eq!(
        sent(&st),
        Some(&CmdStatus::Failed(
            "Exited unsuccessfully: exit status: 1 - Expected error".to_string()
        ))
    );
    assert_eq!(st.next, Next::Stop);
}

#[test]
fn a_writer_that_cannot_start_is_reported() {
    let mut s = Session::new();
    let st = s.step(SessionEvent::SpawnFailed("No such file or directory (os error 2)".to_string()));
    assert_eq!(
        sent(&st),
        Some(&CmdStatus::Failed(
            "Spawn Failure: No such file or directory (os error 2)".to_string()
        ))
    );
    assert_eq!(st.next, Next::Stop);
}

#[test]
fn a_writer_without_output_is_awaited() {
    let mut s = Session::new();
    let st = s.step(SessionEvent::Spawned(false));
    assert_eq!(sent(&st), Some(&CmdStatus::Started));
    assert_eq!(st.next, Next::WaitExit);
    let st = s.step(SessionEvent::Exited(ExitReport::WaitFailed("interrupted".to_string())));
    assert_eq!(sent(&st), Some(&CmdStatus::Failed("interrupted".to_string())));
}

#[test]
fn a_failed_send_ends_the_watch() {
    let mut s = Session::new();
    s.step(SessionEvent::Spawned(true));
    s.step(SessionEvent::Line("x".to_string()));
    let st = s.step(SessionEvent::SendFailed("send failed because receiver is gone".to_string()));
    assert_eq!(
        sent(&st),
        Some(&CmdStatus::Failed(
            "Exited unsuccessfully: Error: send failed because receiver is gone".to_string()
        ))
    );
    assert!(!st.checked);
    assert_eq!(st.next, Next::WaitExit);
}

#[test]
fn exit_reports_trim_the_error_output() {
    let r = exit_report_status(ExitReport::Exited {
        success: false,
        status: "exit status: 2".to_string(),
        stderr: vec![b' ', 0xff, b'x', b'\n'],
    });
    assert_eq!(r, CmdStatus::Failed("Exited unsuccessfully: exit status: 2 - \u{fffd}x".to_string()));
}

#[test]
fn stream_messages_say_what_happened() {
    assert!(matches!(Message::path_not_found("p.bin"), Message::Error(m) if m == "Path not found: p.bin"));
    assert!(matches!(Message::spawn_failed("boom"), Message::Error(m) if m == "Error executing pimiibo: boom"));
    assert!(matches!(Message::exited(true, "exit status: 0"), Message::Success));
    assert!(matches!(Message::exited(false, "exit status: 3"), Message::Error(m) if m == "non-success exit status: exit status: 3"));
    assert!(matches!(Message::wait_failed("x"), Message::Error(m) if m == "error while waiting: x"));
    assert!(matches!(Message::line(Stream::Stdout, "a".to_string()), Message::StdOut(m) if m == "a"));
    assert!(matches!(Message::line(Stream::Stderr, "b".to_string()), Message::StdErr(m) if m == "b"));
    assert!(matches!(Message::read_failed(Stream::Stderr, "y"), Message::Error(m) if m == "Error reading line from stderr: y"));
    assert!(matches!(Message::read_failed(Stream::Stdout, "y"), Message::Error(m) if m == "Error reading line from stdout: y"));
    assert_eq!(Message::Error("e".to_string()).event_name(), Some("error".to_string()));
    assert_eq!(Message::Ping.event_name(), None);
    assert_eq!(completion(true), ("complete".to_string(), Some("timeout".to_string())));
    assert_eq!(completion(false), ("complete".to_string(), None));
}

#[test]
fn polls_end_the_stream_on_exit_or_failure() {
    assert!(matches!(after_poll(Poll::Running), PollAction::Forward));
    assert!(matches!(
        after_poll(Poll::Exited { success: true, status: "exit status: 0".to_string() }),
        PollAction::Report(Message::Success)
    ));
    assert!(matches!(
        after_poll(Poll::Exited { success: false, status: "exit status: 1".to_string() }),
        PollAction::Report(Message::Error(m)) if m == "non-success exit status: exit status: 1"
    ));
    assert!(matches!(
        after_poll(Poll::Failed("bad".to_string())),
        PollAction::Report(Message::Error(m)) if m == "error while waiting: bad"
    ));
}

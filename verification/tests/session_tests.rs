use maple_core::path_node::{DirEntry, DirListing, PathNode, PathNodeOrdering};
use maple_core::renderer::Renderer;
use maple_core::scale::Scale;
use maple_core::session::event::{InitialJobResult, Message, SessionEvent};
use maple_core::session::handlers::{
    initial_response, on_create, DefaultEventHandler, ExplorerMessageHandler, ExplorerReply,
    HandlerError, PathProbe, ProjTagsMessageHandler, TypedSource, ON_INIT_LINES,
};
use maple_core::tree_explorer::TreeExplorer;
use maple_core::session::machine::{
    Action, ForerunnerOutcome, Phase, Session, Strategy, FORERUNNER_DEADLINE_MS,
};

fn message(id: u64, query: &str, lnum: usize) -> Message {
    Message {
        id,
        session_id: 7,
        provider_id: "blines".to_string(),
        cwd: "/work".to_string(),
        source_fpath: "/work/notes.txt".to_string(),
        display_winwidth: 80,
        query: query.to_string(),
        lnum,
    }
}

/// What the handler of a provider saw, in the order it saw it.
#[derive(Debug, PartialEq)]
enum Seen {
    Forerunner,
    Move(u64),
    Typed(String),
}

/// A runtime that performs the actions of a session on the spot and
/// records what reached the handler and what was sent to the editor.
struct Harness {
    session: Session,
    seen: Vec<Seen>,
    cancelled: Vec<u64>,
    running: Vec<(u64, u64)>,
    responses: Vec<u64>,
    shutdowns: usize,
}

impl Harness {
    fn new() -> Harness {
        Harness {
            session: Session::new(&message(0, "", 1)),
            seen: Vec::new(),
            cancelled: Vec::new(),
            running: Vec::new(),
            responses: Vec::new(),
            shutdowns: 0,
        }
    }

    fn feed(&mut self, event: SessionEvent) {
        let action = self.session.handle_event(event);
        self.perform(action);
    }

    fn perform(&mut self, action: Action) {
        match action {
            Action::Ignored => {}
            Action::SpawnForerunner { deadline_ms } => {
                assert_eq!(deadline_ms, FORERUNNER_DEADLINE_MS);
                self.seen.push(Seen::Forerunner);
            }
            Action::DispatchMove { msg } => {
                self.seen.push(Seen::Move(msg.id));
                self.responses.push(msg.id);
            }
            Action::DropMove { .. } => {}
            Action::StartTyped { job, cancel, msg, .. } => {
                if let Some(old) = cancel {
                    self.cancelled.push(old);
                }
                self.seen.push(Seen::Typed(msg.query.clone()));
                self.running.push((job, msg.id));
            }
            Action::RejectTyped { msg_id } => self.responses.push(msg_id),
            Action::Shutdown { cancel } => {
                if let Some(old) = cancel {
                    self.cancelled.push(old);
                }
                self.shutdowns += 1;
            }
        }
    }

    /// Lets every job that was started run to its end, oldest first.
    fn finish_all(&mut self) {
        let running = std::mem::take(&mut self.running);
        for (job, msg_id) in running {
            if self.session.typed_job_finished(job) {
                self.responses.push(msg_id);
            }
        }
    }
}

#[test]
fn supersession_publishes_only_the_latest_query() {
    let mut h = Harness::new();
    h.feed(SessionEvent::OnTyped(message(1, "q1", 1)));
    h.feed(SessionEvent::OnTyped(message(2, "q2", 1)));
    assert_eq!(h.cancelled, vec![0]);
    assert_eq!(h.session.in_flight(), Some(1));
    assert!(!h.session.may_publish(0));
    assert!(h.session.may_publish(1));
    h.finish_all();
    // No response for q1, exactly one for q2.
    assert_eq!(h.responses, vec![2]);
    assert_eq!(h.session.phase(), Phase::Idle);
    // A late second completion of the same job changes nothing.
    assert!(!h.session.typed_job_finished(1));
    assert_eq!(h.responses, vec![2]);
}

#[test]
fn supersession_holds_for_a_burst_of_queries() {
    let mut h = Harness::new();
    for id in 1..=20u64 {
        h.feed(SessionEvent::OnTyped(message(id, "q", 1)));
    }
    assert_eq!(h.cancelled, (0..19).collect::<Vec<u64>>());
    h.finish_all();
    assert_eq!(h.responses, vec![20]);
}

#[test]
fn moves_are_dropped_while_filtering() {
    let mut h = Harness::new();
    h.feed(SessionEvent::OnTyped(message(1, "q1", 1)));
    assert_eq!(h.session.phase(), Phase::Filtering);
    h.feed(SessionEvent::OnMove(message(2, "", 3)));
    h.feed(SessionEvent::OnMove(message(3, "", 4)));
    assert_eq!(h.seen, vec![Seen::Typed("q1".to_string())]);
    assert!(h.responses.is_empty());
    // Once the job is done, moves reach the handler again.
    h.finish_all();
    h.feed(SessionEvent::OnMove(message(4, "", 5)));
    assert_eq!(h.seen, vec![Seen::Typed("q1".to_string()), Seen::Move(4)]);
    assert_eq!(h.responses, vec![1, 4]);
}

#[test]
fn termination_is_idempotent() {
    let mut h = Harness::new();
    h.feed(SessionEvent::OnTyped(message(1, "q1", 1)));
    h.feed(SessionEvent::Terminate);
    assert_eq!(h.shutdowns, 1);
    assert_eq!(h.cancelled, vec![0]);
    assert!(!h.session.is_running());
    assert!(!h.session.context().is_alive());
    assert_eq!(h.session.phase(), Phase::Stopped);
    h.feed(SessionEvent::Terminate);
    assert_eq!(h.shutdowns, 1);
    assert_eq!(h.cancelled, vec![0]);
    // Nothing is handled any more, and the cancelled job stays silent.
    h.feed(SessionEvent::OnTyped(message(2, "q2", 1)));
    h.feed(SessionEvent::OnMove(message(3, "", 1)));
    h.feed(SessionEvent::Create);
    h.finish_all();
    assert_eq!(h.seen, vec![Seen::Typed("q1".to_string())]);
    assert!(h.responses.is_empty());
    // Terminating directly is harmless as well.
    assert_eq!(h.session.handle_terminate(), None);
    assert!(!h.session.is_running());
}

#[test]
fn scale_threshold_through_the_forerunner() {
    let mut session = Session::new(&message(0, "", 1));
    assert_eq!(session.source_scale(), Scale::Unknown);
    let total = session.forerunner_outcome(ForerunnerOutcome::Finished(InitialJobResult {
        total: 500_001,
        lines: None,
    }));
    assert_eq!(total, Some(500_001));
    assert_eq!(session.source_scale(), Scale::Large);
    assert_eq!(session.strategy(), Strategy::Streamed);

    let mut session = Session::new(&message(0, "", 1));
    let total = session.forerunner_outcome(ForerunnerOutcome::Finished(InitialJobResult {
        total: 499_999,
        lines: Some(vec!["a".to_string()]),
    }));
    assert_eq!(total, Some(499_999));
    assert_eq!(session.source_scale(), Scale::Affordable(499_999));
    assert_eq!(session.strategy(), Strategy::Exhaustive);
    assert_eq!(session.context().cached_candidates(), &Some(vec!["a".to_string()]));
    // The scale is adopted once.
    session.forerunner_outcome(ForerunnerOutcome::Finished(InitialJobResult {
        total: 900_000,
        lines: Some(vec!["b".to_string()]),
    }));
    assert_eq!(session.source_scale(), Scale::Affordable(499_999));
    assert_eq!(session.context().cached_candidates(), &Some(vec!["a".to_string()]));
}

#[test]
fn forerunner_timeout_falls_back_to_streaming() {
    for outcome in [ForerunnerOutcome::TimedOut, ForerunnerOutcome::Failed] {
        let mut session = Session::new(&message(0, "", 1));
        let action = session.handle_event(SessionEvent::Create);
        assert!(matches!(action, Action::SpawnForerunner { deadline_ms: 300 }));
        assert_eq!(session.forerunner_outcome(outcome), None);
        assert_eq!(session.source_scale(), Scale::Unknown);
        match session.handle_event(SessionEvent::OnTyped(message(1, "q", 1))) {
            Action::StartTyped { job, cancel, msg, strategy } => {
                assert_eq!(job, 0);
                assert_eq!(cancel, None);
                assert_eq!(msg.query, "q");
                assert_eq!(strategy, Strategy::Streamed);
            }
            _ => panic!("the typed query has to start at once"),
        }
        // The forerunner may still finish; its lines are cached, the scale stays.
        let stored = session.forerunner_finished_late(InitialJobResult {
            total: 3,
            lines: Some(vec!["x".to_string(), "y".to_string(), "z".to_string()]),
        });
        assert!(stored);
        assert_eq!(session.source_scale(), Scale::Unknown);
        assert_eq!(session.context().cached_candidates().as_ref().map(|l| l.len()), Some(3));
        // A second write is ignored: the first list wins.
        assert!(!session.set_source_list(vec!["other".to_string()]));
        assert_eq!(session.context().cached_candidates().as_ref().map(|l| l.len()), Some(3));
    }
}

#[test]
fn events_are_handled_in_arrival_order() {
    let mut h = Harness::new();
    let events = vec![
        SessionEvent::Create,
        SessionEvent::OnTyped(message(1, "a", 1)),
        SessionEvent::OnMove(message(2, "", 3)),
        SessionEvent::OnTyped(message(3, "ab", 1)),
    ];
    for event in events {
        h.feed(event);
    }
    // The move arrived while "a" was in flight and is dropped.
    assert_eq!(
        h.seen,
        vec![Seen::Forerunner, Seen::Typed("a".to_string()), Seen::Typed("ab".to_string())]
    );

    // The same batch in one go gives one action per event, in order.
    let mut session = Session::new(&message(0, "", 1));
    let actions = session.run(vec![
        SessionEvent::Create,
        SessionEvent::OnTyped(message(1, "a", 1)),
        SessionEvent::OnMove(message(2, "", 3)),
        SessionEvent::OnTyped(message(3, "ab", 1)),
    ]);
    assert_eq!(actions.len(), 4);
    assert!(matches!(actions[0], Action::SpawnForerunner { .. }));
    assert!(matches!(&actions[1], Action::StartTyped { job: 0, cancel: None, msg, .. } if msg.query == "a"));
    assert!(matches!(actions[2], Action::DropMove { msg_id: 2 }));
    assert!(
        matches!(&actions[3], Action::StartTyped { job: 1, cancel: Some(0), msg, .. } if msg.query == "ab")
    );
}

#[test]
fn a_batch_ends_at_termination() {
    let mut session = Session::new(&message(0, "", 1));
    let actions = session.run(vec![
        SessionEvent::OnMove(message(1, "", 2)),
        SessionEvent::Terminate,
        SessionEvent::OnTyped(message(2, "late", 1)),
        SessionEvent::Terminate,
    ]);
    assert_eq!(actions.len(), 2);
    assert!(matches!(&actions[0], Action::DispatchMove { msg } if msg.id == 1 && msg.lnum == 2));
    assert!(matches!(actions[1], Action::Shutdown { cancel: None }));
    assert!(matches!(session.handle_event(SessionEvent::Create), Action::Ignored));
    assert!(session.run(vec![SessionEvent::Create]).is_empty());
}

#[test]
fn a_new_session_is_idle_and_running() {
    let msg = message(0, "", 1);
    let session = Session::new(&msg);
    assert_eq!(session.session_id(), 7);
    assert_eq!(session.provider_id(), "blines");
    assert_eq!(session.context().cwd(), "/work");
    assert_eq!(session.context().target_path(), "/work/notes.txt");
    assert_eq!(session.context().display_width(), 80);
    assert_eq!(session.context().session_id(), 7);
    assert!(session.is_running());
    assert_eq!(session.phase(), Phase::Idle);
    assert_eq!(session.in_flight(), None);
    let snapshot = session.snapshot();
    assert_eq!(snapshot.jobs_started, 0);
    assert!(!snapshot.stopped);
    assert_eq!(session.context().cached_candidates(), &None);
    assert_eq!(msg.duplicate().query, msg.query);
}

#[test]
fn a_stopped_session_adopts_nothing() {
    let mut session = Session::new(&message(0, "", 1));
    session.handle_event(SessionEvent::Terminate);
    let total = session.forerunner_outcome(ForerunnerOutcome::Finished(InitialJobResult {
        total: 10,
        lines: Some(vec!["a".to_string()]),
    }));
    assert_eq!(total, None);
    assert_eq!(session.source_scale(), Scale::Unknown);
    assert_eq!(session.context().cached_candidates(), &None);
    assert!(!session.forerunner_finished_late(InitialJobResult { total: 1, lines: Some(vec![]) }));
    assert!(initial_response(session.context(), &vec!["a".to_string()], ON_INIT_LINES).is_none());
}

#[test]
fn short_display_names_the_event() {
    assert_eq!(SessionEvent::Create.short_display(), "Create");
    assert_eq!(SessionEvent::Terminate.short_display(), "Terminate");
    assert_eq!(
        SessionEvent::OnTyped(message(42, "q", 1)).short_display(),
        "OnTyped, msg id: 42"
    );
    assert_eq!(SessionEvent::OnMove(message(0, "", 1)).short_display(), "OnMove, msg id: 0");
    assert_eq!(
        SessionEvent::OnMove(message(u64::MAX, "", 1)).short_display(),
        "OnMove, msg id: 18446744073709551615"
    );
}

#[test]
fn default_handler_knows_only_buffer_lines() {
    assert_eq!(DefaultEventHandler::typed_source("blines").unwrap(), TypedSource::BufferLines);
    match DefaultEventHandler::typed_source("files") {
        Err(HandlerError::UnknownProvider(name)) => assert_eq!(name, "files"),
        _ => panic!("files is not served by the default handler"),
    }
    let err = DefaultEventHandler::typed_source("grep").unwrap_err();
    assert_eq!(err.message(), "Unknown provider_id: grep in general handle_on_typed");
    assert!(DefaultEventHandler::counts_buffer_lines("blines"));
    assert!(!DefaultEventHandler::counts_buffer_lines("bline"));
    assert_eq!(
        DefaultEventHandler::numbered_lines(&vec!["fn main() {".to_string(), "}".to_string()]),
        vec!["1 fn main() {", "2 }"]
    );

    let session = Session::new(&message(0, "", 1));
    assert_eq!(on_create(session.context(), 500_001), Some(Scale::Large));
    assert_eq!(on_create(session.context(), 12), Some(Scale::Affordable(12)));
    let mut other = message(0, "", 1);
    other.provider_id = "files".to_string();
    assert_eq!(on_create(Session::new(&other).context(), 12), None);
}

#[test]
fn the_first_answer_holds_the_first_lines() {
    let session = Session::new(&message(0, "", 1));
    let lines: Vec<String> = (0..45).map(|i| format!("line {}", i)).collect();
    let response = initial_response(session.context(), &lines, ON_INIT_LINES).unwrap();
    assert_eq!(response.initial_size, 45);
    assert_eq!(response.lines.len(), 30);
    assert_eq!(response.lines[29], "line 29");
    let response = initial_response(session.context(), &lines, 100).unwrap();
    assert_eq!(response.lines.len(), 45);
}

#[test]
fn proj_tags_handler_keeps_the_last_lines() {
    let mut handler = ProjTagsMessageHandler::new();
    assert_eq!(handler.line(1), None);
    handler.remember(vec!["a".to_string(), "b".to_string()]);
    assert_eq!(handler.line(0), None);
    assert_eq!(handler.line(1), Some(&"a".to_string()));
    assert_eq!(handler.line(2), Some(&"b".to_string()));
    assert_eq!(handler.line(3), None);
    handler.remember(vec![]);
    assert_eq!(handler.line(1), None);
}

#[test]
fn explorer_handler_opens_files_and_toggles_directories() {
    let listing = DirListing::Entries(vec![
        DirEntry { name: "b.txt".to_string(), path: "/r/b.txt".to_string(), is_dir: false, icon: '*' },
        DirEntry { name: "a".to_string(), path: "/r/a".to_string(), is_dir: true, icon: ' ' },
    ]);
    let root = PathNode::new_expanded("/r", &listing);
    let explorer = TreeExplorer::new(root, Renderer::new(false), PathNodeOrdering::Top);
    let mut handler = ExplorerMessageHandler { tree_explorer: explorer };

    match handler.handle_toggle(2, &PathProbe::File("/real/r/b.txt".to_string())) {
        ExplorerReply::File(path) => assert_eq!(path, "/real/r/b.txt"),
        _ => panic!("a file is opened"),
    }
    let inner = DirListing::Entries(vec![DirEntry {
        name: "c".to_string(),
        path: "/r/a/c".to_string(),
        is_dir: false,
        icon: '*',
    }]);
    match handler.handle_toggle(1, &PathProbe::Other(inner)) {
        ExplorerReply::Lines(lines) => {
            assert_eq!(lines, vec!["v a/", "\u{2514}   * c", "* b.txt"])
        }
        _ => panic!("a directory is toggled"),
    }
    match handler.handle_toggle(1, &PathProbe::Other(DirListing::Entries(vec![]))) {
        ExplorerReply::Lines(lines) => assert_eq!(lines, vec!["> a/", "* b.txt"]),
        _ => panic!("a directory is toggled"),
    }
}

use lxp::delivery::{
    send_step, submission_files, watch_step, DirectorySend, ClaimOutcome, SendAction, SendFailure, SendInput,
    SendState, WatchAction, WatchEvent, WatchInput, WatchState,
};
use lxp::lxpapi::positive_id;
use lxp::lxptypes::ApiMode;

#[test]
fn directory_sends_regular_pdfs_in_name_order() {
    let entries = vec![
        ("b.pdf".to_string(), true),
        ("notes.txt".to_string(), true),
        ("A.PDF".to_string(), true),
        ("sub.pdf".to_string(), false),
        ("a.pdf".to_string(), true),
        (".pdf".to_string(), true),
    ];
    assert_eq!(
        submission_files(entries),
        vec!["A.PDF".to_string(), "a.pdf".to_string(), "b.pdf".to_string()]
    );
    assert!(submission_files(Vec::new()).is_empty());
}

fn run(inputs: &[SendInput]) -> Vec<SendAction> {
    let mut state = SendState::Start;
    let mut actions = Vec::new();
    for input in inputs {
        let (next, action) = send_step(state, *input);
        state = next;
        actions.push(action);
    }
    actions
}

#[test]
fn sending_follows_guard_header_receipt_upload_acceptance() {
    let actions = run(&[
        SendInput::Begin { mode: ApiMode::Live, confirmed: true },
        SendInput::FileRead { pdf_header: true },
        SendInput::ReceiptCreated { ok: true },
        SendInput::Uploaded { confirmed: true, job_id: Some(7) },
        SendInput::AcceptanceRecorded { ok: true },
    ]);
    assert_eq!(
        actions,
        vec![
            SendAction::ReadFile,
            SendAction::CreateReceipt,
            SendAction::Upload,
            SendAction::RecordAcceptance { job_id: 7 },
            SendAction::Finish,
        ]
    );
}

#[test]
fn sending_stops_at_every_failure() {
    assert_eq!(
        run(&[SendInput::Begin { mode: ApiMode::Live, confirmed: false }]),
        vec![SendAction::Stop(SendFailure::LiveConfirmationRequired)]
    );
    assert_eq!(
        run(&[
            SendInput::Begin { mode: ApiMode::Test, confirmed: false },
            SendInput::FileRead { pdf_header: false },
        ])[1],
        SendAction::Stop(SendFailure::NotPdf)
    );
    assert_eq!(
        run(&[SendInput::Begin { mode: ApiMode::Test, confirmed: false }, SendInput::ReadFailed])[1],
        SendAction::Stop(SendFailure::Unreadable)
    );
    let upload = [
        SendInput::Begin { mode: ApiMode::Test, confirmed: false },
        SendInput::FileRead { pdf_header: true },
        SendInput::ReceiptCreated { ok: false },
    ];
    assert_eq!(run(&upload)[2], SendAction::Stop(SendFailure::Receipt));
    let unconfirmed = [
        SendInput::Begin { mode: ApiMode::Test, confirmed: false },
        SendInput::FileRead { pdf_header: true },
        SendInput::ReceiptCreated { ok: true },
        SendInput::Uploaded { confirmed: false, job_id: None },
    ];
    assert_eq!(run(&unconfirmed)[3], SendAction::Stop(SendFailure::Unconfirmed));
    let no_id = [
        SendInput::Begin { mode: ApiMode::Test, confirmed: false },
        SendInput::FileRead { pdf_header: true },
        SendInput::ReceiptCreated { ok: true },
        SendInput::Uploaded { confirmed: true, job_id: None },
    ];
    assert_eq!(run(&no_id)[3], SendAction::Stop(SendFailure::Unconfirmed));
    let zero_id = [
        SendInput::Begin { mode: ApiMode::Test, confirmed: false },
        SendInput::FileRead { pdf_header: true },
        SendInput::ReceiptCreated { ok: true },
        SendInput::Uploaded { confirmed: true, job_id: Some(0) },
    ];
    assert_eq!(run(&zero_id)[3], SendAction::Stop(SendFailure::Unconfirmed));
    assert_eq!(
        run(&[SendInput::FileRead { pdf_header: true }]),
        vec![SendAction::Stop(SendFailure::OutOfOrder)]
    );
}

fn event(kind: WatchEvent, direct_child: bool, regular_file: bool, name: &str) -> WatchInput {
    WatchInput::Event { kind, direct_child, regular_file, file_name: name.to_string() }
}

#[test]
fn watcher_claims_submits_and_archives() {
    let (state, action) = watch_step(WatchState::Waiting, event(WatchEvent::RenamedInto, true, true, "a.pdf"));
    assert!(matches!(&action, WatchAction::Claim(n) if n == "a.pdf"));
    let (state, action) = watch_step(state, WatchInput::Claimed(ClaimOutcome::Moved));
    assert!(matches!(&action, WatchAction::Submit(n) if n == "a.pdf"));
    let (state, action) = watch_step(state, WatchInput::Submitted { confirmed: true });
    assert!(matches!(&action, WatchAction::Archive(n) if n == "a.pdf"));
    let (state, action) = watch_step(state, WatchInput::Archived { ok: true });
    assert!(matches!(action, WatchAction::Wait));
    assert!(matches!(state, WatchState::Waiting));
}

#[test]
fn watcher_ignores_skips_and_stops() {
    for input in [
        event(WatchEvent::Other, true, true, "a.pdf"),
        event(WatchEvent::WriteClosed, false, true, "a.pdf"),
        event(WatchEvent::WriteClosed, true, false, "a.pdf"),
        event(WatchEvent::WriteClosed, true, true, "a.txt"),
    ] {
        assert!(matches!(watch_step(WatchState::Waiting, input).1, WatchAction::Wait));
    }
    let claiming = WatchState::Claiming("a.pdf".to_string());
    assert!(matches!(
        watch_step(claiming.clone(), WatchInput::Claimed(ClaimOutcome::Vanished)).1,
        WatchAction::Wait
    ));
    assert!(matches!(
        watch_step(claiming, WatchInput::Claimed(ClaimOutcome::Failed)).1,
        WatchAction::Stop
    ));
    assert!(matches!(
        watch_step(WatchState::Submitting("a.pdf".to_string()), WatchInput::Submitted { confirmed: false }).1,
        WatchAction::Stop
    ));
    assert!(matches!(
        watch_step(WatchState::Archiving("a.pdf".to_string()), WatchInput::Archived { ok: false }).1,
        WatchAction::Stop
    ));
    assert!(matches!(watch_step(WatchState::Waiting, WatchInput::WatchFailed).1, WatchAction::Stop));
}

#[test]
fn identifiers_must_be_positive() {
    assert_eq!(positive_id(42), Some(42));
    assert_eq!(positive_id(0), None);
    assert_eq!(positive_id(-3), None);
}

#[test]
fn directory_send_stops_at_first_failure() {
    let entries = vec![
        ("c.pdf".to_string(), true),
        ("a.pdf".to_string(), true),
        ("b.pdf".to_string(), true),
    ];
    let mut all = DirectorySend::new(entries.clone());
    assert_eq!(all.next_file(true).as_deref(), Some("a.pdf"));
    assert_eq!(all.next_file(true).as_deref(), Some("b.pdf"));
    assert_eq!(all.next_file(true).as_deref(), Some("c.pdf"));
    assert_eq!(all.next_file(true), None);
    assert!(!all.stopped());
    let mut failing = DirectorySend::new(entries);
    assert_eq!(failing.next_file(true).as_deref(), Some("a.pdf"));
    assert_eq!(failing.next_file(false), None);
    assert!(failing.stopped());
    assert_eq!(failing.next_file(true), None);
}

use std::collections::HashSet;

use lxp::lxptypes::ApiMode;
use lxp::submissions::{
    fingerprint, message, Attempts, CreateOutcome, Error, Record, Reservation, Step,
    SubmissionState,
};
use sha2::Digest;

fn expected_fingerprint(account: &str, mode: &[u8], pdf: &[u8]) -> String {
    let mut digest = sha2::Sha256::new();
    digest.update(account.as_bytes());
    digest.update(b"\0");
    digest.update(mode);
    digest.update(b"\0");
    digest.update(pdf);
    digest
        .finalize()
        .iter()
        .map(|b| format!("{b:02x}"))
        .collect()
}

/// Runs the attempts against a set of existing receipt names, as a receipt
/// directory would answer exclusive creation.
fn reserve(
    existing: &mut HashSet<String>,
    account: &str,
    mode: ApiMode,
    pdf: &[u8],
    allow_duplicate: bool,
) -> Result<Reservation, Error> {
    let mut attempts = Attempts::begin(account, mode, pdf, allow_duplicate);
    loop {
        let name = attempts.file_name();
        let outcome = if existing.insert(name.clone()) {
            CreateOutcome::Created
        } else {
            CreateOutcome::AlreadyExists
        };
        match attempts.next(outcome, format!("/receipts/{name}")) {
            Step::Reserved(reservation) => return Ok(reservation),
            Step::Retry(next) => attempts = next,
            Step::Stop(error) => return Err(error),
        }
    }
}

#[test]
fn fingerprint_hashes_account_mode_and_document() {
    let fp = fingerprint("dummy", ApiMode::Test, b"%PDF-fixture");
    assert_eq!(fp, expected_fingerprint("dummy", b"test", b"%PDF-fixture"));
    assert_eq!(fp.len(), 64);
    assert_ne!(fp, fingerprint("dummy", ApiMode::Live, b"%PDF-fixture"));
    assert_ne!(fp, fingerprint("other-account", ApiMode::Test, b"%PDF-fixture"));
    assert_eq!(
        fingerprint("", ApiMode::Live, b""),
        expected_fingerprint("", b"live", b"")
    );
    assert_eq!(
        message("ab", ApiMode::Live, &[1, 2]),
        vec![b'a', b'b', 0, b'l', b'i', b'v', b'e', 0, 1, 2]
    );
}

#[test]
fn references_name_fingerprint_and_attempt() {
    let attempts = Attempts::begin("dummy", ApiMode::Test, b"%PDF-fixture", true);
    let fp = fingerprint("dummy", ApiMode::Test, b"%PDF-fixture");
    assert_eq!(attempts.reference(), format!("lxp-{fp}-0"));
    assert_eq!(attempts.file_name(), format!("lxp-{fp}-0.json"));
    assert_eq!(
        attempts.pending_record(),
        Record {
            mode: ApiMode::Test,
            state: SubmissionState::Pending
        }
    );
    match attempts.next(CreateOutcome::AlreadyExists, "x".to_string()) {
        Step::Retry(next) => {
            assert_eq!(next.reference(), format!("lxp-{fp}-1"));
            match next.next(CreateOutcome::Failed, "y".to_string()) {
                Step::Stop(error) => assert_eq!(error, Error::Io),
                _ => panic!("a failed create stops"),
            }
        }
        _ => panic!("allowed duplicates retry"),
    }
}

#[test]
fn attempt_lifecycle_decisions() {
    let mut existing = HashSet::new();
    let first = reserve(&mut existing, "dummy", ApiMode::Test, b"%PDF-fixture", false)
        .expect("first reservation");
    let fp = fingerprint("dummy", ApiMode::Test, b"%PDF-fixture");
    assert_eq!(first.reference(), format!("lxp-{fp}-0"));
    assert_eq!(first.path(), format!("/receipts/lxp-{fp}-0.json"));
    assert!(matches!(
        reserve(&mut existing, "dummy", ApiMode::Test, b"%PDF-fixture", false),
        Err(Error::Duplicate)
    ));
    drop(first);
    assert!(matches!(
        reserve(&mut existing, "dummy", ApiMode::Test, b"%PDF-fixture", false),
        Err(Error::Duplicate)
    ));
    let second = reserve(&mut existing, "dummy", ApiMode::Test, b"%PDF-fixture", true)
        .expect("explicit retry");
    assert_eq!(second.reference(), format!("lxp-{fp}-1"));
    assert_eq!(second.mode(), ApiMode::Test);
    let (path, record) = second.accept(42);
    assert_eq!(path, format!("/receipts/lxp-{fp}-1.json"));
    assert_eq!(
        record,
        Record {
            mode: ApiMode::Test,
            state: SubmissionState::Accepted { job_id: 42 }
        }
    );
    assert!(reserve(&mut existing, "dummy", ApiMode::Live, b"%PDF-fixture", false).is_ok());
    assert!(reserve(&mut existing, "other-account", ApiMode::Test, b"%PDF-fixture", false).is_ok());
}

#[test]
fn references_carry_sixty_four_hex_digits() {
    let f = fingerprint("dummy", ApiMode::Live, b"%PDF-fixture");
    assert_eq!(f.len(), 64);
    assert!(f.chars().all(|c| c.is_ascii_digit() || ('a'..='f').contains(&c)));
    let attempts = Attempts::begin("dummy", ApiMode::Live, b"%PDF-fixture", false);
    assert_eq!(attempts.reference(), format!("lxp-{f}-0"));
}

//! Decides on durable submission receipts, which are recorded before any
//! upload and retained when an attempt is ambiguous.
//!
//! A receipt is named after a fingerprint of the account, the processing mode
//! and the document, so that the same document cannot be submitted twice for
//! the same account and mode unless duplicates are explicitly allowed. The
//! caller creates the receipt files; this module chooses their names and
//! decides what each outcome of an exclusive create means.

use vstd::prelude::*;

use crate::lxptypes::{mode_name, ApiMode};
use crate::text::{decimal_chars, hex, hex_chars, is_hex_digit, push_decimal};
use vstd::utf8::encode_utf8;

verus! {

/// The SHA-256 digest of `data`, as `sha2::Sha256` computes it.
pub uninterp spec fn sha256(data: Seq<u8>) -> Seq<u8>;

/// Calls `sha2::Sha256::digest` (hashing the whole of `data` at once, which
/// is what `new`, `update` on consecutive parts and `finalize` give). Claims
/// that the result is the digest named `sha256` of the argument and that it
/// has 32 bytes, the output size of SHA-256.
#[verifier::external_body]
fn sha256_digest(data: &[u8]) -> (digest: Vec<u8>)
    ensures
        digest@ == sha256(data@),
        digest@.len() == 32,
{
    <sha2::Sha256 as sha2::Digest>::digest(data).to_vec()
}

/// Records whether the provider acknowledged an upload.
#[derive(Debug, Clone, Copy, PartialEq, Eq, Structural)]
pub enum SubmissionState {
    /// Preserves an attempt that may or may not have reached the service.
    Pending,
    /// Identifies a positively acknowledged print job.
    Accepted {
        /// Identifies the provider's print job; never zero.
        job_id: u64,
    },
}

/// Stores non-content metadata required to reconcile an upload.
#[derive(Debug, Clone, Copy, PartialEq, Eq, Structural)]
pub struct Record {
    /// Separates shopping-cart and production submissions.
    pub mode: ApiMode,
    /// Tracks the acknowledgement state.
    pub state: SubmissionState,
}

/// Describes failures that must prevent an unrecorded submission.
#[derive(Debug, Clone, Copy, PartialEq, Eq, Structural)]
pub enum Error {
    /// Requires deliberate reconciliation before sending identical content again.
    Duplicate,
    /// Reports receipt I/O failure.
    Io,
    /// Reports record encoding failure.
    Json,
    /// Reports atomic receipt replacement failure.
    Persist,
    /// Bounds repeated duplicate reservations.
    Exhausted,
}

/// The bytes that name a processing mode in the fingerprint.
pub open spec fn mode_bytes(mode: ApiMode) -> Seq<u8> {
    match mode {
        ApiMode::Test => seq![0x74u8, 0x65u8, 0x73u8, 0x74u8],
        ApiMode::Live => seq![0x6cu8, 0x69u8, 0x76u8, 0x65u8],
    }
}

/// What is hashed: the account, a NUL byte, the mode, a NUL byte and the
/// document.
pub open spec fn fingerprint_message(account: Seq<u8>, mode: ApiMode, pdf: Seq<u8>) -> Seq<u8> {
    account + seq![0u8] + mode_bytes(mode) + seq![0u8] + pdf
}

/// The fingerprint of a submission: the lowercase hexadecimal SHA-256 digest
/// of its message.
pub open spec fn fingerprint_of(account: Seq<u8>, mode: ApiMode, pdf: Seq<u8>) -> Seq<char> {
    hex_chars(sha256(fingerprint_message(account, mode, pdf)))
}

/// The provider reference of an attempt: `lxp-{fingerprint}-{attempt}`.
pub open spec fn reference_chars(fingerprint: Seq<char>, attempt: nat) -> Seq<char> {
    seq!['l', 'x', 'p', '-'] + fingerprint + seq!['-'] + decimal_chars(attempt)
}

/// The receipt file name of an attempt: its reference and `.json`.
pub open spec fn receipt_name(fingerprint: Seq<char>, attempt: nat) -> Seq<char> {
    reference_chars(fingerprint, attempt) + seq!['.', 'j', 's', 'o', 'n']
}

fn push_bytes(out: &mut Vec<u8>, bytes: &[u8])
    ensures
        final(out)@ == old(out)@ + bytes@,
{
    let mut i: usize = 0;
    while i < bytes.len()
        invariant
            i <= bytes@.len(),
            out@ == old(out)@ + bytes@.take(i as int),
        decreases bytes@.len() - i,
    {
        out.push(bytes[i]);
        assert(bytes@.take(i + 1) =~= bytes@.take(i as int).push(bytes@[i as int]));
        i = i + 1;
    }
    assert(bytes@.take(i as int) =~= bytes@);
}

/// Builds the message that is hashed for a submission.
pub fn message(account: &str, mode: ApiMode, pdf: &[u8]) -> (m: Vec<u8>)
    ensures
        m@ == fingerprint_message(encode_utf8(account@), mode, pdf@),
{
    let mut m: Vec<u8> = Vec::new();
    push_bytes(&mut m, account.as_bytes());
    m.push(0);
    match mode {
        ApiMode::Test => {
            m.push(0x74);
            m.push(0x65);
            m.push(0x73);
            m.push(0x74);
        },
        ApiMode::Live => {
            m.push(0x6c);
            m.push(0x69);
            m.push(0x76);
            m.push(0x65);
        },
    }
    m.push(0);
    push_bytes(&mut m, pdf);
    assert(m@ =~= fingerprint_message(encode_utf8(account@), mode, pdf@));
    m
}

/// Fingerprints a submission by account, processing mode and document
/// contents; file names and print options do not enter it.
pub fn fingerprint(account: &str, mode: ApiMode, pdf: &[u8]) -> (f: String)
    ensures
        f@ == fingerprint_of(encode_utf8(account@), mode, pdf@),
        f@.len() == 64,
        forall|i: int| 0 <= i < f@.len() ==> is_hex_digit(#[trigger] f@[i]),
{
    let m = message(account, mode, pdf);
    let digest = sha256_digest(m.as_slice());
    hex(digest.as_slice())
}

/// Chooses the receipt of each attempt, in turn, until one can be created.
pub struct Attempts {
    /// Names the submission's receipts.
    fingerprint: String,
    /// Identifies the processing mode of the submission.
    mode: ApiMode,
    /// Whether an existing receipt leads to the next attempt.
    allow_duplicate: bool,
    /// Counts attempts from zero.
    attempt: u32,
}

/// What the exclusive creation of a receipt file gave.
#[derive(Debug, Clone, Copy, PartialEq, Eq, Structural)]
pub enum CreateOutcome {
    /// The receipt file was created.
    Created,
    /// A receipt of that name exists already.
    AlreadyExists,
    /// The file system refused for another reason.
    Failed,
}

/// What follows an attempt.
pub enum Step {
    /// The attempt holds its receipt.
    Reserved(Reservation),
    /// The next attempt is to be tried.
    Retry(Attempts),
    /// No receipt is made.
    Stop(Error),
}

/// Owns a durable attempt marker that is never deleted implicitly.
pub struct Reservation {
    /// Locates the receipt associated with this attempt.
    path: String,
    /// Identifies the processing mode of this attempt.
    mode: ApiMode,
    /// Correlates the attempt with a provider notice.
    reference: String,
}

impl Attempts {
    /// The fingerprint that names the receipts.
    pub closed spec fn fingerprint_view(&self) -> Seq<char> {
        self.fingerprint@
    }

    /// The processing mode of the submission.
    pub closed spec fn mode_view(&self) -> ApiMode {
        self.mode
    }

    /// Whether duplicates are allowed.
    pub closed spec fn allows_duplicate(&self) -> bool {
        self.allow_duplicate
    }

    /// The number of the current attempt.
    pub closed spec fn attempt_view(&self) -> nat {
        self.attempt as nat
    }

    /// Starts with attempt zero for a submission of `pdf` by `account` in `mode`.
    pub fn begin(account: &str, mode: ApiMode, pdf: &[u8], allow_duplicate: bool) -> (a: Attempts)
        ensures
            a.fingerprint_view() == fingerprint_of(encode_utf8(account@), mode, pdf@),
            a.fingerprint_view().len() == 64,
            forall|i: int|
                0 <= i < a.fingerprint_view().len() ==> is_hex_digit(#[trigger] a.fingerprint_view()[i]),
            a.mode_view() == mode,
            a.allows_duplicate() == allow_duplicate,
            a.attempt_view() == 0,
    {
        Attempts { fingerprint: fingerprint(account, mode, pdf), mode, allow_duplicate, attempt: 0 }
    }

    /// The provider reference of the current attempt.
    pub fn reference(&self) -> (r: String)
        ensures
            r@ == reference_chars(self.fingerprint_view(), self.attempt_view()),
    {
        let mut r = String::from_str("lxp-");
        proof {
            reveal_strlit("lxp-");
            reveal_strlit("-");
        }
        r.append(self.fingerprint.as_str());
        r.append("-");
        push_decimal(&mut r, self.attempt as u64);
        assert(r@ =~= reference_chars(self.fingerprint_view(), self.attempt_view()));
        r
    }

    /// The receipt file name of the current attempt.
    pub fn file_name(&self) -> (r: String)
        ensures
            r@ == receipt_name(self.fingerprint_view(), self.attempt_view()),
    {
        let mut r = self.reference();
        proof {
            reveal_strlit(".json");
        }
        r.append(".json");
        r
    }

    /// The record that a new receipt holds: pending, in the submission's mode.
    pub fn pending_record(&self) -> (r: Record)
        ensures
            r == (Record { mode: self.mode_view(), state: SubmissionState::Pending }),
    {
        Record { mode: self.mode, state: SubmissionState::Pending }
    }

    /// Decides on the outcome of creating the current receipt exclusively at
    /// `path`: a created receipt is held, an existing one is a duplicate unless
    /// duplicates are allowed, and any other failure stops the submission.
    pub fn next(self, outcome: CreateOutcome, path: String) -> (step: Step)
        ensures
            outcome == CreateOutcome::Created ==> (step matches Step::Reserved(r) && r.path_view()
                == path@ && r.mode_view() == self.mode_view() && r.reference_view() == reference_chars(
                self.fingerprint_view(),
                self.attempt_view(),
            )),
            outcome == CreateOutcome::AlreadyExists && !self.allows_duplicate() ==> (step
                matches Step::Stop(e) && e == Error::Duplicate),
            outcome == CreateOutcome::AlreadyExists && self.allows_duplicate() && self.attempt_view()
                + 1 < u32::MAX ==> (step matches Step::Retry(a) && a.fingerprint_view()
                == self.fingerprint_view() && a.mode_view() == self.mode_view() && a.allows_duplicate()
                && a.attempt_view() == self.attempt_view() + 1),
            outcome == CreateOutcome::AlreadyExists && self.allows_duplicate() && self.attempt_view()
                + 1 >= u32::MAX ==> (step matches Step::Stop(e) && e == Error::Exhausted),
            outcome == CreateOutcome::Failed ==> (step matches Step::Stop(e) && e == Error::Io),
    {
        match outcome {
            CreateOutcome::Created => {
                let reference = self.reference();
                Step::Reserved(Reservation { path, mode: self.mode, reference })
            },
            CreateOutcome::AlreadyExists => {
                if !self.allow_duplicate {
                    Step::Stop(Error::Duplicate)
                } else if self.attempt < u32::MAX - 1 {
                    Step::Retry(
                        Attempts {
                            fingerprint: self.fingerprint,
                            mode: self.mode,
                            allow_duplicate: self.allow_duplicate,
                            attempt: self.attempt + 1,
                        },
                    )
                } else {
                    Step::Stop(Error::Exhausted)
                }
            },
            CreateOutcome::Failed => Step::Stop(Error::Io),
        }
    }
}

impl Reservation {
    /// The receipt location.
    pub closed spec fn path_view(&self) -> Seq<char> {
        self.path@
    }

    /// The processing mode of the attempt.
    pub closed spec fn mode_view(&self) -> ApiMode {
        self.mode
    }

    /// The provider reference of the attempt.
    pub closed spec fn reference_view(&self) -> Seq<char> {
        self.reference@
    }

    /// Supplies the provider correlation reference without exposing document contents.
    pub fn reference(&self) -> (r: &str)
        ensures
            r@ == self.reference_view(),
    {
        self.reference.as_str()
    }

    /// Locates the receipt.
    pub fn path(&self) -> (r: &str)
        ensures
            r@ == self.path_view(),
    {
        self.path.as_str()
    }

    /// The processing mode of the attempt.
    pub fn mode(&self) -> (r: ApiMode)
        ensures
            r == self.mode_view(),
    {
        self.mode
    }

    /// Records acceptance of print job `job_id`: the record that replaces the
    /// pending marker at the receipt's location.
    pub fn accept(self, job_id: u64) -> (r: (String, Record))
        requires
            job_id != 0,
        ensures
            r.0@ == self.path_view(),
            r.1 == (Record { mode: self.mode_view(), state: SubmissionState::Accepted { job_id } }),
    {
        (self.path, Record { mode: self.mode, state: SubmissionState::Accepted { job_id } })
    }
}

/// For accounts without NUL bytes, the message determines account, mode and
/// document: different submissions are hashed from different messages.
pub proof fn fingerprint_message_is_injective(
    a1: Seq<u8>,
    m1: ApiMode,
    p1: Seq<u8>,
    a2: Seq<u8>,
    m2: ApiMode,
    p2: Seq<u8>,
)
    requires
        !a1.contains(0u8),
        !a2.contains(0u8),
        fingerprint_message(a1, m1, p1) == fingerprint_message(a2, m2, p2),
    ensures
        a1 == a2,
        m1 == m2,
        p1 == p2,
{
    let s = fingerprint_message(a1, m1, p1);
    let t = fingerprint_message(a2, m2, p2);
    if a1.len() < a2.len() {
        assert(s[a1.len() as int] == 0u8);
        assert(t[a1.len() as int] == a2[a1.len() as int]);
        assert(a2.contains(0u8));
    } else if a2.len() < a1.len() {
        assert(t[a2.len() as int] == 0u8);
        assert(s[a2.len() as int] == a1[a2.len() as int]);
        assert(a1.contains(0u8));
    }
    let n: int = a1.len() as int;
    assert(a1 =~= s.subrange(0, n));
    assert(a2 =~= t.subrange(0, n));
    assert(mode_bytes(m1) =~= s.subrange(n + 1, n + 5));
    assert(mode_bytes(m2) =~= t.subrange(n + 1, n + 5));
    if m1 != m2 {
        assert(mode_bytes(m1)[0] != mode_bytes(m2)[0]);
    }
    assert(p1 =~= s.skip(n + 6));
    assert(p2 =~= t.skip(n + 6));
}

proof fn lemma_decimal_len(n: nat)
    ensures
        decimal_chars(n).len() >= 1,
        n >= 10 ==> decimal_chars(n).len() >= 2,
    decreases n,
{
    if n >= 10 {
        lemma_decimal_len(n / 10);
    }
}

/// Different numbers have different decimal renderings.
pub proof fn decimal_is_injective(a: nat, b: nat)
    requires
        decimal_chars(a) == decimal_chars(b),
    ensures
        a == b,
    decreases a,
{
    lemma_decimal_len(a);
    lemma_decimal_len(b);
    if a >= 10 && b >= 10 {
        let da = decimal_chars(a);
        assert(da.drop_last() == decimal_chars(a / 10));
        assert(decimal_chars(b).drop_last() == decimal_chars(b / 10));
        decimal_is_injective(a / 10, b / 10);
        assert(da.last() == crate::text::digit_char(a % 10));
        assert(decimal_chars(b).last() == crate::text::digit_char(b % 10));
        crate::text::lemma_digit_char_injective(a % 10, b % 10);
    } else if a < 10 && b < 10 {
        assert(decimal_chars(a)[0] == crate::text::digit_char(a));
        assert(decimal_chars(b)[0] == crate::text::digit_char(b));
        crate::text::lemma_digit_char_injective(a, b);
    }
}

/// Different attempts of a submission get different receipts.
pub proof fn attempts_have_distinct_receipts(fingerprint: Seq<char>, a: nat, b: nat)
    requires
        a != b,
    ensures
        reference_chars(fingerprint, a) != reference_chars(fingerprint, b),
        receipt_name(fingerprint, a) != receipt_name(fingerprint, b),
{
    let prefix = seq!['l', 'x', 'p', '-'] + fingerprint + seq!['-'];
    assert(reference_chars(fingerprint, a) =~= prefix + decimal_chars(a));
    assert(reference_chars(fingerprint, b) =~= prefix + decimal_chars(b));
    if reference_chars(fingerprint, a) == reference_chars(fingerprint, b) {
        assert(decimal_chars(a) =~= reference_chars(fingerprint, a).skip(prefix.len() as int));
        assert(decimal_chars(b) =~= reference_chars(fingerprint, b).skip(prefix.len() as int));
        decimal_is_injective(a, b);
    }
    if receipt_name(fingerprint, a) == receipt_name(fingerprint, b) {
        let sa = receipt_name(fingerprint, a);
        let sb = receipt_name(fingerprint, b);
        assert(reference_chars(fingerprint, a) =~= sa.subrange(0, sa.len() - 5));
        assert(reference_chars(fingerprint, b) =~= sb.subrange(0, sb.len() - 5));
    }
}

} // verus!

//! Decides how documents are handed to the service: which files of a
//! directory are sent and in which order, the steps of sending one file, and
//! the steps of watching a directory.
//!
//! The caller performs each action (reading a file, creating a receipt,
//! uploading, moving a file) and hands its outcome back as the next input.

use vstd::prelude::*;

use crate::documents::{extension, has_pdf_extension, is_pdf_extension};
use crate::lxptypes::ApiMode;
use crate::text::{chars_of, compare_chars, lemma_lex_transitive, lex_lt, Order};

verus! {

broadcast use vstd::seq_lib::group_to_multiset_ensures;

/// Whether a file name has a `pdf` extension in any ASCII case.
pub open spec fn is_pdf_name(name: Seq<char>) -> bool {
    extension(name) matches Some(ext) && is_pdf_extension(ext)
}

/// The names of the directory entries that are sent, in directory order:
/// regular files with a `pdf` extension.
pub open spec fn sendable_names(entries: Seq<(String, bool)>) -> Seq<Seq<char>>
    decreases entries.len(),
{
    if entries.len() == 0 {
        Seq::empty()
    } else {
        let rest = sendable_names(entries.drop_last());
        let (name, regular) = entries.last();
        if regular && is_pdf_name(name@) {
            rest.push(name@)
        } else {
            rest
        }
    }
}

/// An entry of the directory that is sent: a regular file with a `pdf`
/// extension.
pub open spec fn sent_entry(entries: Seq<(String, bool)>, i: int) -> bool {
    0 <= i < entries.len() && entries[i].1 && is_pdf_name(entries[i].0@)
}

/// The names sent from a directory are exactly those of its regular files
/// with a `pdf` extension, whatever else the names hold.
pub proof fn sent_names_are_the_regular_pdfs(entries: Seq<(String, bool)>, x: Seq<char>)
    ensures
        sendable_names(entries).contains(x) <==> exists|i: int|
            sent_entry(entries, i) && #[trigger] entries[i].0@ == x,
    decreases entries.len(),
{
    if entries.len() > 0 {
        let before = entries.drop_last();
        sent_names_are_the_regular_pdfs(before, x);
        let last = entries.len() - 1;
        if sendable_names(entries).contains(x) {
            if sendable_names(before).contains(x) {
                let i = choose|i: int| sent_entry(before, i) && #[trigger] before[i].0@ == x;
                assert(entries[i] == before[i]);
            } else {
                let rest = sendable_names(before);
                let k = choose|k: int| 0 <= k < sendable_names(entries).len() && sendable_names(entries)[k] == x;
                assert(sendable_names(entries) =~= rest.push(entries[last].0@) || sendable_names(
                    entries,
                ) =~= rest);
                if sendable_names(entries) =~= rest {
                    assert(rest.contains(x));
                } else {
                    if k < rest.len() {
                        assert(rest[k] == x);
                        assert(rest.contains(x));
                    }
                    assert(sent_entry(entries, last) && entries[last].0@ == x);
                }
            }
        } else {
            if exists|i: int| sent_entry(entries, i) && #[trigger] entries[i].0@ == x {
                let i = choose|i: int| sent_entry(entries, i) && #[trigger] entries[i].0@ == x;
                if i < last {
                    assert(before[i] == entries[i]);
                    assert(sent_entry(before, i) && before[i].0@ == x);
                    assert(sendable_names(before).contains(x));
                    let rest = sendable_names(before);
                    let k = choose|k: int| 0 <= k < rest.len() && rest[k] == x;
                    assert(sendable_names(entries)[k] == x);
                } else {
                    let rest = sendable_names(before);
                    assert(sendable_names(entries) == rest.push(x));
                    assert(sendable_names(entries)[rest.len() as int] == x);
                }
            }
        }
    }
}

/// Whether names stand in increasing order, equal names side by side.
pub open spec fn is_sorted(names: Seq<Seq<char>>) -> bool {
    forall|i: int, j: int| 0 <= i < j < names.len() ==> !lex_lt(#[trigger] names[j], #[trigger] names[i])
}

/// The text of each name.
pub open spec fn texts(names: Seq<String>) -> Seq<Seq<char>> {
    names.map_values(|n: String| n@)
}

/// Inserts `name` into sorted `out` after every name that does not follow it.
fn insert_sorted(out: &mut Vec<String>, name: String)
    requires
        is_sorted(texts(old(out)@)),
    ensures
        is_sorted(texts(final(out)@)),
        texts(final(out)@).to_multiset() == texts(old(out)@).to_multiset().insert(name@),
{
    let ghost before = texts(out@);
    let key = chars_of(name.as_str());
    let mut pos: usize = 0;
    while pos < out.len()
        invariant
            pos <= out@.len(),
            texts(out@) == before,
            key@ == name@,
            forall|k: int| 0 <= k < pos ==> !lex_lt(key@, #[trigger] before[k]),
        ensures
            pos <= out@.len(),
            texts(out@) == before,
            forall|k: int| 0 <= k < pos ==> !lex_lt(key@, #[trigger] before[k]),
            pos < out@.len() ==> lex_lt(key@, before[pos as int]),
        decreases out@.len() - pos,
    {
        let other = chars_of(out[pos].as_str());
        assert(other@ == before[pos as int]);
        if compare_chars(&key, &other) == Order::Less {
            break;
        }
        pos = pos + 1;
    }
    out.insert(pos, name);
    let ghost after = texts(out@);
    let ghost p = pos as int;
    assert(after =~= before.insert(p, key@));
    assert(before.insert(p, key@) =~= before.take(p) + seq![key@] + before.skip(p));
    assert(before =~= before.take(p) + before.skip(p));
    proof {
        vstd::seq_lib::lemma_multiset_commutative(before.take(p), before.skip(p));
        vstd::seq_lib::lemma_multiset_commutative(before.take(p) + seq![key@], before.skip(p));
        vstd::seq_lib::lemma_multiset_commutative(before.take(p), seq![key@]);
        assert(seq![key@].to_multiset() =~= vstd::multiset::Multiset::empty().insert(key@));
        assert forall|i: int, j: int| 0 <= i < j < after.len() implies !lex_lt(
            #[trigger] after[j],
            #[trigger] after[i],
        ) by {
            if j < p {
                assert(after[i] == before[i] && after[j] == before[j]);
            } else if j == p {
                assert(after[j] == key@ && after[i] == before[i]);
            } else if i == p {
                // key precedes before[p], which does not follow before[j - 1]
                assert(after[i] == key@ && after[j] == before[j - 1]);
                assert(p < before.len());
                if lex_lt(before[j - 1], key@) {
                    assert(lex_lt(key@, before[p]));
                    lemma_lex_transitive(before[j - 1], key@, before[p]);
                    if j - 1 > p {
                        assert(!lex_lt(before[j - 1], before[p]));
                    } else {
                        crate::text::lemma_lex_irreflexive(before[p]);
                    }
                }
            } else if i < p {
                assert(after[i] == before[i] && after[j] == before[j - 1]);
            } else {
                assert(after[i] == before[i - 1] && after[j] == before[j - 1]);
            }
        }
    }
}

/// The files of a directory that `send` submits, one at a time: the regular
/// files with a `pdf` extension, by name in increasing order. Entries are
/// names with whether they are regular files; subdirectories are never
/// entered.
pub fn submission_files(entries: Vec<(String, bool)>) -> (r: Vec<String>)
    ensures
        is_sorted(texts(r@)),
        texts(r@).to_multiset() == sendable_names(entries@).to_multiset(),
        forall|i: int| sent_entry(entries@, i) ==> texts(r@).contains(#[trigger] entries@[i].0@),
        forall|j: int|
            #![trigger texts(r@)[j]]
            0 <= j < r@.len() ==> exists|i: int|
                sent_entry(entries@, i) && #[trigger] entries@[i].0@ == texts(r@)[j],
{
    let mut out: Vec<String> = Vec::new();
    let mut i: usize = 0;
    assert(entries@.take(0) =~= Seq::<(String, bool)>::empty());
    assert(texts(out@) =~= Seq::<Seq<char>>::empty());
    while i < entries.len()
        invariant
            i <= entries@.len(),
            is_sorted(texts(out@)),
            texts(out@).to_multiset() == sendable_names(entries@.take(i as int)).to_multiset(),
        decreases entries@.len() - i,
    {
        let name = entries[i].0.clone();
        let regular = entries[i].1;
        assert(entries@.take(i + 1).drop_last() =~= entries@.take(i as int));
        proof {
            assert(entries@.take(i + 1).last() == entries@[i as int]);
        }
        if regular && has_pdf_extension(name.as_str()) {
            let ghost n = name@;
            insert_sorted(&mut out, name);
            assert(sendable_names(entries@.take(i + 1)) == sendable_names(entries@.take(i as int)).push(n));
        }
        i = i + 1;
    }
    assert(entries@.take(i as int) =~= entries@);
    proof {
        let names = sendable_names(entries@);
        let sent = texts(out@);
        assert forall|k: int| sent_entry(entries@, k) implies sent.contains(
            #[trigger] entries@[k].0@,
        ) by {
            sent_names_are_the_regular_pdfs(entries@, entries@[k].0@);
            assert(names.contains(entries@[k].0@));
            assert(names.to_multiset().count(entries@[k].0@) > 0);
        }
        assert forall|j: int| #![trigger sent[j]] 0 <= j < out@.len() implies exists|k: int|
            sent_entry(entries@, k) && #[trigger] entries@[k].0@ == sent[j] by {
            assert(sent.contains(sent[j]));
            assert(names.to_multiset().count(sent[j]) > 0);
            assert(names.contains(sent[j]));
            sent_names_are_the_regular_pdfs(entries@, sent[j]);
        }
    }
    out
}


/// Sends the files of a directory one at a time, in the order of
/// [`submission_files`], and stops at the first file that fails.
pub struct DirectorySend {
    /// The files to send, in order.
    files: Vec<String>,
    /// How many files have been handed out.
    sent: usize,
    /// Whether a file failed.
    stopped: bool,
}

impl DirectorySend {
    /// The names of the files to send, in order.
    pub closed spec fn files_view(&self) -> Seq<Seq<char>> {
        texts(self.files@)
    }

    /// How many files have been handed out.
    pub closed spec fn sent_view(&self) -> nat {
        self.sent as nat
    }

    /// Whether sending stopped at a failure.
    pub closed spec fn stopped_view(&self) -> bool {
        self.stopped
    }

    /// No more files are handed out than there are.
    pub closed spec fn wf(&self) -> bool {
        self.sent <= self.files@.len()
    }

    /// Starts sending the sendable files among `entries`, none sent yet.
    pub fn new(entries: Vec<(String, bool)>) -> (d: DirectorySend)
        ensures
            d.wf(),
            is_sorted(d.files_view()),
            d.files_view().to_multiset() == sendable_names(entries@).to_multiset(),
            forall|i: int| sent_entry(entries@, i) ==> d.files_view().contains(#[trigger] entries@[i].0@),
            forall|j: int|
                #![trigger d.files_view()[j]]
                0 <= j < d.files_view().len() ==> exists|i: int|
                    sent_entry(entries@, i) && #[trigger] entries@[i].0@ == d.files_view()[j],
            d.sent_view() == 0,
            !d.stopped_view(),
    {
        DirectorySend { files: submission_files(entries), sent: 0, stopped: false }
    }

    /// The next file to send, given whether the file handed out before (if
    /// any) was sent; the first call passes `true`. After a failure no file
    /// is handed out any more; after the last file, none either.
    pub fn next_file(&mut self, previous_succeeded: bool) -> (r: Option<String>)
        requires
            old(self).wf(),
        ensures
            final(self).wf(),
            final(self).files_view() == old(self).files_view(),
            old(self).stopped_view() || !previous_succeeded ==> r is None && final(self).stopped_view()
                && final(self).sent_view() == old(self).sent_view(),
            !old(self).stopped_view() && previous_succeeded && old(self).sent_view() < old(
                self,
            ).files_view().len() ==> (r matches Some(f) && f@ == old(self).files_view()[old(
                self,
            ).sent_view() as int]) && final(self).sent_view() == old(self).sent_view() + 1
                && !final(self).stopped_view(),
            !old(self).stopped_view() && previous_succeeded && old(self).sent_view() == old(
                self,
            ).files_view().len() ==> r is None && final(self).sent_view() == old(self).sent_view()
                && !final(self).stopped_view(),
    {
        if self.stopped || !previous_succeeded {
            self.stopped = true;
            return None;
        }
        if self.sent < self.files.len() {
            let f = self.files[self.sent].clone();
            self.sent = self.sent + 1;
            Some(f)
        } else {
            None
        }
    }

    /// Whether sending stopped at a failure.
    pub fn stopped(&self) -> (r: bool)
        ensures
            r == self.stopped_view(),
    {
        self.stopped
    }
}

/// How far the sending of one file has come.
#[derive(Debug, Clone, Copy, PartialEq, Eq, Structural)]
pub enum SendState {
    /// Nothing has been done.
    Start,
    /// The file is being read.
    Reading,
    /// The receipt is being created.
    Reserving,
    /// The document is being uploaded.
    Uploading,
    /// The acceptance is being recorded in the receipt.
    Recording,
    /// The file was sent.
    Finished,
    /// Sending stopped at a failure.
    Stopped,
}

/// What the caller reports: the start, or the outcome of the last action.
#[derive(Debug, Clone, Copy)]
pub enum SendInput {
    /// Sending starts in `mode`; `confirmed` tells whether live sending was confirmed.
    Begin { mode: ApiMode, confirmed: bool },
    /// The file was read; `pdf_header` tells whether it starts with the PDF header.
    FileRead { pdf_header: bool },
    /// The file could not be read.
    ReadFailed,
    /// The receipt was created, or not.
    ReceiptCreated { ok: bool },
    /// The upload ended: `confirmed` when the service returned job data,
    /// with the job's identifier where it gave one.
    Uploaded { confirmed: bool, job_id: Option<u64> },
    /// The acceptance was recorded, or not.
    AcceptanceRecorded { ok: bool },
}

/// Why sending stopped.
#[derive(Debug, Clone, Copy, PartialEq, Eq, Structural)]
pub enum SendFailure {
    /// A live upload was not confirmed with `--yes`.
    LiveConfirmationRequired,
    /// The file could not be read.
    Unreadable,
    /// The file does not start with the PDF header.
    NotPdf,
    /// No receipt could be created.
    Receipt,
    /// The upload was not confirmed; it may have been accepted.
    Unconfirmed,
    /// The acceptance could not be recorded; the receipt stays pending.
    AcceptanceNotRecorded,
    /// An outcome came that the last action cannot have.
    OutOfOrder,
}

/// What the caller does next.
#[derive(Debug, Clone, Copy, PartialEq, Eq, Structural)]
pub enum SendAction {
    /// Read the file.
    ReadFile,
    /// Create the receipt.
    CreateReceipt,
    /// Upload the document.
    Upload,
    /// Record the acceptance of this job in the receipt.
    RecordAcceptance { job_id: u64 },
    /// Nothing more; the file was sent.
    Finish,
    /// Stop, reporting this failure.
    Stop(SendFailure),
}

/// One step of sending a file: the next state and what the caller does.
pub open spec fn send_next(state: SendState, input: SendInput) -> (SendState, SendAction) {
    match (state, input) {
        (SendState::Start, SendInput::Begin { mode, confirmed }) => if mode == ApiMode::Live
            && !confirmed {
            (SendState::Stopped, SendAction::Stop(SendFailure::LiveConfirmationRequired))
        } else {
            (SendState::Reading, SendAction::ReadFile)
        },
        (SendState::Reading, SendInput::FileRead { pdf_header }) => if pdf_header {
            (SendState::Reserving, SendAction::CreateReceipt)
        } else {
            (SendState::Stopped, SendAction::Stop(SendFailure::NotPdf))
        },
        (SendState::Reading, SendInput::ReadFailed) => (
            SendState::Stopped,
            SendAction::Stop(SendFailure::Unreadable),
        ),
        (SendState::Reserving, SendInput::ReceiptCreated { ok }) => if ok {
            (SendState::Uploading, SendAction::Upload)
        } else {
            (SendState::Stopped, SendAction::Stop(SendFailure::Receipt))
        },
        (SendState::Uploading, SendInput::Uploaded { confirmed, job_id }) => if !confirmed {
            (SendState::Stopped, SendAction::Stop(SendFailure::Unconfirmed))
        } else {
            match job_id {
                Some(id) => if id != 0 {
                    (SendState::Recording, SendAction::RecordAcceptance { job_id: id })
                } else {
                    (SendState::Stopped, SendAction::Stop(SendFailure::Unconfirmed))
                },
                None => (SendState::Stopped, SendAction::Stop(SendFailure::Unconfirmed)),
            }
        },
        (SendState::Recording, SendInput::AcceptanceRecorded { ok }) => if ok {
            (SendState::Finished, SendAction::Finish)
        } else {
            (SendState::Stopped, SendAction::Stop(SendFailure::AcceptanceNotRecorded))
        },
        _ => (SendState::Stopped, SendAction::Stop(SendFailure::OutOfOrder)),
    }
}

/// The state after handing `inputs`, in turn, to a send that starts afresh.
pub open spec fn send_run(inputs: Seq<SendInput>) -> SendState
    decreases inputs.len(),
{
    if inputs.len() == 0 {
        SendState::Start
    } else {
        send_next(send_run(inputs.drop_last()), inputs.last()).0
    }
}

/// The next step of sending one file. The live guard comes before the file
/// is read, the header check before a receipt is created, the receipt before
/// the upload; an upload counts as confirmed only with a job's nonzero
/// identifier, whose acceptance is then recorded; every failure stops.
pub fn send_step(state: SendState, input: SendInput) -> (r: (SendState, SendAction))
    ensures
        r == send_next(state, input),
{
    match (state, input) {
        (SendState::Start, SendInput::Begin { mode, confirmed }) => {
            if mode == ApiMode::Live && !confirmed {
                (SendState::Stopped, SendAction::Stop(SendFailure::LiveConfirmationRequired))
            } else {
                (SendState::Reading, SendAction::ReadFile)
            }
        },
        (SendState::Reading, SendInput::FileRead { pdf_header }) => {
            if pdf_header {
                (SendState::Reserving, SendAction::CreateReceipt)
            } else {
                (SendState::Stopped, SendAction::Stop(SendFailure::NotPdf))
            }
        },
        (SendState::Reading, SendInput::ReadFailed) => (
            SendState::Stopped,
            SendAction::Stop(SendFailure::Unreadable),
        ),
        (SendState::Reserving, SendInput::ReceiptCreated { ok }) => {
            if ok {
                (SendState::Uploading, SendAction::Upload)
            } else {
                (SendState::Stopped, SendAction::Stop(SendFailure::Receipt))
            }
        },
        (SendState::Uploading, SendInput::Uploaded { confirmed, job_id }) => {
            if !confirmed {
                (SendState::Stopped, SendAction::Stop(SendFailure::Unconfirmed))
            } else {
                match job_id {
                    Some(id) => {
                        if id != 0 {
                            (SendState::Recording, SendAction::RecordAcceptance { job_id: id })
                        } else {
                            (SendState::Stopped, SendAction::Stop(SendFailure::Unconfirmed))
                        }
                    },
                    None => (SendState::Stopped, SendAction::Stop(SendFailure::Unconfirmed)),
                }
            }
        },
        (SendState::Recording, SendInput::AcceptanceRecorded { ok }) => {
            if ok {
                (SendState::Finished, SendAction::Finish)
            } else {
                (SendState::Stopped, SendAction::Stop(SendFailure::AcceptanceNotRecorded))
            }
        },
        _ => (SendState::Stopped, SendAction::Stop(SendFailure::OutOfOrder)),
    }
}

/// The start lets the live guard through.
pub open spec fn guarded_start(input: SendInput) -> bool {
    input matches SendInput::Begin { mode, confirmed } && !(mode == ApiMode::Live && !confirmed)
}

/// The upload was confirmed with a job's nonzero identifier.
pub open spec fn confirmed_job(input: SendInput) -> bool {
    input matches SendInput::Uploaded { confirmed, job_id } && confirmed && (job_id matches Some(
        id,
    ) && id != 0)
}

proof fn lemma_send_stages(inputs: Seq<SendInput>)
    ensures
        send_run(inputs) == SendState::Start ==> inputs.len() == 0,
        send_run(inputs) == SendState::Reading ==> inputs.len() == 1 && guarded_start(inputs[0]),
        send_run(inputs) == SendState::Reserving ==> inputs.len() == 2 && guarded_start(inputs[0])
            && inputs[1] == (SendInput::FileRead { pdf_header: true }),
        send_run(inputs) == SendState::Uploading ==> inputs.len() == 3 && guarded_start(inputs[0])
            && inputs[1] == (SendInput::FileRead { pdf_header: true }) && inputs[2]
            == (SendInput::ReceiptCreated { ok: true }),
        send_run(inputs) == SendState::Recording ==> inputs.len() == 4 && guarded_start(inputs[0])
            && inputs[1] == (SendInput::FileRead { pdf_header: true }) && inputs[2]
            == (SendInput::ReceiptCreated { ok: true }) && confirmed_job(inputs[3]),
        send_run(inputs) == SendState::Finished ==> inputs.len() == 5 && guarded_start(inputs[0])
            && inputs[1] == (SendInput::FileRead { pdf_header: true }) && inputs[2]
            == (SendInput::ReceiptCreated { ok: true }) && confirmed_job(inputs[3]) && inputs[4]
            == (SendInput::AcceptanceRecorded { ok: true }),
    decreases inputs.len(),
{
    if inputs.len() > 0 {
        let before = inputs.drop_last();
        lemma_send_stages(before);
        assert(forall|i: int| 0 <= i < before.len() ==> before[i] == inputs[i]);
    }
}

/// A document is uploaded only after exactly these steps: a start that the
/// live guard lets through, a read of a file that starts with the PDF
/// header, and a created receipt.
pub proof fn upload_follows_guard_header_and_receipt(inputs: Seq<SendInput>)
    requires
        send_run(inputs) == SendState::Uploading,
    ensures
        inputs.len() == 3,
        guarded_start(inputs[0]),
        inputs[1] == (SendInput::FileRead { pdf_header: true }),
        inputs[2] == (SendInput::ReceiptCreated { ok: true }),
{
    lemma_send_stages(inputs);
}

/// A send finishes only after exactly these steps: the guarded start, the
/// read with the PDF header, the created receipt, an upload the service
/// confirmed with a nonzero job identifier, and the recorded acceptance of
/// that job.
pub proof fn finished_send_recorded_its_job(inputs: Seq<SendInput>)
    requires
        send_run(inputs) == SendState::Finished,
    ensures
        inputs.len() == 5,
        guarded_start(inputs[0]),
        inputs[1] == (SendInput::FileRead { pdf_header: true }),
        inputs[2] == (SendInput::ReceiptCreated { ok: true }),
        confirmed_job(inputs[3]),
        inputs[4] == (SendInput::AcceptanceRecorded { ok: true }),
{
    lemma_send_stages(inputs);
}

/// The live guard refuses exactly the unconfirmed live sends: a send in test
/// mode, or a confirmed one, goes on to read the file; an unconfirmed live
/// send stops for want of confirmation.
pub proof fn live_guard_refuses_only_unconfirmed_live(mode: ApiMode, confirmed: bool)
    ensures
        (mode == ApiMode::Test || confirmed) ==> send_next(
            SendState::Start,
            SendInput::Begin { mode, confirmed },
        ) == (SendState::Reading, SendAction::ReadFile),
        (mode == ApiMode::Live && !confirmed) ==> send_next(
            SendState::Start,
            SendInput::Begin { mode, confirmed },
        ) == (SendState::Stopped, SendAction::Stop(SendFailure::LiveConfirmationRequired)),
{
}

/// The acceptance recorded is that of the job the service confirmed: every
/// confirmed upload with a nonzero identifier leads to recording that very
/// identifier, and a recording is asked for only after such an upload.
pub proof fn recorded_job_is_the_confirmed_job(state: SendState, input: SendInput, id: u64)
    ensures
        id != 0 ==> send_next(
            SendState::Uploading,
            SendInput::Uploaded { confirmed: true, job_id: Some(id) },
        ) == (SendState::Recording, SendAction::RecordAcceptance { job_id: id }),
        send_next(state, input).1 == (SendAction::RecordAcceptance { job_id: id }) ==> state
            == SendState::Uploading && input == (SendInput::Uploaded {
            confirmed: true,
            job_id: Some(id),
        }) && id != 0,
{
}

/// How a watcher event changed a file in the watched directory.
#[derive(Debug, Clone, Copy, PartialEq, Eq, Structural)]
pub enum WatchEvent {
    /// Writing to the file completed.
    WriteClosed,
    /// The file was renamed into place.
    RenamedInto,
    /// Anything else.
    Other,
}

/// What moving a file into the private claim directory gave.
#[derive(Debug, Clone, Copy, PartialEq, Eq, Structural)]
pub enum ClaimOutcome {
    /// The file was moved.
    Moved,
    /// The file was gone, claimed or removed by someone else.
    Vanished,
    /// The move failed otherwise.
    Failed,
}

/// What the watcher is doing, with the name of the file it handles.
#[derive(Debug, Clone)]
pub enum WatchState {
    /// Waiting for the next event.
    Waiting,
    /// Claiming the named file.
    Claiming(String),
    /// Submitting the claimed file.
    Submitting(String),
    /// Archiving the submitted file under `sent`.
    Archiving(String),
    /// Stopped at a failure; a claimed file stays where it is.
    Stopped,
}

/// What the caller reports: an event, or the outcome of the last action.
#[derive(Debug, Clone)]
pub enum WatchInput {
    /// A watcher event about `file_name`: whether it is directly in the
    /// watched directory and whether it is a regular file.
    Event { kind: WatchEvent, direct_child: bool, regular_file: bool, file_name: String },
    /// The watcher failed.
    WatchFailed,
    /// The claim ended.
    Claimed(ClaimOutcome),
    /// The submission ended, confirmed or not.
    Submitted { confirmed: bool },
    /// The archiving ended.
    Archived { ok: bool },
}

/// What the caller does next.
#[derive(Debug, Clone)]
pub enum WatchAction {
    /// Wait for the next event.
    Wait,
    /// Move the named file into the private claim directory.
    Claim(String),
    /// Submit the claimed file.
    Submit(String),
    /// Move the claimed file to `sent`.
    Archive(String),
    /// Stop watching, leaving a claimed file in place.
    Stop,
}

/// The next step of watching a directory. A file is claimed when an event
/// hands it over (a completed write or a rename into the directory) and it
/// is a regular PDF file directly in the directory; a vanished file is
/// skipped; only a confirmed submission is archived; any failure stops.
pub fn watch_step(state: WatchState, input: WatchInput) -> (r: (WatchState, WatchAction))
    ensures
        match (state, input) {
            (_, WatchInput::WatchFailed) => r == (WatchState::Stopped, WatchAction::Stop),
            (WatchState::Waiting, WatchInput::Event { kind, direct_child, regular_file, file_name }) =>
                if kind != WatchEvent::Other && direct_child && regular_file && is_pdf_name(
                file_name@,
            ) {
                r == (WatchState::Claiming(file_name), WatchAction::Claim(file_name))
            } else {
                r == (WatchState::Waiting, WatchAction::Wait)
            },
            (WatchState::Claiming(name), WatchInput::Claimed(outcome)) => match outcome {
                ClaimOutcome::Moved => r == (WatchState::Submitting(name), WatchAction::Submit(name)),
                ClaimOutcome::Vanished => r == (WatchState::Waiting, WatchAction::Wait),
                ClaimOutcome::Failed => r == (WatchState::Stopped, WatchAction::Stop),
            },
            (WatchState::Submitting(name), WatchInput::Submitted { confirmed }) => if confirmed {
                r == (WatchState::Archiving(name), WatchAction::Archive(name))
            } else {
                r == (WatchState::Stopped, WatchAction::Stop)
            },
            (WatchState::Archiving(name), WatchInput::Archived { ok }) => if ok {
                r == (WatchState::Waiting, WatchAction::Wait)
            } else {
                r == (WatchState::Stopped, WatchAction::Stop)
            },
            _ => r == (WatchState::Stopped, WatchAction::Stop),
        },
{
    match (state, input) {
        (_, WatchInput::WatchFailed) => (WatchState::Stopped, WatchAction::Stop),
        (WatchState::Waiting, WatchInput::Event { kind, direct_child, regular_file, file_name }) => {
            let handed_over = match kind {
                WatchEvent::Other => false,
                _ => true,
            };
            if handed_over && direct_child && regular_file && has_pdf_extension(file_name.as_str()) {
                (WatchState::Claiming(file_name.clone()), WatchAction::Claim(file_name))
            } else {
                (WatchState::Waiting, WatchAction::Wait)
            }
        },
        (WatchState::Claiming(name), WatchInput::Claimed(outcome)) => match outcome {
            ClaimOutcome::Moved => (WatchState::Submitting(name.clone()), WatchAction::Submit(name)),
            ClaimOutcome::Vanished => (WatchState::Waiting, WatchAction::Wait),
            ClaimOutcome::Failed => (WatchState::Stopped, WatchAction::Stop),
        },
        (WatchState::Submitting(name), WatchInput::Submitted { confirmed }) => {
            if confirmed {
                (WatchState::Archiving(name.clone()), WatchAction::Archive(name))
            } else {
                (WatchState::Stopped, WatchAction::Stop)
            }
        },
        (WatchState::Archiving(_), WatchInput::Archived { ok }) => {
            if ok {
                (WatchState::Waiting, WatchAction::Wait)
            } else {
                (WatchState::Stopped, WatchAction::Stop)
            }
        },
        _ => (WatchState::Stopped, WatchAction::Stop),
    }
}

} // verus!

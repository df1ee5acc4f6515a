//! Backup sessions: one record per run.

use vstd::prelude::*;
use crate::json::{json_counts, json_members, string_member, unsigned_member};
use crate::text::copy_opt_text;

verus! {

/// Whether a run started from an empty index or from an earlier one.
#[derive(Clone, Copy, Debug, PartialEq, Eq, Structural)]
pub enum SessionKind {
    Full,
    Incremental,
}

/// The record of one run.
#[derive(Clone, Debug, PartialEq, Eq)]
pub struct BackupSession {
    /// The number the session log gave the record; absent before it is stored.
    pub id: Option<u64>,
    pub kind: SessionKind,
    pub started_at: String,
    /// Absent while the run is under way, and for good if it was interrupted.
    pub completed_at: Option<String>,
    pub account: String,
    /// The downloads attempted so far.
    pub total_photos: u64,
    pub successful_photos: u64,
    pub failed_photos: u64,
    /// The sizes of the photos downloaded so far, added up.
    pub total_bytes: u128,
    pub notes: Option<String>,
}

/// The mathematical value of a [`BackupSession`].
pub ghost struct SessionView {
    pub id: Option<u64>,
    pub kind: SessionKind,
    pub started_at: Seq<char>,
    pub completed_at: Option<Seq<char>>,
    pub account: Seq<char>,
    pub total_photos: nat,
    pub successful_photos: nat,
    pub failed_photos: nat,
    pub total_bytes: nat,
    pub notes: Option<Seq<char>>,
}

impl View for BackupSession {
    type V = SessionView;

    open spec fn view(&self) -> SessionView {
        SessionView {
            id: self.id,
            kind: self.kind,
            started_at: self.started_at@,
            completed_at: self.completed_at.deep_view(),
            account: self.account@,
            total_photos: self.total_photos as nat,
            successful_photos: self.successful_photos as nat,
            failed_photos: self.failed_photos as nat,
            total_bytes: self.total_bytes as nat,
            notes: self.notes.deep_view(),
        }
    }
}

impl DeepView for BackupSession {
    type V = SessionView;

    open spec fn deep_view(&self) -> SessionView {
        self@
    }
}

impl SessionView {
    /// The record of a run that has just started.
    pub open spec fn started(kind: SessionKind, account: Seq<char>, started_at: Seq<char>) -> SessionView {
        SessionView {
            id: None,
            kind,
            started_at,
            completed_at: None,
            account,
            total_photos: 0,
            successful_photos: 0,
            failed_photos: 0,
            total_bytes: 0,
            notes: None,
        }
    }

    /// The record after a download of `bytes` bytes succeeded.
    pub open spec fn with_success(self, bytes: u64) -> SessionView {
        SessionView {
            total_photos: self.total_photos + 1,
            successful_photos: self.successful_photos + 1,
            total_bytes: self.total_bytes + bytes as nat,
            ..self
        }
    }

    /// The record after a download failed.
    pub open spec fn with_failure(self) -> SessionView {
        SessionView {
            total_photos: self.total_photos + 1,
            failed_photos: self.failed_photos + 1,
            ..self
        }
    }

    /// The record after the run has ended at `completed_at`.
    pub open spec fn sealed(self, completed_at: Seq<char>, notes: Option<Seq<char>>) -> SessionView {
        SessionView { completed_at: Some(completed_at), notes, ..self }
    }

    /// The totals add up, and the bytes are those of successful downloads.
    pub open spec fn balanced(self) -> bool {
        &&& self.total_photos == self.successful_photos + self.failed_photos
        &&& self.total_bytes <= self.successful_photos * u64::MAX
    }

    /// Whether the run of this record was still under way when the record was last written.
    pub open spec fn is_open(self) -> bool {
        self.completed_at is None
    }
}

impl BackupSession {
    /// The record of a run that has just started.
    pub fn started(kind: SessionKind, account: String, started_at: String) -> (r: BackupSession)
        ensures
            r@ == SessionView::started(kind, account@, started_at@),
    {
        BackupSession {
            id: None,
            kind,
            started_at,
            completed_at: None,
            account,
            total_photos: 0,
            successful_photos: 0,
            failed_photos: 0,
            total_bytes: 0,
            notes: None,
        }
    }

    /// Whether the run of this record was still under way when the record
    /// was last written: after a restart, such a record marks an interrupted run.
    pub fn is_open(&self) -> (r: bool)
        ensures
            r == self@.is_open(),
    {
        self.completed_at.is_none()
    }

    /// Copies the record.
    pub fn duplicate(&self) -> (r: BackupSession)
        ensures
            r@ == self@,
    {
        BackupSession {
            id: self.id,
            kind: self.kind,
            started_at: self.started_at.clone(),
            completed_at: copy_opt_text(&self.completed_at),
            account: self.account.clone(),
            total_photos: self.total_photos,
            successful_photos: self.successful_photos,
            failed_photos: self.failed_photos,
            total_bytes: self.total_bytes,
            notes: copy_opt_text(&self.notes),
        }
    }
}

/// What an update of a session record sets. A part that is absent leaves
/// the record as it is.
#[derive(Clone, Debug, PartialEq, Eq)]
pub struct SessionUpdate {
    pub completed_at: Option<String>,
    pub total_photos: Option<u64>,
    pub successful_photos: Option<u64>,
    pub failed_photos: Option<u64>,
    pub total_bytes: Option<u128>,
    pub notes: Option<String>,
}

/// The mathematical value of a [`SessionUpdate`].
pub ghost struct UpdateView {
    pub completed_at: Option<Seq<char>>,
    pub total_photos: Option<u64>,
    pub successful_photos: Option<u64>,
    pub failed_photos: Option<u64>,
    pub total_bytes: Option<u128>,
    pub notes: Option<Seq<char>>,
}

impl View for SessionUpdate {
    type V = UpdateView;

    open spec fn view(&self) -> UpdateView {
        UpdateView {
            completed_at: self.completed_at.deep_view(),
            total_photos: self.total_photos,
            successful_photos: self.successful_photos,
            failed_photos: self.failed_photos,
            total_bytes: self.total_bytes,
            notes: self.notes.deep_view(),
        }
    }
}

/// The member under `key`, if there is one.
pub open spec fn member<V>(members: Map<Seq<char>, V>, key: Seq<char>) -> Option<V> {
    if members.contains_key(key) {
        Some(members[key])
    } else {
        None
    }
}

impl UpdateView {
    /// Whether the update sets any part of a record.
    pub open spec fn sets_something(self) -> bool {
        self.completed_at is Some || self.total_photos is Some || self.successful_photos is Some
            || self.failed_photos is Some || self.total_bytes is Some || self.notes is Some
    }

    /// The update that writes the end of a run into its record: the
    /// completion time, the final totals, and the notes, as the run has left them.
    pub open spec fn sealing(session: SessionView) -> UpdateView {
        UpdateView {
            completed_at: session.completed_at,
            total_photos: Some(session.total_photos as u64),
            successful_photos: Some(session.successful_photos as u64),
            failed_photos: Some(session.failed_photos as u64),
            total_bytes: Some(session.total_bytes as u128),
            notes: session.notes,
        }
    }

    /// The update that a JSON document asks for: the completion time and
    /// the notes from its string members, the totals from its integer members.
    pub open spec fn in_document(texts: Map<Seq<char>, Seq<char>>, counts: Map<Seq<char>, u64>) -> UpdateView {
        UpdateView {
            completed_at: member(texts, "completed_at"@),
            total_photos: member(counts, "total_photos"@),
            successful_photos: member(counts, "successful_photos"@),
            failed_photos: member(counts, "failed_photos"@),
            total_bytes: match member(counts, "total_bytes"@) {
                Some(n) => Some(n as u128),
                None => None,
            },
            notes: member(texts, "notes"@),
        }
    }
}

impl SessionView {
    /// The record with every part that `update` sets, and as it was elsewhere.
    pub open spec fn updated(self, update: UpdateView) -> SessionView {
        SessionView {
            completed_at: match update.completed_at {
                Some(t) => Some(t),
                None => self.completed_at,
            },
            total_photos: match update.total_photos {
                Some(n) => n as nat,
                None => self.total_photos,
            },
            successful_photos: match update.successful_photos {
                Some(n) => n as nat,
                None => self.successful_photos,
            },
            failed_photos: match update.failed_photos {
                Some(n) => n as nat,
                None => self.failed_photos,
            },
            total_bytes: match update.total_bytes {
                Some(n) => n as nat,
                None => self.total_bytes,
            },
            notes: match update.notes {
                Some(t) => Some(t),
                None => self.notes,
            },
            ..self
        }
    }

    /// The record as the log takes it in: numbered, and without a
    /// completion time, whatever the record handed in says of its end.
    pub open spec fn opened(self, id: u64) -> SessionView {
        SessionView { id: Some(id), completed_at: None, ..self }
    }
}

impl SessionUpdate {
    /// An update that sets nothing.
    pub fn nothing() -> (r: SessionUpdate)
        ensures
            !r@.sets_something(),
            r@ == (UpdateView {
                completed_at: None,
                total_photos: None,
                successful_photos: None,
                failed_photos: None,
                total_bytes: None,
                notes: None,
            }),
    {
        SessionUpdate {
            completed_at: None,
            total_photos: None,
            successful_photos: None,
            failed_photos: None,
            total_bytes: None,
            notes: None,
        }
    }

    /// The update that writes the end of a run into its record: the
    /// completion time, the final totals, and the notes, as the run has left them.
    pub fn sealing(session: &BackupSession) -> (r: SessionUpdate)
        ensures
            r@ == UpdateView::sealing(session@),
    {
        SessionUpdate {
            completed_at: copy_opt_text(&session.completed_at),
            total_photos: Some(session.total_photos),
            successful_photos: Some(session.successful_photos),
            failed_photos: Some(session.failed_photos),
            total_bytes: Some(session.total_bytes),
            notes: copy_opt_text(&session.notes),
        }
    }

    /// Whether the update sets any part of a record.
    pub fn sets_something(&self) -> (r: bool)
        ensures
            r == self@.sets_something(),
    {
        self.completed_at.is_some() || self.total_photos.is_some() || self.successful_photos.is_some()
            || self.failed_photos.is_some() || self.total_bytes.is_some() || self.notes.is_some()
    }
}

/// Reads an update from a JSON document: the completion time and the notes
/// are its members `completed_at` and `notes` where they are strings, the
/// totals its members `total_photos`, `successful_photos`, `failed_photos`
/// and `total_bytes` where they are integers that are not negative.
pub fn session_update_from_json(updates: &serde_json::Value) -> (r: SessionUpdate)
    ensures
        r@ == UpdateView::in_document(json_members(*updates), json_counts(*updates)),
{
    let total_bytes = match unsigned_member(updates, "total_bytes") {
        Some(n) => Some(n as u128),
        None => None,
    };
    SessionUpdate {
        completed_at: string_member(updates, "completed_at"),
        total_photos: unsigned_member(updates, "total_photos"),
        successful_photos: unsigned_member(updates, "successful_photos"),
        failed_photos: unsigned_member(updates, "failed_photos"),
        total_bytes,
        notes: string_member(updates, "notes"),
    }
}

/// The position of the record with the number `id` in a log: records are
/// numbered from one in the order in which they were created.
pub open spec fn position_of_session(log: Seq<SessionView>, id: u64) -> Option<int> {
    if 1 <= id <= log.len() {
        Some(id - 1)
    } else {
        None
    }
}

/// The log after `update` was applied to the record with the number `id`, if there is one.
pub open spec fn with_update(log: Seq<SessionView>, id: u64, update: UpdateView) -> Seq<SessionView> {
    match position_of_session(log, id) {
        Some(i) => log.update(i, log[i].updated(update)),
        None => log,
    }
}

/// A record that was opened at the start of a run and then sealed with the
/// record that the run ended with carries the completion time and the
/// totals of the run, whatever it held before.
pub proof fn sealing_writes_the_totals(record: SessionView, run_record: SessionView)
    requires
        run_record.completed_at is Some,
        run_record.total_photos <= u64::MAX,
        run_record.successful_photos <= u64::MAX,
        run_record.failed_photos <= u64::MAX,
        run_record.total_bytes <= u128::MAX,
    ensures
        ({
            let sealed = record.updated(UpdateView::sealing(run_record));
            &&& sealed.completed_at == run_record.completed_at
            &&& sealed.total_photos == run_record.total_photos
            &&& sealed.successful_photos == run_record.successful_photos
            &&& sealed.failed_photos == run_record.failed_photos
            &&& sealed.total_bytes == run_record.total_bytes
            &&& run_record.notes is Some ==> sealed.notes == run_record.notes
            &&& sealed.id == record.id && sealed.kind == record.kind && sealed.started_at == record.started_at
                && sealed.account == record.account
        }),
{
}

/// The session records of all runs, oldest first.
pub struct SessionLog {
    sessions: Vec<BackupSession>,
}

impl View for SessionLog {
    type V = Seq<SessionView>;

    closed spec fn view(&self) -> Seq<SessionView> {
        self.sessions.deep_view()
    }
}

impl SessionLog {
    /// Every record carries the number of its place in the log, counted from one.
    pub open spec fn wf(&self) -> bool {
        forall|i: int| 0 <= i < self@.len() ==> (#[trigger] self@[i]).id == Some((i + 1) as u64)
    }

    /// A log without records.
    pub fn new() -> (r: SessionLog)
        ensures
            r.wf(),
            r@ == Seq::<SessionView>::empty(),
    {
        let r = SessionLog { sessions: Vec::new() };
        assert(r@ =~= Seq::<SessionView>::empty());
        r
    }

    /// The number of records.
    pub fn len(&self) -> (r: usize)
        ensures
            r == self@.len(),
    {
        self.sessions.len()
    }

    /// Adds the record of a run that starts and gives it the next number,
    /// which is returned. The new record has no completion time, whatever the
    /// record handed in says of its end: a run that has only been created has not ended.
    pub fn create_backup_session(&mut self, session: BackupSession) -> (id: u64)
        requires
            old(self).wf(),
            old(self)@.len() < u64::MAX,
        ensures
            final(self).wf(),
            id == old(self)@.len() + 1,
            final(self)@ == old(self)@.push(session@.opened(id)),
            final(self)@.last().is_open(),
    {
        let ghost before = self@;
        let id = self.sessions.len() as u64 + 1;
        let mut session = session;
        let ghost given = session@;
        session.id = Some(id);
        session.completed_at = None;
        self.sessions.push(session);
        assert(self@ =~= before.push(given.opened(id)));
        id
    }

    /// Applies an update to the record with the number `id`: every part
    /// that the update sets is written, the rest of the record and all other
    /// records stay. Returns whether a record was changed: there is none
    /// with that number, or the update sets nothing, where it was not.
    pub fn update_backup_session(&mut self, id: u64, update: SessionUpdate) -> (r: bool)
        requires
            old(self).wf(),
        ensures
            final(self).wf(),
            final(self)@ == with_update(old(self)@, id, update@),
            r == (update@.sets_something() && position_of_session(old(self)@, id) is Some),
    {
        let ghost before = self@;
        let ghost asked = update@;
        if !(1 <= id && id - 1 < self.sessions.len() as u64) {
            return false;
        }
        let i = (id - 1) as usize;
        assert(before[i as int] == self.sessions[i as int]@);
        let changed = update.sets_something();
        let SessionUpdate { completed_at, total_photos, successful_photos, failed_photos, total_bytes, notes } =
            update;
        if let Some(t) = completed_at {
            self.sessions[i].completed_at = Some(t);
        }
        if let Some(n) = total_photos {
            self.sessions[i].total_photos = n;
        }
        if let Some(n) = successful_photos {
            self.sessions[i].successful_photos = n;
        }
        if let Some(n) = failed_photos {
            self.sessions[i].failed_photos = n;
        }
        if let Some(n) = total_bytes {
            self.sessions[i].total_bytes = n;
        }
        if let Some(t) = notes {
            self.sessions[i].notes = Some(t);
        }
        assert(self@ =~= before.update(i as int, before[i as int].updated(asked)));
        changed
    }

    /// The record with the number `id`.
    pub fn get_session(&self, id: u64) -> (r: Option<&BackupSession>)
        ensures
            match position_of_session(self@, id) {
                Some(i) => r matches Some(s) && s@ == self@[i],
                None => r is None,
            },
    {
        if 1 <= id && id - 1 < self.sessions.len() as u64 {
            let i = (id - 1) as usize;
            assert(self@[i as int] == self.sessions[i as int]@);
            Some(&self.sessions[i])
        } else {
            None
        }
    }

    /// All records, the newest first.
    pub fn list_sessions(&self) -> (r: Vec<BackupSession>)
        ensures
            r.deep_view() == self@.reverse(),
    {
        let n = self.sessions.len();
        let mut out: Vec<BackupSession> = Vec::new();
        let mut i: usize = 0;
        while i < n
            invariant
                n == self.sessions.len(),
                i <= n,
                out.len() == i,
                forall|j: int| 0 <= j < i ==> (#[trigger] out[j])@ == self.sessions[n - 1 - j]@,
            decreases n - i,
        {
            out.push(self.sessions[n - 1 - i].duplicate());
            i += 1;
        }
        assert(out.deep_view() =~= self@.reverse());
        out
    }

    /// The records of runs that did not end: each marks a run that was
    /// interrupted and can be resumed. The newest comes first.
    pub fn open_sessions(&self) -> (r: Vec<BackupSession>)
        ensures
            r.deep_view() == self@.reverse().filter(|s: SessionView| s.is_open()),
    {
        let n = self.sessions.len();
        let mut out: Vec<BackupSession> = Vec::new();
        let mut i: usize = 0;
        let ghost newest_first = self@.reverse();
        assert(newest_first.take(0) =~= Seq::<SessionView>::empty());
        while i < n
            invariant
                n == self.sessions.len(),
                newest_first == self@.reverse(),
                i <= n,
                out.deep_view() == newest_first.take(i as int).filter(|s: SessionView| s.is_open()),
            decreases n - i,
        {
            let session = &self.sessions[n - 1 - i];
            let ghost seen = out.deep_view();
            proof {
                assert(newest_first[i as int] == session@);
                assert(newest_first.take(i + 1) =~= newest_first.take(i as int).push(session@));
                filter_of_push(newest_first.take(i as int), session@);
            }
            if session.is_open() {
                out.push(session.duplicate());
                assert(out.deep_view() =~= seen.push(session@));
            }
            i += 1;
        }
        assert(newest_first.take(n as int) =~= newest_first);
        out
    }
}

/// Filtering a sequence with one more element at its end.
proof fn filter_of_push(items: Seq<SessionView>, last: SessionView)
    ensures
        items.push(last).filter(|s: SessionView| s.is_open()) == if last.is_open() {
            items.filter(|s: SessionView| s.is_open()).push(last)
        } else {
            items.filter(|s: SessionView| s.is_open())
        },
{
    reveal(Seq::filter);
    assert(items.push(last).drop_last() =~= items);
}

} // verus!

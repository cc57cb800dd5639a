//! A bounded record of the lifecycle transitions a workload went through.
//!
//! The trail names a workload and what happened to it. It deliberately does
//! not hold a workload's host, target, directory, command, preset, or
//! ownership proof.

use vstd::prelude::*;
use vstd::string::*;

use crate::clock::{rfc3339, rfc3339_text, seconds_of_days, try_days, Timestamp};
use crate::model::{session_id_text, SessionId, TmuxSessionId};
use crate::state::SessionStatus;
use crate::text::{numeral, signed_decimal, signed_numeral};

verus! {

/// The trail's own schema.
pub const AUDIT_SCHEMA_VERSION: u32 = 1;

/// The most transitions the trail keeps. Retention removes entries by age
/// first; this stops a busy day from growing the trail without limit.
pub const MAX_AUDIT_ENTRIES: usize = 4_096;

/// The most the trail may occupy on disk, read or written.
pub const MAX_AUDIT_BYTES: usize = 2 * 1024 * 1024;

/// Why a workload changed state.
#[derive(Clone, Copy, Debug, PartialEq, Eq, Structural)]
pub enum AuditAction {
    /// A workload was reserved before its backend was asked to create it.
    Create,
    /// A created workload was confirmed live.
    Activate,
    /// A confirmed Stop began.
    Stop,
    /// A stop finished and the workload's end was recorded.
    Stopped,
    /// A restart reserved a new incarnation.
    Restart,
    /// An observation found the workload alive.
    Observed,
    /// An observation found the workload ended or gone.
    Reconciled,
    /// Retained metadata was removed.
    Removed,
}

impl AuditAction {
    /// The word for the action.
    pub open spec fn word(self) -> Seq<char> {
        match self {
            AuditAction::Create => "create"@,
            AuditAction::Activate => "activate"@,
            AuditAction::Stop => "stop"@,
            AuditAction::Stopped => "stopped"@,
            AuditAction::Restart => "restart"@,
            AuditAction::Observed => "observed"@,
            AuditAction::Reconciled => "reconciled"@,
            AuditAction::Removed => "removed"@,
        }
    }

    /// The word for the action.
    pub fn label(self) -> (word: &'static str)
        ensures
            word@ == self.word(),
    {
        match self {
            AuditAction::Create => "create",
            AuditAction::Activate => "activate",
            AuditAction::Stop => "stop",
            AuditAction::Stopped => "stopped",
            AuditAction::Restart => "restart",
            AuditAction::Observed => "observed",
            AuditAction::Reconciled => "reconciled",
            AuditAction::Removed => "removed",
        }
    }
}

/// One transition, as it was committed.
#[derive(Clone, Copy, Debug, PartialEq, Eq, Structural)]
pub struct AuditEntry {
    /// When the transition was recorded.
    pub at: Timestamp,
    pub session: SessionId,
    pub action: AuditAction,
    /// The status the record held before the write. Absent for a create: the
    /// workload did not exist.
    pub from: Option<SessionStatus>,
    /// The status the record holds after it.
    pub to: SessionStatus,
    /// Which `tmux` incarnation the transition concerned, when one is known.
    pub incarnation: Option<TmuxSessionId>,
    /// The exit status the workload ended with, when one was observed.
    pub exit_status: Option<i32>,
}

/// The word for a status.
pub open spec fn status_word(status: SessionStatus) -> Seq<char> {
    match status {
        SessionStatus::Creating => "creating"@,
        SessionStatus::Running => "running"@,
        SessionStatus::Stopping => "stopping"@,
        SessionStatus::Ended => "ended"@,
        SessionStatus::Removed => "removed"@,
    }
}

/// The word for a status.
pub fn status_label(status: SessionStatus) -> (word: &'static str)
    ensures
        word@ == status_word(status),
{
    match status {
        SessionStatus::Creating => "creating",
        SessionStatus::Running => "running",
        SessionStatus::Stopping => "stopping",
        SessionStatus::Ended => "ended",
        SessionStatus::Removed => "removed",
    }
}

impl AuditEntry {
    /// One line, for a person reading the trail.
    pub open spec fn line(self) -> Seq<char> {
        rfc3339(self.at.secs, self.at.nanos) + "\t"@ + session_id_text(self.session@) + "\t"@
            + self.action.word() + "\t"@ + (match self.from {
            Some(status) => status_word(status) + " → "@,
            None => ""@,
        }) + status_word(self.to) + (match self.incarnation {
            Some(id) => " · "@ + (seq!['$'] + numeral(id@ as nat)),
            None => ""@,
        }) + (match self.exit_status {
            Some(status) => " · exit "@ + signed_numeral(status as int),
            None => ""@,
        })
    }

    /// One line, for a person reading the trail.
    pub fn summary(&self) -> (text: String)
        requires
            self.at.valid(),
        ensures
            text@ == self.line(),
    {
        let from = match self.from {
            Some(status) => status_label(status).to_owned().concat(" → "),
            None => "".to_owned(),
        };
        let incarnation = match self.incarnation {
            Some(id) => " · ".to_owned().concat(id.to_string().as_str()),
            None => "".to_owned(),
        };
        let exit = match self.exit_status {
            Some(status) => " · exit ".to_owned().concat(signed_decimal(status).as_str()),
            None => "".to_owned(),
        };
        rfc3339_text(self.at).concat("\t").concat(self.session.to_string().as_str()).concat(
            "\t",
        ).concat(self.action.label()).concat("\t").concat(from.as_str()).concat(
            status_label(self.to),
        ).concat(incarnation.as_str()).concat(exit.as_str())
    }
}

/// The trail as it is stored.
#[derive(Debug, PartialEq, Eq)]
pub struct AuditTrail {
    pub schema_version: u32,
    pub entries: Vec<AuditEntry>,
}

impl Default for AuditTrail {
    fn default() -> (trail: Self)
        ensures
            trail.schema_version == AUDIT_SCHEMA_VERSION,
            trail.entries@ == Seq::<AuditEntry>::empty(),
    {
        AuditTrail { schema_version: AUDIT_SCHEMA_VERSION, entries: Vec::new() }
    }
}

/// Why a stored trail is refused.
#[derive(Clone, Copy, Debug, PartialEq, Eq, Structural)]
pub enum AuditError {
    TooLarge,
    UnsupportedSchema,
    SerializedTooLarge,
}

impl AuditError {
    /// What went wrong, for a reader.
    pub fn message(&self) -> (text: String)
        ensures
            text@ == match self {
                AuditError::TooLarge => "audit trail exceeds 2097152 bytes"@,
                AuditError::UnsupportedSchema => "unsupported audit trail schema"@,
                AuditError::SerializedTooLarge => "serialized audit trail exceeds 2097152 bytes"@,
            },
    {
        match self {
            AuditError::TooLarge => "audit trail exceeds 2097152 bytes".to_owned(),
            AuditError::UnsupportedSchema => "unsupported audit trail schema".to_owned(),
            AuditError::SerializedTooLarge =>
                "serialized audit trail exceeds 2097152 bytes".to_owned(),
        }
    }
}

/// Appends transitions to the trail and reads it back.
#[derive(Debug, PartialEq, Eq)]
pub struct AuditStore {
    path: String,
    /// How long a transition is kept, in days.
    retention_days: u64,
}

/// The contents of an [`AuditStore`].
pub struct AuditStoreView {
    pub path: Seq<char>,
    pub retention_days: u64,
}

impl View for AuditStore {
    type V = AuditStoreView;

    closed spec fn view(&self) -> AuditStoreView {
        AuditStoreView { path: self.path@, retention_days: self.retention_days }
    }
}

impl Clone for AuditStore {
    fn clone(&self) -> (copy: Self)
        ensures
            copy == *self,
    {
        AuditStore { path: self.path.clone(), retention_days: self.retention_days }
    }
}

/// The instant before which transitions are dropped. Retention too long to be
/// counted in days of 64 bits, or to be a span of time, drops none.
pub open spec fn window(days: u64) -> Option<int> {
    if days > i64::MAX {
        None
    } else {
        seconds_of_days(days as int)
    }
}

/// The start of the retention window lies within the calendar.
pub open spec fn window_in_range(days: u64, now: Timestamp) -> bool {
    window(days) is Some ==> now.earlier(window(days)->0) is Some
}

/// The entries that are not older than `cutoff`, in their order.
pub open spec fn entries_since(entries: Seq<AuditEntry>, cutoff: Timestamp) -> Seq<AuditEntry>
    decreases entries.len(),
{
    if entries.len() == 0 {
        Seq::empty()
    } else {
        let front = entries_since(entries.drop_last(), cutoff);
        if !entries.last().at.before(cutoff) {
            front.push(entries.last())
        } else {
            front
        }
    }
}

/// The newest entries that fit under the ceiling.
pub open spec fn newest_entries(entries: Seq<AuditEntry>) -> Seq<AuditEntry> {
    if entries.len() > MAX_AUDIT_ENTRIES {
        entries.skip(entries.len() - MAX_AUDIT_ENTRIES)
    } else {
        entries
    }
}

/// What is kept of a trail: by age first, and then the newest that fit.
pub open spec fn kept_entries(entries: Seq<AuditEntry>, days: u64, now: Timestamp) -> Seq<AuditEntry> {
    match window(days) {
        Some(seconds) => newest_entries(entries_since(entries, now.earlier(seconds)->0)),
        None => newest_entries(entries),
    }
}

/// A trail never exceeds the ceiling, and nothing older than the window stays.
pub proof fn kept_entries_are_bounded(entries: Seq<AuditEntry>, days: u64, now: Timestamp)
    ensures
        kept_entries(entries, days, now).len() <= MAX_AUDIT_ENTRIES,
        window(days) is Some ==> forall|i: int|
            0 <= i < kept_entries(entries, days, now).len() ==> !(#[trigger] kept_entries(
                entries,
                days,
                now,
            )[i]).at.before(now.earlier(window(days)->0)->0),
{
    if let Some(seconds) = window(days) {
        let cutoff = now.earlier(seconds)->0;
        lemma_entries_since(entries, cutoff);
        let recent = entries_since(entries, cutoff);
        let kept = kept_entries(entries, days, now);
        assert forall|i: int| 0 <= i < kept.len() implies !(#[trigger] kept[i]).at.before(cutoff) by {
            let at = if recent.len() > MAX_AUDIT_ENTRIES {
                i + recent.len() - MAX_AUDIT_ENTRIES
            } else {
                i
            };
            assert(kept[i] == recent[at]);
        }
    }
}

/// Recent entries are recent.
proof fn lemma_entries_since(entries: Seq<AuditEntry>, cutoff: Timestamp)
    ensures
        forall|i: int|
            0 <= i < entries_since(entries, cutoff).len() ==> !(#[trigger] entries_since(
                entries,
                cutoff,
            )[i]).at.before(cutoff),
    decreases entries.len(),
{
    if entries.len() > 0 {
        lemma_entries_since(entries.drop_last(), cutoff);
    }
}

/// Drops what retention and the ceiling say the trail should no longer hold.
pub fn retain_bounded(entries: &mut Vec<AuditEntry>, retention_days: u64, now: Timestamp)
    requires
        now.valid(),
        window_in_range(retention_days, now),
    ensures
        final(entries)@ == kept_entries(old(entries)@, retention_days, now),
{
    let ghost all = entries@;
    let seconds = if retention_days > i64::MAX as u64 {
        None
    } else {
        try_days(retention_days as i64)
    };
    if let Some(seconds) = seconds {
        if let Some(cutoff) = now.earlier_by(seconds) {
            let mut recent: Vec<AuditEntry> = Vec::new();
            let mut i: usize = 0;
            assert(all.take(0) =~= Seq::empty());
            while i < entries.len()
                invariant
                    i <= entries@.len(),
                    entries@ == all,
                    recent@ == entries_since(all.take(i as int), cutoff),
                decreases entries.len() - i,
            {
                assert(all.take(i + 1).drop_last() =~= all.take(i as int));
                assert(all.take(i + 1).last() == entries@[i as int]);
                if !entries[i].at.is_before(cutoff) {
                    recent.push(entries[i]);
                }
                i += 1;
            }
            assert(all.take(i as int) =~= all);
            *entries = recent;
        }
    }
    if entries.len() > MAX_AUDIT_ENTRIES {
        let excess: usize = entries.len() - MAX_AUDIT_ENTRIES;
        let ghost before = entries@;
        let newest = entries.split_off(excess);
        assert(newest@ =~= before.skip(before.len() - MAX_AUDIT_ENTRIES));
        *entries = newest;
    }
}

impl AuditStore {
    /// The trail at `path`.
    pub fn new(path: String, retention_days: u64) -> (store: Self)
        ensures
            store@ == (AuditStoreView { path: path@, retention_days }),
    {
        AuditStore { path, retention_days }
    }

    /// The path of the trail.
    pub fn path(&self) -> (path: &str)
        ensures
            path@ == self@.path,
    {
        self.path.as_str()
    }

    /// Records one transition as of the current instant. The answer is whether
    /// it was recorded: not if the retention window starts before the calendar.
    pub fn record(&self, trail: &mut AuditTrail, entry: AuditEntry) -> (recorded: bool)
        ensures
            final(trail).schema_version == old(trail).schema_version,
            window(self@.retention_days) is None ==> recorded,
            exists|now: Timestamp|
                now.valid() && recorded == #[trigger] window_in_range(self@.retention_days, now)
                    && final(trail).entries@ == (if recorded {
                    kept_entries(old(trail).entries@.push(entry), self@.retention_days, now)
                } else {
                    old(trail).entries@
                }),
    {
        let now = Timestamp::now();
        self.record_if_in_range(trail, entry, now)
    }

    /// Records one transition as of `now` if the retention window that ends at
    /// `now` starts within the calendar, and leaves the trail alone otherwise.
    /// The answer is whether it was recorded.
    pub fn record_if_in_range(
        &self,
        trail: &mut AuditTrail,
        entry: AuditEntry,
        now: Timestamp,
    ) -> (recorded: bool)
        requires
            now.valid(),
        ensures
            recorded == window_in_range(self@.retention_days, now),
            final(trail).schema_version == old(trail).schema_version,
            final(trail).entries@ == (if recorded {
                kept_entries(old(trail).entries@.push(entry), self@.retention_days, now)
            } else {
                old(trail).entries@
            }),
    {
        let fits = if self.retention_days > i64::MAX as u64 {
            true
        } else {
            match try_days(self.retention_days as i64) {
                Some(seconds) => now.earlier_by(seconds).is_some(),
                None => true,
            }
        };
        if fits {
            self.record_at(trail, entry, now);
        }
        fits
    }

    /// Records one transition as of `now`.
    pub fn record_at(&self, trail: &mut AuditTrail, entry: AuditEntry, now: Timestamp)
        requires
            now.valid(),
            window_in_range(self@.retention_days, now),
        ensures
            final(trail).schema_version == old(trail).schema_version,
            final(trail).entries@ == kept_entries(
                old(trail).entries@.push(entry),
                self@.retention_days,
                now,
            ),
    {
        trail.entries.push(entry);
        retain_bounded(&mut trail.entries, self.retention_days, now);
    }

    /// Checks the size of a trail before it is written, its last line break
    /// counted in.
    pub fn accept_serialized(&self, bytes: usize) -> (r: Result<(), AuditError>)
        ensures
            r == if bytes > MAX_AUDIT_BYTES {
                Err::<(), AuditError>(AuditError::SerializedTooLarge)
            } else {
                Ok(())
            },
    {
        if bytes > MAX_AUDIT_BYTES {
            return Err(AuditError::SerializedTooLarge);
        }
        Ok(())
    }

    /// The transitions of a stored trail, oldest first. `bytes` is what the
    /// trail occupies.
    pub fn entries(&self, trail: AuditTrail, bytes: usize) -> (r: Result<Vec<AuditEntry>, AuditError>)
        ensures
            r == if bytes > MAX_AUDIT_BYTES {
                Err::<Vec<AuditEntry>, AuditError>(AuditError::TooLarge)
            } else if trail.schema_version != AUDIT_SCHEMA_VERSION {
                Err(AuditError::UnsupportedSchema)
            } else {
                Ok(trail.entries)
            },
    {
        if bytes > MAX_AUDIT_BYTES {
            return Err(AuditError::TooLarge);
        }
        if trail.schema_version != AUDIT_SCHEMA_VERSION {
            return Err(AuditError::UnsupportedSchema);
        }
        Ok(trail.entries)
    }
}

} // verus!

//! The expiry engine's decisions: the assessment of each record, the order of
//! the two removals that expire it, and the tally of a run. The caller lists the
//! trash, reads descriptors and removes files; each step here says what to do next.
use vstd::prelude::*;
use crate::policy::{decision_of, Decision, PolicyConfig};
use crate::record::{ParseError, RecordView, TrashRecord};
use crate::timestamp::{age_days, age_in_days};

verus! {

/// The age of a record at one moment and the decision for it.
#[derive(Debug, Clone, Copy, PartialEq, Eq, Structural)]
pub struct Assessment {
    pub age_days: i64,
    pub decision: Decision,
}

/// The assessment of a record trashed at `deletion`, seen at `now` under `c`.
pub open spec fn assessment_of(deletion: int, now: int, c: PolicyConfig) -> Assessment {
    let age = age_in_days(deletion, now);
    Assessment { age_days: age as i64, decision: decision_of(age, c) }
}

/// Assesses `record` at the instant `now` (seconds since the Unix epoch).
pub fn assess(record: &TrashRecord, now: i64, config: &PolicyConfig) -> (r: Assessment)
    ensures
        r == assessment_of(record@.deletion, now as int, *config),
        r.age_days == age_in_days(record@.deletion, now as int),
{
    let age = age_days(record.deletion_timestamp(), now);
    Assessment { age_days: age, decision: config.classify(age) }
}

/// What to do with one descriptor once it has been parsed, or has failed to parse.
pub enum EntryPlan {
    /// Nothing more to do: a parse failure, or a fresh record left silently.
    Settled(EntryOutcome),
    /// Report the record as due for expiry; change nothing.
    Warn(TrashRecord, Assessment),
    /// Remove the record's payload, then its descriptor, from `DeletionStep::start`.
    Expire(TrashRecord, Assessment),
}

/// Plans the handling of one descriptor from its parse result: a failure is an
/// error of the run and nothing more; a record is assessed at `now`.
pub fn plan_entry(parsed: Result<TrashRecord, ParseError>, now: i64, config: &PolicyConfig) -> (r: EntryPlan)
    ensures
        match r {
            EntryPlan::Settled(o) => match parsed {
                Err(e) => o == EntryOutcome::ParseFailed(e),
                Ok(rec) => o == EntryOutcome::Fresh && assessment_of(
                    rec@.deletion,
                    now as int,
                    *config,
                ).decision is Fresh,
            },
            EntryPlan::Warn(rec, a) => parsed is Ok && rec@ == parsed->Ok_0@ && a == assessment_of(
                rec@.deletion,
                now as int,
                *config,
            ) && a.decision is Warn,
            EntryPlan::Expire(rec, a) => parsed is Ok && rec@ == parsed->Ok_0@ && a
                == assessment_of(rec@.deletion, now as int, *config) && a.decision is Expire,
        },
{
    match parsed {
        Err(e) => EntryPlan::Settled(EntryOutcome::ParseFailed(e)),
        Ok(rec) => {
            let a = assess(&rec, now, config);
            match a.decision {
                Decision::Expire => EntryPlan::Expire(rec, a),
                Decision::Warn { .. } => EntryPlan::Warn(rec, a),
                Decision::Fresh => EntryPlan::Settled(EntryOutcome::Fresh),
            }
        },
    }
}

/// The records that a run leaves in place, where every expiry succeeds.
pub open spec fn survivors(records: Seq<RecordView>, now: int, c: PolicyConfig) -> Seq<RecordView> {
    records.filter(|r: RecordView| assessment_of(r.deletion, now, c).decision != Decision::Expire)
}

/// Running twice at one instant: the second run finds no more records than the
/// first, none of them expires, and each is assessed as the first run assessed
/// it.
pub proof fn lemma_second_run_agrees(records: Seq<RecordView>, now: int, c: PolicyConfig)
    ensures
        survivors(records, now, c).len() <= records.len(),
        survivors(survivors(records, now, c), now, c) == survivors(records, now, c),
        forall|i: int|
            0 <= i < survivors(records, now, c).len() ==> #[trigger] assessment_of(
                survivors(records, now, c)[i].deletion,
                now,
                c,
            ).decision != Decision::Expire,
{
    let f = |r: RecordView| assessment_of(r.deletion, now, c).decision != Decision::Expire;
    let s = records.filter(f);
    broadcast use vstd::seq_lib::group_filter_ensures;
    records.lemma_filter_len(f);
    lemma_filter_all(s, f);
}

/// Filtering a sequence whose every element passes leaves it as it is.
proof fn lemma_filter_all(s: Seq<RecordView>, f: spec_fn(RecordView) -> bool)
    requires
        forall|i: int| 0 <= i < s.len() ==> f(#[trigger] s[i]),
    ensures
        s.filter(f) == s,
    decreases s.len(),
{
    reveal(Seq::filter);
    if s.len() > 0 {
        lemma_filter_all(s.drop_last(), f);
        assert(s.drop_last().push(s.last()) =~= s);
    } else {
        assert(s.filter(f) =~= s);
    }
}

/// Why expiring a record failed.
#[derive(Debug, Clone, Copy, PartialEq, Eq, Structural)]
pub enum DeleteError {
    /// The payload could not be removed; the descriptor was left as it was.
    PayloadRemovalFailed,
    /// The payload is gone but the descriptor could not be removed.
    DescriptorRemovalFailed,
}

/// Where the removal of one expired record stands: the next removal to make,
/// or the end.
#[derive(Debug, Clone, Copy, PartialEq, Eq, Structural)]
pub enum DeletionStep {
    /// Remove the payload directory and all it holds.
    RemovePayloadTree,
    /// Remove the payload file.
    RemovePayloadFile,
    /// Remove the descriptor.
    RemoveDescriptor,
    /// Both are removed.
    Done,
    /// Stopped on an error.
    Failed(DeleteError),
}

/// The first removal: the payload, as a tree where it is a directory.
pub open spec fn first_step_of(payload_is_dir: bool) -> DeletionStep {
    if payload_is_dir {
        DeletionStep::RemovePayloadTree
    } else {
        DeletionStep::RemovePayloadFile
    }
}

/// The step after `step`, given whether its removal succeeded. The descriptor
/// is removed only after the payload is gone; the end stays the end.
pub open spec fn next_step_of(step: DeletionStep, succeeded: bool) -> DeletionStep {
    match step {
        DeletionStep::RemovePayloadTree | DeletionStep::RemovePayloadFile => if succeeded {
            DeletionStep::RemoveDescriptor
        } else {
            DeletionStep::Failed(DeleteError::PayloadRemovalFailed)
        },
        DeletionStep::RemoveDescriptor => if succeeded {
            DeletionStep::Done
        } else {
            DeletionStep::Failed(DeleteError::DescriptorRemovalFailed)
        },
        _ => step,
    }
}

/// The step reached from the start after removals with the given outcomes.
pub open spec fn step_after(payload_is_dir: bool, outcomes: Seq<bool>) -> DeletionStep
    decreases outcomes.len(),
{
    if outcomes.len() == 0 {
        first_step_of(payload_is_dir)
    } else {
        next_step_of(step_after(payload_is_dir, outcomes.drop_last()), outcomes.last())
    }
}

impl DeletionStep {
    /// The first step of expiring a record whose payload is, or is not, a directory.
    pub fn start(payload_is_dir: bool) -> (r: DeletionStep)
        ensures
            r == first_step_of(payload_is_dir),
    {
        if payload_is_dir {
            DeletionStep::RemovePayloadTree
        } else {
            DeletionStep::RemovePayloadFile
        }
    }

    /// The step after this one, whose removal did or did not succeed.
    pub fn next(self, succeeded: bool) -> (r: DeletionStep)
        ensures
            r == next_step_of(self, succeeded),
    {
        match self {
            DeletionStep::RemovePayloadTree | DeletionStep::RemovePayloadFile => if succeeded {
                DeletionStep::RemoveDescriptor
            } else {
                DeletionStep::Failed(DeleteError::PayloadRemovalFailed)
            },
            DeletionStep::RemoveDescriptor => if succeeded {
                DeletionStep::Done
            } else {
                DeletionStep::Failed(DeleteError::DescriptorRemovalFailed)
            },
            _ => self,
        }
    }

    /// Whether the removal is over.
    pub fn is_finished(&self) -> (r: bool)
        ensures
            r == (*self is Done || *self is Failed),
    {
        match self {
            DeletionStep::Done | DeletionStep::Failed(_) => true,
            _ => false,
        }
    }
}

/// Where the payload removal fails, the descriptor is never removed: every
/// later step is that failure, so the record can be read again on the next run.
pub proof fn lemma_descriptor_kept_on_payload_failure(payload_is_dir: bool, outcomes: Seq<bool>)
    requires
        outcomes.len() >= 1,
        !outcomes[0],
    ensures
        forall|k: int|
            1 <= k <= outcomes.len() ==> #[trigger] step_after(payload_is_dir, outcomes.take(k))
                == DeletionStep::Failed(DeleteError::PayloadRemovalFailed),
{
    assert forall|k: int| 1 <= k <= outcomes.len() implies #[trigger] step_after(
        payload_is_dir,
        outcomes.take(k),
    ) == DeletionStep::Failed(DeleteError::PayloadRemovalFailed) by {
        lemma_failure_persists(payload_is_dir, outcomes, k);
    }
}

proof fn lemma_failure_persists(payload_is_dir: bool, outcomes: Seq<bool>, k: int)
    requires
        1 <= k <= outcomes.len(),
        !outcomes[0],
    ensures
        step_after(payload_is_dir, outcomes.take(k)) == DeletionStep::Failed(
            DeleteError::PayloadRemovalFailed,
        ),
    decreases k,
{
    let t = outcomes.take(k);
    assert(t.drop_last() =~= outcomes.take(k - 1));
    if k == 1 {
        assert(outcomes.take(0) =~= Seq::<bool>::empty());
    } else {
        lemma_failure_persists(payload_is_dir, outcomes, k - 1);
    }
}

/// The descriptor is removed only once the payload removal has succeeded.
pub proof fn lemma_descriptor_after_payload(payload_is_dir: bool, outcomes: Seq<bool>)
    requires
        step_after(payload_is_dir, outcomes) == DeletionStep::RemoveDescriptor,
    ensures
        outcomes.len() == 1,
        outcomes[0],
    decreases outcomes.len(),
{
    if outcomes.len() >= 2 {
        let prev = step_after(payload_is_dir, outcomes.drop_last());
        assert(next_step_of(prev, outcomes.last()) == DeletionStep::RemoveDescriptor);
        assert(prev is RemovePayloadTree || prev is RemovePayloadFile);
        lemma_payload_step_only_first(payload_is_dir, outcomes.drop_last());
    }
}

proof fn lemma_payload_step_only_first(payload_is_dir: bool, outcomes: Seq<bool>)
    ensures
        step_after(payload_is_dir, outcomes) is RemovePayloadTree || step_after(
            payload_is_dir,
            outcomes,
        ) is RemovePayloadFile ==> outcomes.len() == 0,
    decreases outcomes.len(),
{
    if outcomes.len() > 0 {
        lemma_payload_step_only_first(payload_is_dir, outcomes.drop_last());
    }
}

/// What became of one directory entry.
#[derive(Debug, Clone, Copy, PartialEq, Eq, Structural)]
pub enum EntryOutcome {
    /// The listing could not name the entry; it was skipped.
    Unlisted,
    /// Not a descriptor; skipped.
    Skipped,
    /// The descriptor could not be read.
    Unreadable,
    /// The descriptor could not be parsed.
    ParseFailed(ParseError),
    /// Left as it is, silently.
    Fresh,
    /// Reported as due for expiry.
    Warned,
    /// Expired: payload and descriptor removed.
    Erased,
    /// Expiry failed.
    DeleteFailed(DeleteError),
}

/// Whether an outcome is an error of the run.
pub open spec fn is_error(o: EntryOutcome) -> bool {
    o is Unreadable || o is ParseFailed || o is DeleteFailed
}

/// The tally of one run.
#[derive(Debug, Clone, Copy, PartialEq, Eq, Structural)]
pub struct RunReport {
    pub erased: u64,
    pub warned: u64,
    pub fresh: u64,
    pub skipped: u64,
    pub errors: u64,
}

/// One more, short of the largest count.
pub open spec fn bumped(n: u64) -> u64 {
    if n < u64::MAX {
        (n + 1) as u64
    } else {
        n
    }
}

/// The tally after one more outcome.
pub open spec fn tallied(r: RunReport, o: EntryOutcome) -> RunReport {
    match o {
        EntryOutcome::Erased => RunReport { erased: bumped(r.erased), ..r },
        EntryOutcome::Warned => RunReport { warned: bumped(r.warned), ..r },
        EntryOutcome::Fresh => RunReport { fresh: bumped(r.fresh), ..r },
        EntryOutcome::Unlisted | EntryOutcome::Skipped => RunReport { skipped: bumped(r.skipped), ..r },
        _ => RunReport { errors: bumped(r.errors), ..r },
    }
}

fn bump(n: u64) -> (r: u64)
    ensures
        r == bumped(n),
{
    if n < u64::MAX {
        n + 1
    } else {
        n
    }
}

impl RunReport {
    /// The tally of a run that has seen nothing yet.
    pub fn new() -> (r: RunReport)
        ensures
            r == (RunReport { erased: 0, warned: 0, fresh: 0, skipped: 0, errors: 0 }),
    {
        RunReport { erased: 0, warned: 0, fresh: 0, skipped: 0, errors: 0 }
    }

    /// Counts one more outcome.
    pub fn note(&mut self, outcome: EntryOutcome)
        ensures
            *final(self) == tallied(*old(self), outcome),
    {
        match outcome {
            EntryOutcome::Erased => self.erased = bump(self.erased),
            EntryOutcome::Warned => self.warned = bump(self.warned),
            EntryOutcome::Fresh => self.fresh = bump(self.fresh),
            EntryOutcome::Unlisted | EntryOutcome::Skipped => self.skipped = bump(self.skipped),
            _ => self.errors = bump(self.errors),
        }
    }

    /// The process's exit status: 0 where no entry failed, 1 otherwise.
    pub fn exit_status(&self) -> (r: i32)
        ensures
            r == (if self.errors == 0 {
                0i32
            } else {
                1i32
            }),
    {
        if self.errors == 0 {
            0
        } else {
            1
        }
    }
}

/// An error in any entry makes the run's exit status non-zero, whatever
/// follows it.
pub proof fn lemma_error_sticks(r: RunReport, o: EntryOutcome)
    requires
        is_error(o) || r.errors > 0,
    ensures
        tallied(r, o).errors > 0,
{
}

/// The outcome of an expiry that ended at `step`.
pub open spec fn expiry_outcome_of(step: DeletionStep) -> EntryOutcome {
    match step {
        DeletionStep::Failed(e) => EntryOutcome::DeleteFailed(e),
        _ => EntryOutcome::Erased,
    }
}

/// The outcome of assessing a record that was not expired, or of an expiry
/// that ended at `step`.
pub fn outcome_of(decision: Decision, step: DeletionStep) -> (r: EntryOutcome)
    requires
        decision is Expire ==> (step is Done || step is Failed),
    ensures
        r == match decision {
            Decision::Expire => expiry_outcome_of(step),
            Decision::Warn { .. } => EntryOutcome::Warned,
            Decision::Fresh => EntryOutcome::Fresh,
        },
{
    match decision {
        Decision::Expire => match step {
            DeletionStep::Failed(e) => EntryOutcome::DeleteFailed(e),
            _ => EntryOutcome::Erased,
        },
        Decision::Warn { .. } => EntryOutcome::Warned,
        Decision::Fresh => EntryOutcome::Fresh,
    }
}

} // verus!

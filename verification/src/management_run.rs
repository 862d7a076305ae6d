//! Running a management operation: the steps each row takes and their order, what came of it,
//! and the words a receipt, a log line and a summary say it in.

use vstd::prelude::*;

use crate::elapsed::Elapsed;
use crate::management::{
    operation_name, refusal_reason, Eligibility, Kind, Operation, Plan, Refusal, Target,
    TargetView,
};
use crate::text::{decimal, join, joined, to_decimal};

verus! {

broadcast use {vstd::string::group_string_axioms, vstd::seq_lib::group_seq_properties};

/// Which of the fast-forward-only auto-update's own rules found a Repo not eligible for `sync`
/// right now.
#[derive(Debug, Clone, Copy, PartialEq, Eq, Structural)]
pub enum SyncIneligibility {
    NotClean,
    NoUpstream,
    NotBehind,
    NotFastForward,
}

/// The reason a Repo could not be synced.
pub open spec fn ineligibility_reason(reason: SyncIneligibility) -> Seq<char> {
    match reason {
        SyncIneligibility::NotClean => "the working tree or index carries a change of its own"@,
        SyncIneligibility::NoUpstream => "no branch, no remote, or no upstream configured"@,
        SyncIneligibility::NotBehind => "already level with its upstream"@,
        SyncIneligibility::NotFastForward =>
            "the local branch has a commit its upstream does not"@,
    }
}

impl SyncIneligibility {
    /// The reason the receipt and the log line give.
    pub fn reason(self) -> (reason: &'static str)
        ensures
            reason@ == ineligibility_reason(self),
    {
        match self {
            SyncIneligibility::NotClean => "the working tree or index carries a change of its own",
            SyncIneligibility::NoUpstream => "no branch, no remote, or no upstream configured",
            SyncIneligibility::NotBehind => "already level with its upstream",
            SyncIneligibility::NotFastForward =>
                "the local branch has a commit its upstream does not",
        }
    }
}

/// What an attempt to fast-forward a Repo answers.
#[derive(Debug, Clone, PartialEq, Eq)]
pub enum AutoUpdateAttempt {
    Updated,
    NotClean,
    NoUpstream,
    NotBehind,
    NotFastForward,
    Failed(String),
}

/// What running the operation did to one row.
#[derive(Debug, Clone, PartialEq, Eq)]
pub enum Outcome {
    /// An entry now excludes this path.
    Ignored,
    /// The exclusion is gone, and the entry with it if nothing else was left.
    Unignored,
    /// `unignore` found no entry naming this entity's own path: its exclusion is inherited from
    /// an entry that covers others too, so nothing is written.
    ExcludedByAnInheritedEntry,
    /// A Repo's working tree is gone, along with every linked Worktree's own directory.
    Deleted { config_entry_removed: bool },
    /// A Worktree's directory is gone, and its administrative entry with it.
    WorktreeRemoved { config_entry_removed: bool },
    /// A Worktree's directory is gone; its Repo could not be opened, so no administrative entry
    /// was cleaned up.
    DirectoryRemoved { config_entry_removed: bool },
    /// `sync` fast-forwarded the Repo's branch to its upstream.
    Synced,
    /// `sync` attempted the Repo and found it not eligible right now.
    NotEligibleToSync(SyncIneligibility),
    /// The prompt already named this one and counted it.
    Refused(Refusal),
    /// The operation was attempted and did not finish.
    Failed(String),
}

/// An [`Outcome`] as plain values.
pub enum OutcomeView {
    Ignored,
    Unignored,
    ExcludedByAnInheritedEntry,
    Deleted { config_entry_removed: bool },
    WorktreeRemoved { config_entry_removed: bool },
    DirectoryRemoved { config_entry_removed: bool },
    Synced,
    NotEligibleToSync(SyncIneligibility),
    Refused(Refusal),
    Failed(Seq<char>),
}

impl View for Outcome {
    type V = OutcomeView;

    open spec fn view(&self) -> OutcomeView {
        match *self {
            Outcome::Ignored => OutcomeView::Ignored,
            Outcome::Unignored => OutcomeView::Unignored,
            Outcome::ExcludedByAnInheritedEntry => OutcomeView::ExcludedByAnInheritedEntry,
            Outcome::Deleted { config_entry_removed } => OutcomeView::Deleted {
                config_entry_removed,
            },
            Outcome::WorktreeRemoved { config_entry_removed } => OutcomeView::WorktreeRemoved {
                config_entry_removed,
            },
            Outcome::DirectoryRemoved { config_entry_removed } => OutcomeView::DirectoryRemoved {
                config_entry_removed,
            },
            Outcome::Synced => OutcomeView::Synced,
            Outcome::NotEligibleToSync(reason) => OutcomeView::NotEligibleToSync(reason),
            Outcome::Refused(refusal) => OutcomeView::Refused(refusal),
            Outcome::Failed(error) => OutcomeView::Failed(error@),
        }
    }
}

/// Which grade of work was done on a row, and the words for it.
#[derive(Debug, Clone, PartialEq, Eq)]
pub enum OwnWork {
    Did(String),
    Refused(String),
    CouldNotAct(String),
}

/// An [`OwnWork`] as plain text.
pub enum OwnWorkView {
    Did(Seq<char>),
    Refused(Seq<char>),
    CouldNotAct(Seq<char>),
}

impl View for OwnWork {
    type V = OwnWorkView;

    open spec fn view(&self) -> OwnWorkView {
        match *self {
            OwnWork::Did(words) => OwnWorkView::Did(words@),
            OwnWork::Refused(words) => OwnWorkView::Refused(words@),
            OwnWork::CouldNotAct(words) => OwnWorkView::CouldNotAct(words@),
        }
    }
}

impl OwnWorkView {
    /// The words, whatever the grade.
    pub open spec fn said(self) -> Seq<char> {
        match self {
            OwnWorkView::Did(words) => words,
            OwnWorkView::Refused(words) => words,
            OwnWorkView::CouldNotAct(words) => words,
        }
    }
}

impl OwnWork {
    /// The words, whatever the grade.
    pub fn said(&self) -> (words: &str)
        ensures
            words@ == self@.said(),
    {
        match self {
            OwnWork::Did(words) => words.as_str(),
            OwnWork::Refused(words) => words.as_str(),
            OwnWork::CouldNotAct(words) => words.as_str(),
        }
    }
}

/// The grade an outcome earns and its words. A refusal and an unchanged row are refused rather
/// than failed: nothing went wrong.
pub open spec fn work_of(outcome: OutcomeView) -> OwnWorkView {
    match outcome {
        OutcomeView::Ignored => OwnWorkView::Did("ignored"@),
        OutcomeView::Unignored => OwnWorkView::Did("no longer ignored"@),
        OutcomeView::Deleted { config_entry_removed } => OwnWorkView::Did(
            if config_entry_removed {
                "working tree removed, `[[repo]]` entry removed"@
            } else {
                "working tree removed, no `[[repo]]` entry of its own"@
            },
        ),
        OutcomeView::WorktreeRemoved { config_entry_removed } => OwnWorkView::Did(
            if config_entry_removed {
                "worktree removed, `[[repo]]` entry removed"@
            } else {
                "worktree removed, no `[[repo]]` entry of its own"@
            },
        ),
        OutcomeView::DirectoryRemoved { config_entry_removed } => OwnWorkView::Did(
            if config_entry_removed {
                "directory removed, its parent Repo was unreadable, `[[repo]]` entry removed"@
            } else {
                "directory removed, its parent Repo was unreadable, no `[[repo]]` entry of its own"@
            },
        ),
        OutcomeView::Synced => OwnWorkView::Did("fast-forwarded to its upstream"@),
        OutcomeView::ExcludedByAnInheritedEntry => OwnWorkView::Refused(
            "still ignored: the `[[repo]]` entry excluding it names another path"@,
        ),
        OutcomeView::NotEligibleToSync(reason) => OwnWorkView::Refused(
            "not eligible to sync, "@ + ineligibility_reason(reason),
        ),
        OutcomeView::Refused(refusal) => OwnWorkView::Refused(
            "refused, "@ + refusal_reason(refusal),
        ),
        OutcomeView::Failed(error) => OwnWorkView::CouldNotAct("failed, "@ + error),
    }
}

/// One outcome as the receipt records it: which grade of work was done, and the words for it.
pub fn own_work(outcome: &Outcome) -> (work: OwnWork)
    ensures
        work@ == work_of(outcome@),
{
    match outcome {
        Outcome::Ignored => OwnWork::Did("ignored".to_owned()),
        Outcome::Unignored => OwnWork::Did("no longer ignored".to_owned()),
        Outcome::Deleted { config_entry_removed } => OwnWork::Did(
            if *config_entry_removed {
                "working tree removed, `[[repo]]` entry removed".to_owned()
            } else {
                "working tree removed, no `[[repo]]` entry of its own".to_owned()
            },
        ),
        Outcome::WorktreeRemoved { config_entry_removed } => OwnWork::Did(
            if *config_entry_removed {
                "worktree removed, `[[repo]]` entry removed".to_owned()
            } else {
                "worktree removed, no `[[repo]]` entry of its own".to_owned()
            },
        ),
        Outcome::DirectoryRemoved { config_entry_removed } => OwnWork::Did(
            if *config_entry_removed {
                "directory removed, its parent Repo was unreadable, `[[repo]]` entry removed".to_owned()
            } else {
                "directory removed, its parent Repo was unreadable, no `[[repo]]` entry of its own".to_owned()
            },
        ),
        Outcome::Synced => OwnWork::Did("fast-forwarded to its upstream".to_owned()),
        Outcome::ExcludedByAnInheritedEntry => OwnWork::Refused(
            "still ignored: the `[[repo]]` entry excluding it names another path".to_owned(),
        ),
        Outcome::NotEligibleToSync(reason) => OwnWork::Refused(
            "not eligible to sync, ".to_owned().concat(reason.reason()),
        ),
        Outcome::Refused(refusal) => OwnWork::Refused(
            "refused, ".to_owned().concat(refusal.reason()),
        ),
        Outcome::Failed(error) => OwnWork::CouldNotAct(
            "failed, ".to_owned().concat(error.as_str()),
        ),
    }
}

/// One outcome as a sentence, for the log line each row gets after a run: the receipt's own
/// words.
pub fn describe(outcome: &Outcome) -> (words: String)
    ensures
        words@ == work_of(outcome@).said(),
{
    own_work(outcome).said().to_owned()
}

/// One row: which entity, its name, what happened to it, and how long that took.
#[derive(Debug, Clone, PartialEq, Eq)]
pub struct Record {
    pub key: String,
    pub name: String,
    pub outcome: Outcome,
    pub elapsed: Elapsed,
}

/// What a whole run did, per row.
#[derive(Debug, Clone, PartialEq, Eq)]
pub struct Report {
    pub operation: Operation,
    pub records: Vec<Record>,
}

/// The outcomes of some records.
pub open spec fn outcomes_of(records: Seq<Record>) -> Seq<OutcomeView> {
    records.map_values(|record: Record| record.outcome@)
}

/// What a summary counts an outcome under.
#[derive(Debug, Clone, Copy, PartialEq, Eq, Structural)]
pub enum Tally {
    Done,
    Refused,
    Unchanged,
    NotEligible,
    Failed,
}

/// What an outcome counts under.
pub open spec fn tally_of(outcome: OutcomeView) -> Tally {
    match outcome {
        OutcomeView::Ignored => Tally::Done,
        OutcomeView::Unignored => Tally::Done,
        OutcomeView::Synced => Tally::Done,
        OutcomeView::Deleted { .. } => Tally::Done,
        OutcomeView::WorktreeRemoved { .. } => Tally::Done,
        OutcomeView::DirectoryRemoved { .. } => Tally::Done,
        OutcomeView::ExcludedByAnInheritedEntry => Tally::Unchanged,
        OutcomeView::NotEligibleToSync(_) => Tally::NotEligible,
        OutcomeView::Refused(_) => Tally::Refused,
        OutcomeView::Failed(_) => Tally::Failed,
    }
}

fn tally(outcome: &Outcome) -> (tally: Tally)
    ensures
        tally == tally_of(outcome@),
{
    match outcome {
        Outcome::Ignored => Tally::Done,
        Outcome::Unignored => Tally::Done,
        Outcome::Synced => Tally::Done,
        Outcome::Deleted { .. } => Tally::Done,
        Outcome::WorktreeRemoved { .. } => Tally::Done,
        Outcome::DirectoryRemoved { .. } => Tally::Done,
        Outcome::ExcludedByAnInheritedEntry => Tally::Unchanged,
        Outcome::NotEligibleToSync(_) => Tally::NotEligible,
        Outcome::Refused(_) => Tally::Refused,
        Outcome::Failed(_) => Tally::Failed,
    }
}

/// How many of the outcomes count under `wanted`.
pub open spec fn count_of(outcomes: Seq<OutcomeView>, wanted: Tally) -> nat
    decreases outcomes.len(),
{
    if outcomes.len() == 0 {
        0
    } else if tally_of(outcomes.last()) == wanted {
        1 + count_of(outcomes.drop_last(), wanted)
    } else {
        count_of(outcomes.drop_last(), wanted)
    }
}

/// A count with its words, where there is anything to count.
pub open spec fn counted(count: nat, words: Seq<char>) -> Seq<Seq<char>> {
    if count > 0 {
        seq![decimal(count) + words]
    } else {
        Seq::empty()
    }
}

/// The parts of a summary: what was done always, and every other count where it is not zero.
pub open spec fn summary_parts(outcomes: Seq<OutcomeView>) -> Seq<Seq<char>> {
    seq![decimal(count_of(outcomes, Tally::Done)) + " done"@] + counted(
        count_of(outcomes, Tally::Refused),
        " refused"@,
    ) + counted(
        count_of(outcomes, Tally::Unchanged),
        " still ignored by another entry"@,
    ) + counted(count_of(outcomes, Tally::NotEligible), " not eligible to sync"@) + counted(
        count_of(outcomes, Tally::Failed),
        " failed"@,
    )
}

/// The one-line summary of a run.
pub open spec fn summary_text(operation: Operation, outcomes: Seq<OutcomeView>) -> Seq<char> {
    operation_name(operation) + ": "@ + joined(summary_parts(outcomes), ", "@)
}

fn push_counted(parts: &mut Vec<String>, count: usize, words: &str)
    ensures
        final(parts).deep_view() == old(parts).deep_view() + counted(count as nat, words@),
{
    let ghost before = parts.deep_view();
    if count > 0 {
        let part = to_decimal(count as u64).concat(words);
        parts.push(part);
        proof {
            assert(parts.deep_view() =~= before.push(part@));
            assert(before.push(part@) =~= before + seq![part@]);
        }
    } else {
        proof {
            assert(before + Seq::<Seq<char>>::empty() =~= before);
        }
    }
}

/// A record's receipt as plain values.
pub open spec fn receipt_of(record: Record) -> (Seq<char>, OwnWorkView, Elapsed) {
    (record.key@, work_of(record.outcome@), record.elapsed)
}

impl Report {
    /// The report of a run: every row of the plan in the plan's own order, with what came of it
    /// and how long that took.
    pub fn of(plan: &Plan, ran: Vec<(Outcome, Elapsed)>) -> (report: Self)
        requires
            ran@.len() == plan.targets@.len(),
        ensures
            report.operation == plan.operation,
            report.records@.len() == plan.targets@.len(),
            forall|i: int|
                0 <= i < report.records@.len() ==> ({
                    let record = #[trigger] report.records@[i];
                    &&& record.key@ == plan.targets@[i].key@
                    &&& record.name@ == plan.targets@[i].name@
                    &&& record.outcome == ran@[i].0
                    &&& record.elapsed == ran@[i].1
                }),
    {
        let ghost all = ran@;
        let mut ran = ran;
        let mut records: Vec<Record> = Vec::new();
        let mut i: usize = 0;
        while i < plan.targets.len()
            invariant
                i <= plan.targets@.len(),
                all.len() == plan.targets@.len(),
                ran@ == all.skip(i as int),
                records@.len() == i,
                forall|k: int|
                    0 <= k < i ==> ({
                        let record = #[trigger] records@[k];
                        &&& record.key@ == plan.targets@[k].key@
                        &&& record.name@ == plan.targets@[k].name@
                        &&& record.outcome == all[k].0
                        &&& record.elapsed == all[k].1
                    }),
            decreases plan.targets@.len() - i,
        {
            let target = &plan.targets[i];
            let (outcome, elapsed) = ran.remove(0);
            records.push(
                Record { key: target.key.clone(), name: target.name.clone(), outcome, elapsed },
            );
            i = i + 1;
        }
        Report { operation: plan.operation, records }
    }

    /// Every row as its receipt takes it: the entity, the grade of work with its words, and how
    /// long the act took.
    pub fn own_work_records(&self) -> (receipts: Vec<(String, OwnWork, Elapsed)>)
        ensures
            receipts@.len() == self.records@.len(),
            forall|i: int|
                0 <= i < receipts@.len() ==> ({
                    let receipt = #[trigger] receipts@[i];
                    (receipt.0@, receipt.1@, receipt.2) == receipt_of(self.records@[i])
                }),
            forall|i: int|
                0 <= i < receipts@.len() ==> ({
                    let receipt = #[trigger] receipts@[i];
                    &&& receipt.0@ == self.records@[i].key@
                    &&& receipt.1@ == work_of(self.records@[i].outcome@)
                    &&& receipt.2 == self.records@[i].elapsed
                }),
    {
        let mut receipts: Vec<(String, OwnWork, Elapsed)> = Vec::new();
        let mut i: usize = 0;
        while i < self.records.len()
            invariant
                i <= self.records.len(),
                receipts@.len() == i,
                forall|k: int|
                    0 <= k < i ==> ({
                        let receipt = #[trigger] receipts@[k];
                        (receipt.0@, receipt.1@, receipt.2) == receipt_of(self.records@[k])
                    }),
            decreases self.records.len() - i,
        {
            let record = &self.records[i];
            receipts.push((record.key.clone(), own_work(&record.outcome), record.elapsed));
            i = i + 1;
        }
        receipts
    }

    fn count(&self, wanted: Tally) -> (count: usize)
        ensures
            count == count_of(outcomes_of(self.records@), wanted),
    {
        let ghost all = outcomes_of(self.records@);
        let mut count: usize = 0;
        let mut i: usize = 0;
        while i < self.records.len()
            invariant
                i <= self.records.len(),
                count <= i,
                all == outcomes_of(self.records@),
                count == count_of(all.take(i as int), wanted),
            decreases self.records.len() - i,
        {
            proof {
                assert(all.take(i + 1).drop_last() =~= all.take(i as int));
                assert(all.take(i + 1).last() == self.records@[i as int].outcome@);
            }
            if tally(&self.records[i].outcome) == wanted {
                count = count + 1;
            }
            i = i + 1;
        }
        proof {
            assert(all.take(i as int) =~= all);
        }
        count
    }

    /// The one-line summary a Notice carries: the counts, never a silent success.
    pub fn summary(&self) -> (line: String)
        ensures
            line@ == summary_text(self.operation, outcomes_of(self.records@)),
    {
        let mut parts: Vec<String> = Vec::new();
        let done = to_decimal(self.count(Tally::Done) as u64).concat(" done");
        parts.push(done);
        proof {
            assert(parts.deep_view() =~= seq![done@]);
        }
        push_counted(&mut parts, self.count(Tally::Refused), " refused");
        push_counted(&mut parts, self.count(Tally::Unchanged), " still ignored by another entry");
        push_counted(&mut parts, self.count(Tally::NotEligible), " not eligible to sync");
        push_counted(&mut parts, self.count(Tally::Failed), " failed");
        self.operation.name().to_owned().concat(": ").concat(join(&parts, ", ").as_str())
    }
}

/// What `sync` on one row comes to: the attempt's own answer, reported rather than fixed. An
/// ineligible-right-now Repo is not a failure.
pub open spec fn synced(attempt: AutoUpdateAttempt) -> OutcomeView {
    match attempt {
        AutoUpdateAttempt::Updated => OutcomeView::Synced,
        AutoUpdateAttempt::NotClean => OutcomeView::NotEligibleToSync(
            SyncIneligibility::NotClean,
        ),
        AutoUpdateAttempt::NoUpstream => OutcomeView::NotEligibleToSync(
            SyncIneligibility::NoUpstream,
        ),
        AutoUpdateAttempt::NotBehind => OutcomeView::NotEligibleToSync(
            SyncIneligibility::NotBehind,
        ),
        AutoUpdateAttempt::NotFastForward => OutcomeView::NotEligibleToSync(
            SyncIneligibility::NotFastForward,
        ),
        AutoUpdateAttempt::Failed(error) => OutcomeView::Failed(error@),
    }
}

/// What `sync` on one row comes to.
pub fn sync_one(attempt: AutoUpdateAttempt) -> (outcome: Outcome)
    ensures
        outcome@ == synced(attempt),
{
    match attempt {
        AutoUpdateAttempt::Updated => Outcome::Synced,
        AutoUpdateAttempt::NotClean => Outcome::NotEligibleToSync(SyncIneligibility::NotClean),
        AutoUpdateAttempt::NoUpstream => Outcome::NotEligibleToSync(
            SyncIneligibility::NoUpstream,
        ),
        AutoUpdateAttempt::NotBehind => Outcome::NotEligibleToSync(SyncIneligibility::NotBehind),
        AutoUpdateAttempt::NotFastForward => Outcome::NotEligibleToSync(
            SyncIneligibility::NotFastForward,
        ),
        AutoUpdateAttempt::Failed(error) => Outcome::Failed(error),
    }
}

/// Why a directory is not removed, if it is not: its path is relative, or it holds no `.git` and
/// so is not what the row named.
pub open spec fn refuses_removal(path: Seq<char>, has_git: bool) -> Option<Seq<char>> {
    if !(path.len() > 0 && path[0] == '/') {
        Some("refusing to delete a relative path: "@ + path)
    } else if !has_git {
        Some(
            "refusing to delete "@ + path
                + ": no `.git` there, so it is not the Repo this row named"@,
        )
    } else {
        None
    }
}

/// Why the working tree at `path` may not be removed, or `None` where it may. `has_git` says
/// whether the directory holds a `.git`. Both guards can only refuse.
pub fn removal_refusal(path: &str, has_git: bool) -> (refusal: Option<String>)
    ensures
        match refuses_removal(path@, has_git) {
            Some(words) => refusal is Some && refusal->0@ == words,
            None => refusal is None,
        },
{
    let absolute = !path.is_empty() && path.get_char(0) == '/';
    if !absolute {
        Some("refusing to delete a relative path: ".to_owned().concat(path))
    } else if !has_git {
        Some(
            "refusing to delete ".to_owned().concat(path).concat(
                ": no `.git` there, so it is not the Repo this row named",
            ),
        )
    } else {
        None
    }
}

/// What is said of a directory that would not remove.
pub fn removal_failure(path: &str, error: &str) -> (words: String)
    ensures
        words@ == "could not remove "@ + path@ + ": "@ + error@,
{
    "could not remove ".to_owned().concat(path).concat(": ").concat(error)
}

/// What a `delete` has taken from a row so far.
#[derive(Debug, Clone, Copy, PartialEq, Eq, Structural)]
pub enum Removed {
    /// A Repo, its linked Worktrees with it.
    Repo,
    /// A Worktree and its administrative entry.
    Worktree,
    /// A Worktree's directory alone.
    Directory,
}

/// Where one row's run stands: what it waits for, or what came of it.
#[derive(Debug, Clone, PartialEq, Eq)]
pub enum Progress {
    /// Waiting for an entry excluding the row to be written.
    Excluding,
    /// Waiting for the row's exclusion to be taken out of its own entry.
    Unexcluding,
    /// Waiting for the fast-forward attempt's answer.
    Syncing,
    /// Waiting for the paths of a Repo's linked Worktrees.
    ListingLinked,
    /// Waiting for the first of these linked Worktrees to be removed, the others behind it.
    RemovingLinked(Vec<String>),
    /// Waiting for a Repo's own working tree to be removed.
    RemovingRepo,
    /// Waiting for a Worktree's administrative directory to be looked up.
    FindingAdminDir,
    /// Waiting for a Worktree's own working tree to be removed, its administrative directory
    /// known or not.
    RemovingWorktree(Option<String>),
    /// Waiting for a Worktree's administrative directory to be removed.
    RemovingAdminDir(String),
    /// Waiting for the row's own entry to be removed.
    RemovingEntry(Removed),
    /// Done.
    Finished(Outcome),
}

/// A [`Progress`] as plain values.
pub enum ProgressView {
    Excluding,
    Unexcluding,
    Syncing,
    ListingLinked,
    RemovingLinked(Seq<Seq<char>>),
    RemovingRepo,
    FindingAdminDir,
    RemovingWorktree(Option<Seq<char>>),
    RemovingAdminDir(Seq<char>),
    RemovingEntry(Removed),
    Finished(OutcomeView),
}

/// A path, where there is one, as plain text.
pub open spec fn path_view(path: Option<String>) -> Option<Seq<char>> {
    match path {
        Some(path) => Some(path@),
        None => None,
    }
}

impl View for Progress {
    type V = ProgressView;

    open spec fn view(&self) -> ProgressView {
        match *self {
            Progress::Excluding => ProgressView::Excluding,
            Progress::Unexcluding => ProgressView::Unexcluding,
            Progress::Syncing => ProgressView::Syncing,
            Progress::ListingLinked => ProgressView::ListingLinked,
            Progress::RemovingLinked(paths) => ProgressView::RemovingLinked(paths.deep_view()),
            Progress::RemovingRepo => ProgressView::RemovingRepo,
            Progress::FindingAdminDir => ProgressView::FindingAdminDir,
            Progress::RemovingWorktree(admin_dir) => ProgressView::RemovingWorktree(
                path_view(admin_dir),
            ),
            Progress::RemovingAdminDir(admin_dir) => ProgressView::RemovingAdminDir(admin_dir@),
            Progress::RemovingEntry(removed) => ProgressView::RemovingEntry(removed),
            Progress::Finished(outcome) => ProgressView::Finished(outcome@),
        }
    }
}

/// What the outside answers a row that waits.
#[derive(Debug, Clone, PartialEq, Eq)]
pub enum Event {
    /// The entry was written; whether that changed anything.
    Written(bool),
    /// The attempt's own answer.
    Attempted(AutoUpdateAttempt),
    /// The linked Worktrees' own paths.
    Linked(Vec<String>),
    /// The administrative directory, where the parent could be opened.
    AdminDir(Option<String>),
    /// What was to be removed is gone.
    Gone,
    /// What was asked for failed, with the words for it.
    Failed(String),
}

/// An [`Event`] as plain values.
pub enum EventView {
    Written(bool),
    Attempted(AutoUpdateAttempt),
    Linked(Seq<Seq<char>>),
    AdminDir(Option<Seq<char>>),
    Gone,
    Failed(Seq<char>),
}

impl View for Event {
    type V = EventView;

    open spec fn view(&self) -> EventView {
        match *self {
            Event::Written(changed) => EventView::Written(changed),
            Event::Attempted(attempt) => EventView::Attempted(attempt),
            Event::Linked(paths) => EventView::Linked(paths.deep_view()),
            Event::AdminDir(admin_dir) => EventView::AdminDir(path_view(admin_dir)),
            Event::Gone => EventView::Gone,
            Event::Failed(error) => EventView::Failed(error@),
        }
    }
}

/// Where a row's run starts: a refused row is finished before it begins.
pub open spec fn start_of(operation: Operation, target: TargetView) -> ProgressView {
    match target.eligibility {
        Eligibility::Refused(refusal) => ProgressView::Finished(OutcomeView::Refused(refusal)),
        Eligibility::Eligible => match operation {
            Operation::Ignore => ProgressView::Excluding,
            Operation::Unignore => ProgressView::Unexcluding,
            Operation::Delete => if target.kind == Kind::Worktree {
                ProgressView::FindingAdminDir
            } else {
                ProgressView::ListingLinked
            },
            Operation::Sync => ProgressView::Syncing,
        },
    }
}

/// Where a row's run starts. No plan holds a Submodule that a `delete` would act on.
pub fn start(operation: Operation, target: &Target) -> (progress: Progress)
    requires
        !(operation == Operation::Delete && target.kind == Kind::Submodule && target.eligibility
            == Eligibility::Eligible),
    ensures
        progress@ == start_of(operation, target@),
        is_sound(progress@),
{
    match target.eligibility {
        Eligibility::Refused(refusal) => Progress::Finished(Outcome::Refused(refusal)),
        Eligibility::Eligible => match operation {
            Operation::Ignore => Progress::Excluding,
            Operation::Unignore => Progress::Unexcluding,
            Operation::Delete => if target.kind == Kind::Worktree {
                Progress::FindingAdminDir
            } else {
                Progress::ListingLinked
            },
            Operation::Sync => Progress::Syncing,
        },
    }
}

/// What taking an exclusion out comes to: an entry that names another path is left alone.
pub open spec fn unexcluded(changed: bool) -> OutcomeView {
    if changed {
        OutcomeView::Unignored
    } else {
        OutcomeView::ExcludedByAnInheritedEntry
    }
}

/// What a removed entry completes.
pub open spec fn entry_removed(removed: Removed, changed: bool) -> OutcomeView {
    match removed {
        Removed::Repo => OutcomeView::Deleted { config_entry_removed: changed },
        Removed::Worktree => OutcomeView::WorktreeRemoved { config_entry_removed: changed },
        Removed::Directory => OutcomeView::DirectoryRemoved { config_entry_removed: changed },
    }
}

/// Where the removal of linked Worktrees stands: the next of them, or the Repo itself.
pub open spec fn linked_left(paths: Seq<Seq<char>>) -> ProgressView {
    if paths.len() == 0 {
        ProgressView::RemovingRepo
    } else {
        ProgressView::RemovingLinked(paths)
    }
}

/// Where a row's run goes when it is answered. A linked Worktree or an administrative directory
/// that will not remove is passed over; any other failure ends the row. An answer to a question
/// that was not asked changes nothing.
pub open spec fn advanced(progress: ProgressView, event: EventView) -> ProgressView {
    match (progress, event) {
        (ProgressView::Excluding, EventView::Written(_)) => ProgressView::Finished(
            OutcomeView::Ignored,
        ),
        (ProgressView::Excluding, EventView::Failed(error)) => ProgressView::Finished(
            OutcomeView::Failed(error),
        ),
        (ProgressView::Unexcluding, EventView::Written(changed)) => ProgressView::Finished(
            unexcluded(changed),
        ),
        (ProgressView::Unexcluding, EventView::Failed(error)) => ProgressView::Finished(
            OutcomeView::Failed(error),
        ),
        (ProgressView::Syncing, EventView::Attempted(attempt)) => ProgressView::Finished(
            synced(attempt),
        ),
        (ProgressView::ListingLinked, EventView::Linked(paths)) => linked_left(paths),
        (ProgressView::RemovingLinked(paths), EventView::Gone) => linked_left(
            paths.drop_first(),
        ),
        (ProgressView::RemovingLinked(paths), EventView::Failed(_)) => linked_left(
            paths.drop_first(),
        ),
        (ProgressView::RemovingRepo, EventView::Gone) => ProgressView::RemovingEntry(
            Removed::Repo,
        ),
        (ProgressView::RemovingRepo, EventView::Failed(error)) => ProgressView::Finished(
            OutcomeView::Failed(error),
        ),
        (ProgressView::FindingAdminDir, EventView::AdminDir(admin_dir)) =>
            ProgressView::RemovingWorktree(admin_dir),
        (ProgressView::RemovingWorktree(admin_dir), EventView::Gone) => match admin_dir {
            Some(admin_dir) => ProgressView::RemovingAdminDir(admin_dir),
            None => ProgressView::RemovingEntry(Removed::Directory),
        },
        (ProgressView::RemovingWorktree(_), EventView::Failed(error)) => ProgressView::Finished(
            OutcomeView::Failed(error),
        ),
        (ProgressView::RemovingAdminDir(_), EventView::Gone) => ProgressView::RemovingEntry(
            Removed::Worktree,
        ),
        (ProgressView::RemovingAdminDir(_), EventView::Failed(_)) => ProgressView::RemovingEntry(
            Removed::Worktree,
        ),
        (ProgressView::RemovingEntry(removed), EventView::Written(changed)) =>
            ProgressView::Finished(entry_removed(removed, changed)),
        (ProgressView::RemovingEntry(_), EventView::Failed(error)) => ProgressView::Finished(
            OutcomeView::Failed(error),
        ),
        _ => progress,
    }
}

fn next_linked(paths: Vec<String>) -> (progress: Progress)
    ensures
        progress@ == linked_left(paths.deep_view()),
{
    proof {
        assert(paths.deep_view().len() == paths@.len());
    }
    if paths.len() == 0 {
        Progress::RemovingRepo
    } else {
        Progress::RemovingLinked(paths)
    }
}

fn without_first(paths: Vec<String>) -> (progress: Progress)
    requires
        paths@.len() > 0,
    ensures
        progress@ == linked_left(paths.deep_view().drop_first()),
{
    let mut paths = paths;
    let ghost before = paths.deep_view();
    paths.remove(0);
    proof {
        assert(paths.deep_view() =~= before.drop_first());
    }
    next_linked(paths)
}

fn finish_removal(removed: Removed, changed: bool) -> (outcome: Outcome)
    ensures
        outcome@ == entry_removed(removed, changed),
{
    match removed {
        Removed::Repo => Outcome::Deleted { config_entry_removed: changed },
        Removed::Worktree => Outcome::WorktreeRemoved { config_entry_removed: changed },
        Removed::Directory => Outcome::DirectoryRemoved { config_entry_removed: changed },
    }
}

/// The row waits for the removal of a linked Worktree only while there is one.
pub open spec fn is_sound(progress: ProgressView) -> bool {
    progress matches ProgressView::RemovingLinked(paths) ==> paths.len() > 0
}

/// Where a row's run goes when it is answered.
pub fn advance(progress: Progress, event: Event) -> (next: Progress)
    requires
        is_sound(progress@),
    ensures
        next@ == advanced(progress@, event@),
        is_sound(next@),
{
    match (progress, event) {
        (Progress::Excluding, Event::Written(_)) => Progress::Finished(Outcome::Ignored),
        (Progress::Excluding, Event::Failed(error)) => Progress::Finished(Outcome::Failed(error)),
        (Progress::Unexcluding, Event::Written(changed)) => Progress::Finished(
            if changed {
                Outcome::Unignored
            } else {
                Outcome::ExcludedByAnInheritedEntry
            },
        ),
        (Progress::Unexcluding, Event::Failed(error)) => Progress::Finished(
            Outcome::Failed(error),
        ),
        (Progress::Syncing, Event::Attempted(attempt)) => Progress::Finished(sync_one(attempt)),
        (Progress::ListingLinked, Event::Linked(paths)) => next_linked(paths),
        (Progress::RemovingLinked(paths), Event::Gone) => {
            proof {
                assert(paths.deep_view().len() == paths@.len());
            }
            without_first(paths)
        },
        (Progress::RemovingLinked(paths), Event::Failed(_)) => {
            proof {
                assert(paths.deep_view().len() == paths@.len());
            }
            without_first(paths)
        },
        (Progress::RemovingRepo, Event::Gone) => Progress::RemovingEntry(Removed::Repo),
        (Progress::RemovingRepo, Event::Failed(error)) => Progress::Finished(
            Outcome::Failed(error),
        ),
        (Progress::FindingAdminDir, Event::AdminDir(admin_dir)) => Progress::RemovingWorktree(
            admin_dir,
        ),
        (Progress::RemovingWorktree(admin_dir), Event::Gone) => match admin_dir {
            Some(admin_dir) => Progress::RemovingAdminDir(admin_dir),
            None => Progress::RemovingEntry(Removed::Directory),
        },
        (Progress::RemovingWorktree(_), Event::Failed(error)) => Progress::Finished(
            Outcome::Failed(error),
        ),
        (Progress::RemovingAdminDir(_), Event::Gone) => Progress::RemovingEntry(
            Removed::Worktree,
        ),
        (Progress::RemovingAdminDir(_), Event::Failed(_)) => Progress::RemovingEntry(
            Removed::Worktree,
        ),
        (Progress::RemovingEntry(removed), Event::Written(changed)) => Progress::Finished(
            finish_removal(removed, changed),
        ),
        (Progress::RemovingEntry(_), Event::Failed(error)) => Progress::Finished(
            Outcome::Failed(error),
        ),
        (progress, _) => progress,
    }
}

/// An answer the row is waiting for.
pub open spec fn answers(progress: ProgressView, event: EventView) -> bool {
    match progress {
        ProgressView::Excluding => event is Written || event is Failed,
        ProgressView::Unexcluding => event is Written || event is Failed,
        ProgressView::Syncing => event is Attempted,
        ProgressView::ListingLinked => event is Linked,
        ProgressView::RemovingLinked(_) => event is Gone || event is Failed,
        ProgressView::RemovingRepo => event is Gone || event is Failed,
        ProgressView::FindingAdminDir => event is AdminDir,
        ProgressView::RemovingWorktree(_) => event is Gone || event is Failed,
        ProgressView::RemovingAdminDir(_) => event is Gone || event is Failed,
        ProgressView::RemovingEntry(_) => event is Written || event is Failed,
        ProgressView::Finished(_) => false,
    }
}

/// A row is a stage further than another, or at the same stage with fewer linked Worktrees left.
pub open spec fn stage(progress: ProgressView) -> (nat, nat) {
    match progress {
        ProgressView::FindingAdminDir => (5, 0),
        ProgressView::ListingLinked => (5, 0),
        ProgressView::RemovingWorktree(_) => (4, 0),
        ProgressView::RemovingLinked(paths) => (4, paths.len()),
        ProgressView::RemovingAdminDir(_) => (3, 0),
        ProgressView::RemovingRepo => (3, 0),
        ProgressView::RemovingEntry(_) => (2, 0),
        ProgressView::Excluding => (1, 0),
        ProgressView::Unexcluding => (1, 0),
        ProgressView::Syncing => (1, 0),
        ProgressView::Finished(_) => (0, 0),
    }
}

/// Where a row stands after every one of `events` in turn.
pub open spec fn ran(progress: ProgressView, events: Seq<EventView>) -> ProgressView
    decreases events.len(),
{
    if events.len() == 0 {
        progress
    } else {
        advanced(ran(progress, events.drop_last()), events.last())
    }
}

/// A refused row is never acted on: its run is over before it starts, and nothing that is
/// answered changes what came of it.
pub proof fn law_a_refused_row_is_never_acted_on(
    operation: Operation,
    target: TargetView,
    refusal: Refusal,
    events: Seq<EventView>,
)
    requires
        target.eligibility == Eligibility::Refused(refusal),
    ensures
        ran(start_of(operation, target), events) == ProgressView::Finished(
            OutcomeView::Refused(refusal),
        ),
    decreases events.len(),
{
    if events.len() > 0 {
        law_a_refused_row_is_never_acted_on(operation, target, refusal, events.drop_last());
    }
}

/// Every row comes to an end: each answer it waits for takes it a stage further, or leaves one
/// linked Worktree fewer to remove.
pub proof fn law_every_answer_takes_a_row_further(progress: ProgressView, event: EventView)
    requires
        is_sound(progress),
        answers(progress, event),
    ensures
        is_sound(advanced(progress, event)),
        ({
            let before = stage(progress);
            let after = stage(advanced(progress, event));
            after.0 < before.0 || after.0 == before.0 && after.1 < before.1
        }),
{
}

/// A Worktree's administrative directory goes only once its working tree is gone, never the other
/// way round: a failure part-way leaves no directory that its parent has already forgotten.
pub proof fn law_the_admin_dir_goes_after_the_working_tree(
    progress: ProgressView,
    event: EventView,
)
    requires
        advanced(progress, event) is RemovingAdminDir,
        progress !is RemovingAdminDir,
    ensures
        progress is RemovingWorktree,
        event is Gone,
{
}

/// A row's own entry goes only once its working tree is gone.
pub proof fn law_the_entry_goes_after_the_working_tree(progress: ProgressView, event: EventView)
    requires
        advanced(progress, event) is RemovingEntry,
        progress !is RemovingEntry,
    ensures
        progress is RemovingAdminDir || (progress is RemovingRepo || progress is RemovingWorktree)
            && event is Gone,
{
}

/// A working tree that will not go ends the row as a failure, its entry and its administrative
/// directory left as they were.
pub proof fn law_a_working_tree_that_stays_fails_the_row(progress: ProgressView, error: Seq<char>)
    requires
        progress is RemovingRepo || progress is RemovingWorktree,
    ensures
        advanced(progress, EventView::Failed(error)) == ProgressView::Finished(
            OutcomeView::Failed(error),
        ),
{
}

/// Deleting a Repo takes its linked Worktrees with it: each of them is asked to go in turn, and
/// whether it went or not, the Repo's own working tree is next.
pub proof fn law_a_deleted_repo_takes_its_linked_worktrees(
    paths: Seq<Seq<char>>,
    events: Seq<EventView>,
)
    requires
        events.len() <= paths.len(),
        forall|i: int|
            0 <= i < events.len() ==> (#[trigger] events[i] is Gone || events[i] is Failed),
    ensures
        ran(ProgressView::ListingLinked, seq![EventView::Linked(paths)] + events) == linked_left(
            paths.skip(events.len() as int),
        ),
    decreases events.len(),
{
    let all = seq![EventView::Linked(paths)] + events;
    if events.len() == 0 {
        assert(all.drop_last() =~= Seq::<EventView>::empty());
        assert(ran(ProgressView::ListingLinked, all.drop_last()) == ProgressView::ListingLinked);
        assert(paths.skip(0) =~= paths);
    } else {
        let earlier = events.drop_last();
        law_a_deleted_repo_takes_its_linked_worktrees(paths, earlier);
        assert(all.drop_last() =~= seq![EventView::Linked(paths)] + earlier);
        assert(all.last() == events.last());
        assert(paths.skip(earlier.len() as int).drop_first() =~= paths.skip(events.len() as int));
    }
}

/// The five counts of a summary cover every row once.
pub proof fn law_the_summary_counts_every_row_once(outcomes: Seq<OutcomeView>)
    ensures
        count_of(outcomes, Tally::Done) + count_of(outcomes, Tally::Refused) + count_of(
            outcomes,
            Tally::Unchanged,
        ) + count_of(outcomes, Tally::NotEligible) + count_of(outcomes, Tally::Failed)
            == outcomes.len(),
    decreases outcomes.len(),
{
    if outcomes.len() > 0 {
        law_the_summary_counts_every_row_once(outcomes.drop_last());
    }
}

/// A receipt's grade and the summary's count agree: what was done is counted as done, what failed
/// as failed, and everything else was refused.
pub proof fn law_a_receipt_grades_a_row_as_the_summary_counts_it(outcome: OutcomeView)
    ensures
        work_of(outcome) is Did <==> tally_of(outcome) == Tally::Done,
        work_of(outcome) is CouldNotAct <==> tally_of(outcome) == Tally::Failed,
{
}


/// Nothing that is answered changes what came of a row.
pub proof fn law_what_came_of_a_row_stands(outcome: OutcomeView, events: Seq<EventView>)
    ensures
        ran(ProgressView::Finished(outcome), events) == ProgressView::Finished(outcome),
    decreases events.len(),
{
    if events.len() > 0 {
        law_what_came_of_a_row_stands(outcome, events.drop_last());
    }
}

/// `ignore` and `unignore` write one entry each: the first comes to an ignored row whether the
/// entry was new or not, the second to a row no longer ignored only where there was something to
/// take out. An entry that could not be written is a failure, in the writer's own words.
pub proof fn law_an_exclusion_is_one_write(
    target: TargetView,
    changed: bool,
    error: Seq<char>,
)
    requires
        target.eligibility == Eligibility::Eligible,
    ensures
        advanced(start_of(Operation::Ignore, target), EventView::Written(changed))
            == ProgressView::Finished(OutcomeView::Ignored),
        advanced(start_of(Operation::Unignore, target), EventView::Written(true))
            == ProgressView::Finished(OutcomeView::Unignored),
        advanced(start_of(Operation::Unignore, target), EventView::Written(false))
            == ProgressView::Finished(OutcomeView::ExcludedByAnInheritedEntry),
        advanced(start_of(Operation::Ignore, target), EventView::Failed(error))
            == ProgressView::Finished(OutcomeView::Failed(error)),
        advanced(start_of(Operation::Unignore, target), EventView::Failed(error))
            == ProgressView::Finished(OutcomeView::Failed(error)),
{
}

/// A `sync` is one attempt, and comes to what the attempt answers: done where it fast-forwarded,
/// failed in its own words where it failed, and otherwise not eligible for the rule it names.
pub proof fn law_a_sync_comes_to_its_attempts_answer(
    target: TargetView,
    attempt: AutoUpdateAttempt,
)
    requires
        target.eligibility == Eligibility::Eligible,
    ensures
        advanced(start_of(Operation::Sync, target), EventView::Attempted(attempt)) matches
            ProgressView::Finished(outcome) && {
            &&& outcome is Synced <==> attempt is Updated
            &&& outcome == OutcomeView::NotEligibleToSync(SyncIneligibility::NotClean)
                <==> attempt is NotClean
            &&& outcome == OutcomeView::NotEligibleToSync(SyncIneligibility::NoUpstream)
                <==> attempt is NoUpstream
            &&& outcome == OutcomeView::NotEligibleToSync(SyncIneligibility::NotBehind)
                <==> attempt is NotBehind
            &&& outcome == OutcomeView::NotEligibleToSync(SyncIneligibility::NotFastForward)
                <==> attempt is NotFastForward
            &&& attempt matches AutoUpdateAttempt::Failed(error) ==> outcome
                == OutcomeView::Failed(error@)
        },
{
}

/// A `delete` of a Worktree looks up its administrative directory, takes the working tree, then
/// that directory where it is known, then the row's own entry. A working tree or an entry that
/// cannot be taken fails the row in the words given; an administrative directory that cannot be
/// does not.
pub proof fn law_a_worktree_is_deleted_step_by_step(
    target: TargetView,
    admin_dir: Seq<char>,
    last: EventView,
    changed: bool,
    error: Seq<char>,
)
    requires
        target.eligibility == Eligibility::Eligible,
        target.kind == Kind::Worktree,
        last is Gone || last is Failed,
    ensures
        ({
            let begun = start_of(Operation::Delete, target);
            let known = advanced(begun, EventView::AdminDir(Some(admin_dir)));
            let unknown = advanced(begun, EventView::AdminDir(None));
            let emptied = advanced(known, EventView::Gone);
            let forgotten = advanced(emptied, last);
            let alone = advanced(unknown, EventView::Gone);
            &&& known == ProgressView::RemovingWorktree(Some(admin_dir))
            &&& unknown == ProgressView::RemovingWorktree(None)
            &&& emptied == ProgressView::RemovingAdminDir(admin_dir)
            &&& forgotten == ProgressView::RemovingEntry(Removed::Worktree)
            &&& alone == ProgressView::RemovingEntry(Removed::Directory)
            &&& advanced(forgotten, EventView::Written(changed)) == ProgressView::Finished(
                OutcomeView::WorktreeRemoved { config_entry_removed: changed },
            )
            &&& advanced(alone, EventView::Written(changed)) == ProgressView::Finished(
                OutcomeView::DirectoryRemoved { config_entry_removed: changed },
            )
            &&& advanced(known, EventView::Failed(error)) == ProgressView::Finished(
                OutcomeView::Failed(error),
            )
            &&& advanced(unknown, EventView::Failed(error)) == ProgressView::Finished(
                OutcomeView::Failed(error),
            )
            &&& advanced(forgotten, EventView::Failed(error)) == ProgressView::Finished(
                OutcomeView::Failed(error),
            )
            &&& advanced(alone, EventView::Failed(error)) == ProgressView::Finished(
                OutcomeView::Failed(error),
            )
        }),
{
}

/// A `delete` of a Repo asks each linked Worktree it was told of to go, one after the other in the
/// order given and whether the one before went or not, then its own working tree, then its own
/// entry; only the last two can fail the row.
pub proof fn law_a_repo_is_deleted_step_by_step(
    target: TargetView,
    paths: Seq<Seq<char>>,
    events: Seq<EventView>,
    changed: bool,
    error: Seq<char>,
)
    requires
        target.eligibility == Eligibility::Eligible,
        target.kind == Kind::Repo,
        events.len() <= paths.len(),
        forall|i: int|
            0 <= i < events.len() ==> (#[trigger] events[i] is Gone || events[i] is Failed),
    ensures
        ({
            let begun = start_of(Operation::Delete, target);
            let now = ran(begun, seq![EventView::Linked(paths)] + events);
            &&& events.len() < paths.len() ==> now == ProgressView::RemovingLinked(
                paths.skip(events.len() as int),
            )
            &&& events.len() == paths.len() ==> {
                let emptied = advanced(now, EventView::Gone);
                &&& now == ProgressView::RemovingRepo
                &&& emptied == ProgressView::RemovingEntry(Removed::Repo)
                &&& advanced(now, EventView::Failed(error)) == ProgressView::Finished(
                    OutcomeView::Failed(error),
                )
                &&& advanced(emptied, EventView::Written(changed)) == ProgressView::Finished(
                    OutcomeView::Deleted { config_entry_removed: changed },
                )
                &&& advanced(emptied, EventView::Failed(error)) == ProgressView::Finished(
                    OutcomeView::Failed(error),
                )
            }
        }),
{
    law_a_deleted_repo_takes_its_linked_worktrees(paths, events);
}

/// The row came to the removal of a working tree.
pub open spec fn is_removed(progress: ProgressView) -> bool {
    ||| progress matches ProgressView::Finished(OutcomeView::Deleted { .. })
    ||| progress matches ProgressView::Finished(OutcomeView::WorktreeRemoved { .. })
    ||| progress matches ProgressView::Finished(OutcomeView::DirectoryRemoved { .. })
}

proof fn lemma_only_a_tree_that_went_is_past_removal(
    operation: Operation,
    target: TargetView,
    events: Seq<EventView>,
)
    ensures
        ({
            let now = ran(start_of(operation, target), events);
            now is RemovingEntry || now is RemovingAdminDir || is_removed(now)
        }) ==> exists|k: int|
            0 <= k < events.len() && #[trigger] events[k] is Gone && {
                let then = ran(start_of(operation, target), events.take(k));
                then is RemovingRepo || then is RemovingWorktree
            },
    decreases events.len(),
{
    if events.len() > 0 {
        let begun = start_of(operation, target);
        let earlier = events.drop_last();
        let then = ran(begun, earlier);
        let now = ran(begun, events);
        lemma_only_a_tree_that_went_is_past_removal(operation, target, earlier);
        if now is RemovingEntry || now is RemovingAdminDir || is_removed(now) {
            if then is RemovingEntry || then is RemovingAdminDir || is_removed(then) {
                let k = choose|k: int|
                    0 <= k < earlier.len() && #[trigger] earlier[k] is Gone && {
                        let then = ran(begun, earlier.take(k));
                        then is RemovingRepo || then is RemovingWorktree
                    };
                assert(events[k] == earlier[k]);
                assert(events.take(k) =~= earlier.take(k));
            } else {
                let k = events.len() - 1;
                assert(events[k] is Gone);
                assert(events.take(k) =~= earlier);
            }
        }
    }
}

/// A row is reported as removed only where its own working tree was asked to go and went.
pub proof fn law_only_a_tree_that_went_is_reported_removed(
    operation: Operation,
    target: TargetView,
    events: Seq<EventView>,
)
    requires
        ({
            let now = ran(start_of(operation, target), events);
            ||| now matches ProgressView::Finished(OutcomeView::Deleted { .. })
            ||| now matches ProgressView::Finished(OutcomeView::WorktreeRemoved { .. })
            ||| now matches ProgressView::Finished(OutcomeView::DirectoryRemoved { .. })
        }),
    ensures
        exists|k: int|
            0 <= k < events.len() && #[trigger] events[k] is Gone && {
                let then = ran(start_of(operation, target), events.take(k));
                then is RemovingRepo || then is RemovingWorktree
            },
{
    lemma_only_a_tree_that_went_is_past_removal(operation, target, events);
}

/// A directory may be removed exactly where its path is absolute and it holds a `.git`; a refusal
/// names the path.
pub proof fn law_only_a_git_tree_at_an_absolute_path_is_removed(path: Seq<char>, has_git: bool)
    ensures
        refuses_removal(path, has_git) is None <==> path.len() > 0 && path[0] == '/' && has_git,
        path.len() == 0 || path[0] != '/' ==> refuses_removal(path, has_git) == Some(
            "refusing to delete a relative path: "@ + path,
        ),
        path.len() > 0 && path[0] == '/' && !has_git ==> refuses_removal(path, has_git) == Some(
            "refusing to delete "@ + path
                + ": no `.git` there, so it is not the Repo this row named"@,
        ),
{
}

/// What is said of a removal ends in whether the row's own entry went too, alike for a Repo, a
/// Worktree and a directory alone, and starts with what went.
pub proof fn law_a_removal_says_whether_the_entry_went(config_entry_removed: bool)
    ensures
        ({
            let entry = if config_entry_removed {
                "`[[repo]]` entry removed"@
            } else {
                "no `[[repo]]` entry of its own"@
            };
            &&& work_of(OutcomeView::Deleted { config_entry_removed }) == OwnWorkView::Did(
                "working tree removed, "@ + entry,
            )
            &&& work_of(OutcomeView::WorktreeRemoved { config_entry_removed }) == OwnWorkView::Did(
                "worktree removed, "@ + entry,
            )
            &&& work_of(OutcomeView::DirectoryRemoved { config_entry_removed })
                == OwnWorkView::Did(
                "directory removed, its parent Repo was unreadable, "@ + entry,
            )
        }),
{
    reveal_strlit("`[[repo]]` entry removed");
    reveal_strlit("no `[[repo]]` entry of its own");
    reveal_strlit("working tree removed, ");
    reveal_strlit("worktree removed, ");
    reveal_strlit("directory removed, its parent Repo was unreadable, ");
    reveal_strlit("working tree removed, `[[repo]]` entry removed");
    reveal_strlit("working tree removed, no `[[repo]]` entry of its own");
    reveal_strlit("worktree removed, `[[repo]]` entry removed");
    reveal_strlit("worktree removed, no `[[repo]]` entry of its own");
    reveal_strlit("directory removed, its parent Repo was unreadable, `[[repo]]` entry removed");
    reveal_strlit(
        "directory removed, its parent Repo was unreadable, no `[[repo]]` entry of its own",
    );
    assert("working tree removed, `[[repo]]` entry removed"@ =~= "working tree removed, "@
        + "`[[repo]]` entry removed"@);
    assert("working tree removed, no `[[repo]]` entry of its own"@ =~= "working tree removed, "@
        + "no `[[repo]]` entry of its own"@);
    assert("worktree removed, `[[repo]]` entry removed"@ =~= "worktree removed, "@
        + "`[[repo]]` entry removed"@);
    assert("worktree removed, no `[[repo]]` entry of its own"@ =~= "worktree removed, "@
        + "no `[[repo]]` entry of its own"@);
    assert("directory removed, its parent Repo was unreadable, `[[repo]]` entry removed"@
        =~= "directory removed, its parent Repo was unreadable, "@ + "`[[repo]]` entry removed"@);
    assert("directory removed, its parent Repo was unreadable, no `[[repo]]` entry of its own"@
        =~= "directory removed, its parent Repo was unreadable, "@
        + "no `[[repo]]` entry of its own"@);
}

/// Whatever did not change a row is said with its reason: a refusal with its own, a Repo that
/// could not be synced with the rule it broke, and a failure with the words it failed in. Neither
/// of the first two is a failure.
pub proof fn law_what_did_not_happen_is_said_with_its_reason(
    refusal: Refusal,
    rule: SyncIneligibility,
    error: Seq<char>,
)
    ensures
        work_of(OutcomeView::Refused(refusal)) == OwnWorkView::Refused(
            "refused, "@ + refusal_reason(refusal),
        ),
        work_of(OutcomeView::NotEligibleToSync(rule)) == OwnWorkView::Refused(
            "not eligible to sync, "@ + ineligibility_reason(rule),
        ),
        work_of(OutcomeView::Failed(error)) == OwnWorkView::CouldNotAct("failed, "@ + error),
        work_of(OutcomeView::ExcludedByAnInheritedEntry) is Refused,
        work_of(OutcomeView::Ignored) == OwnWorkView::Did("ignored"@),
        work_of(OutcomeView::Unignored) == OwnWorkView::Did("no longer ignored"@),
        work_of(OutcomeView::Synced) == OwnWorkView::Did("fast-forwarded to its upstream"@),
{
}

proof fn lemma_count_is_a_count(outcomes: Seq<OutcomeView>, wanted: Tally)
    ensures
        count_of(outcomes, wanted) == outcomes.filter(
            |outcome: OutcomeView| tally_of(outcome) == wanted,
        ).len(),
    decreases outcomes.len(),
{
    reveal(Seq::filter);
    if outcomes.len() > 0 {
        lemma_count_is_a_count(outcomes.drop_last(), wanted);
    }
}

proof fn lemma_filters_agree(
    outcomes: Seq<OutcomeView>,
    a: spec_fn(OutcomeView) -> bool,
    b: spec_fn(OutcomeView) -> bool,
)
    requires
        forall|outcome: OutcomeView| #[trigger] a(outcome) == b(outcome),
    ensures
        outcomes.filter(a) == outcomes.filter(b),
    decreases outcomes.len(),
{
    reveal(Seq::filter);
    if outcomes.len() > 0 {
        lemma_filters_agree(outcomes.drop_last(), a, b);
    }
}

/// How many of the outcomes `wanted` holds of.
pub open spec fn how_many(
    outcomes: Seq<OutcomeView>,
    wanted: spec_fn(OutcomeView) -> bool,
) -> nat {
    outcomes.filter(wanted).len()
}

/// A count behind a comma, or nothing where there is nothing to count.
pub open spec fn counted_behind(count: nat, words: Seq<char>) -> Seq<char> {
    if count > 0 {
        ", "@ + decimal(count) + words
    } else {
        Seq::empty()
    }
}

proof fn lemma_joined_behind(parts: Seq<Seq<char>>, count: nat, words: Seq<char>)
    requires
        parts.len() > 0,
    ensures
        joined(parts + counted(count, words), ", "@) == joined(parts, ", "@) + counted_behind(
            count,
            words,
        ),
        (parts + counted(count, words)).len() > 0,
{
    if count > 0 {
        let all = parts + counted(count, words);
        assert(all.drop_last() =~= parts);
        assert(all.last() == decimal(count) + words);
        assert(joined(all, ", "@) =~= joined(parts, ", "@) + counted_behind(count, words));
    } else {
        assert(parts + counted(count, words) =~= parts);
        assert(joined(parts, ", "@) + Seq::<char>::empty() =~= joined(parts, ", "@));
    }
}

/// The summary of a run is the operation's own name and what came of its rows: how many were
/// done, always, and behind that how many were refused, are still ignored by another entry, were
/// not eligible to sync and failed, each where there is any.
pub proof fn law_the_summary_says_what_came_of_the_rows(
    operation: Operation,
    outcomes: Seq<OutcomeView>,
)
    ensures
        ({
            let done = how_many(
                outcomes,
                |outcome: OutcomeView|
                    outcome is Ignored || outcome is Unignored || outcome is Synced
                        || outcome is Deleted || outcome is WorktreeRemoved
                        || outcome is DirectoryRemoved,
            );
            let refused = how_many(outcomes, |outcome: OutcomeView| outcome is Refused);
            let unchanged = how_many(
                outcomes,
                |outcome: OutcomeView| outcome is ExcludedByAnInheritedEntry,
            );
            let ineligible = how_many(
                outcomes,
                |outcome: OutcomeView| outcome is NotEligibleToSync,
            );
            let failed = how_many(outcomes, |outcome: OutcomeView| outcome is Failed);
            summary_text(operation, outcomes) == operation_name(operation) + ": "@ + (decimal(done)
                + " done"@ + counted_behind(refused, " refused"@) + counted_behind(
                unchanged,
                " still ignored by another entry"@,
            ) + counted_behind(ineligible, " not eligible to sync"@) + counted_behind(
                failed,
                " failed"@,
            ))
        }),
{
    let is_done = |outcome: OutcomeView|
        outcome is Ignored || outcome is Unignored || outcome is Synced || outcome is Deleted
            || outcome is WorktreeRemoved || outcome is DirectoryRemoved;
    let is_refused = |outcome: OutcomeView| outcome is Refused;
    let is_unchanged = |outcome: OutcomeView| outcome is ExcludedByAnInheritedEntry;
    let is_ineligible = |outcome: OutcomeView| outcome is NotEligibleToSync;
    let is_failed = |outcome: OutcomeView| outcome is Failed;
    let under = |wanted: Tally| (|outcome: OutcomeView| tally_of(outcome) == wanted);
    lemma_count_is_a_count(outcomes, Tally::Done);
    lemma_count_is_a_count(outcomes, Tally::Refused);
    lemma_count_is_a_count(outcomes, Tally::Unchanged);
    lemma_count_is_a_count(outcomes, Tally::NotEligible);
    lemma_count_is_a_count(outcomes, Tally::Failed);
    lemma_filters_agree(outcomes, under(Tally::Done), is_done);
    lemma_filters_agree(outcomes, under(Tally::Refused), is_refused);
    lemma_filters_agree(outcomes, under(Tally::Unchanged), is_unchanged);
    lemma_filters_agree(outcomes, under(Tally::NotEligible), is_ineligible);
    lemma_filters_agree(outcomes, under(Tally::Failed), is_failed);
    let a = seq![decimal(count_of(outcomes, Tally::Done)) + " done"@];
    let b = a + counted(count_of(outcomes, Tally::Refused), " refused"@);
    let c = b + counted(count_of(outcomes, Tally::Unchanged), " still ignored by another entry"@);
    let d = c + counted(count_of(outcomes, Tally::NotEligible), " not eligible to sync"@);
    lemma_joined_behind(a, count_of(outcomes, Tally::Refused), " refused"@);
    lemma_joined_behind(
        b,
        count_of(outcomes, Tally::Unchanged),
        " still ignored by another entry"@,
    );
    lemma_joined_behind(c, count_of(outcomes, Tally::NotEligible), " not eligible to sync"@);
    lemma_joined_behind(d, count_of(outcomes, Tally::Failed), " failed"@);
}

/// The reason each ineligible Repo gives.
pub proof fn law_the_words_for_each_ineligibility()
    ensures
        ineligibility_reason(SyncIneligibility::NotClean)
            == "the working tree or index carries a change of its own"@,
        ineligibility_reason(SyncIneligibility::NoUpstream)
            == "no branch, no remote, or no upstream configured"@,
        ineligibility_reason(SyncIneligibility::NotBehind) == "already level with its upstream"@,
        ineligibility_reason(SyncIneligibility::NotFastForward)
            == "the local branch has a commit its upstream does not"@,
{
}

} // verus!

use repon::elapsed::Elapsed;
use repon::management::{
    DeleteRisk, Eligibility, EntityState, Kind, Operation, Plan, Refusal, NO_UNDO,
};
use repon::management_run::{
    advance, describe, own_work, removal_failure, removal_refusal, start, AutoUpdateAttempt,
    Event, Outcome, OwnWork, Progress, Record, Removed, Report, SyncIneligibility,
};

fn entity(path: &str, name: &str, kind: Kind) -> EntityState {
    EntityState {
        key: path.to_string(),
        name: name.to_string(),
        common_dir: path.to_string(),
        kind,
        excluded: false,
    }
}

fn excluded(mut entity: EntityState) -> EntityState {
    entity.excluded = true;
    entity
}

fn keys(entities: &[EntityState]) -> Vec<String> {
    entities.iter().map(|entity| entity.key.clone()).collect()
}

fn plan(operation: Operation, entities: &Vec<EntityState>) -> Plan {
    Plan::new(operation, entities, &keys(entities), true)
}

/// A Worktree sharing `parent`'s own common dir.
fn worktree_of(parent: &EntityState, path: &str, name: &str) -> EntityState {
    EntityState {
        key: path.to_string(),
        name: name.to_string(),
        common_dir: parent.common_dir.clone(),
        kind: Kind::Worktree,
        excluded: false,
    }
}

fn delete_plan_with(risk: DeleteRisk) -> Plan {
    let entities = vec![entity("/tmp/x/repo", "repo", Kind::Repo)];
    plan(Operation::Delete, &entities).with_risk(|_| Ok(risk))
}

/// What a run acts on: directories, each with a `.git` or without, and entries, each excluding
/// its path or not.
struct World {
    directories: Vec<(String, bool)>,
    entries: Vec<(String, bool)>,
    linked: Vec<String>,
    admin_dir: Option<String>,
    attempt: Option<AutoUpdateAttempt>,
    read_only: bool,
}

impl World {
    fn holding(paths: &[&str]) -> World {
        World {
            directories: paths.iter().map(|path| (path.to_string(), true)).collect(),
            entries: Vec::new(),
            linked: Vec::new(),
            admin_dir: None,
            attempt: None,
            read_only: false,
        }
    }

    fn holds(&self, path: &str) -> bool {
        self.directories.iter().any(|(held, _)| held == path)
    }

    fn remove(&mut self, path: &str) -> Event {
        let has_git = self.directories.iter().any(|(held, git)| held == path && *git);
        match removal_refusal(path, has_git) {
            Some(refusal) => Event::Failed(refusal),
            None => {
                self.directories.retain(|(held, _)| held != path);
                Event::Gone
            }
        }
    }

    fn answer(&mut self, progress: &Progress, path: &str) -> Event {
        match progress {
            Progress::Excluding | Progress::Unexcluding | Progress::RemovingEntry(_)
                if self.read_only =>
            {
                Event::Failed("read only".to_string())
            }
            Progress::Excluding => {
                self.entries.push((path.to_string(), true));
                Event::Written(true)
            }
            Progress::Unexcluding | Progress::RemovingEntry(_) => {
                let before = self.entries.len();
                self.entries.retain(|(held, _)| held != path);
                Event::Written(self.entries.len() < before)
            }
            Progress::Syncing => {
                Event::Attempted(self.attempt.clone().expect("no sync is exercised here"))
            }
            Progress::ListingLinked => Event::Linked(self.linked.clone()),
            Progress::RemovingLinked(paths) => {
                let next = paths[0].clone();
                self.remove(&next)
            }
            Progress::RemovingRepo | Progress::RemovingWorktree(_) => self.remove(path),
            Progress::FindingAdminDir => Event::AdminDir(self.admin_dir.clone()),
            Progress::RemovingAdminDir(admin_dir) => {
                let admin_dir = admin_dir.clone();
                self.directories.retain(|(held, _)| *held != admin_dir);
                Event::Gone
            }
            Progress::Finished(_) => panic!("a finished row asks nothing"),
        }
    }
}

fn run(plan: &Plan, world: &mut World) -> Report {
    let mut ran = Vec::new();
    for target in &plan.targets {
        let mut progress = start(plan.operation, target);
        let outcome = loop {
            if let Progress::Finished(outcome) = progress {
                break outcome;
            }
            let event = world.answer(&progress, &target.key);
            progress = advance(progress, event);
        };
        ran.push((outcome, Elapsed::from_secs(0)));
    }
    Report::of(plan, ran)
}

fn run_with_sync(plan: &Plan, attempt: AutoUpdateAttempt) -> Report {
    let mut world = World::holding(&[]);
    world.attempt = Some(attempt);
    run(plan, &mut world)
}

#[test]
fn delete_is_refused_on_a_submodule_and_it_is_named_and_counted() {
    let entities = vec![
        entity("/tmp/x/repo", "repo", Kind::Repo),
        entity("/tmp/x/sub", "sub", Kind::Submodule),
    ];

    let plan = plan(Operation::Delete, &entities);

    assert_eq!(plan.eligible_count(), 1, "only the Repo is eligible");
    assert_eq!(plan.refused_count(), 1, "and the refusal is counted");

    let lines = plan.confirm_lines();
    assert!(
        lines[0].contains('1') && lines[0].contains("1 refused"),
        "the headline must carry both counts, got {:?}",
        lines[0]
    );
    let line = lines
        .iter()
        .find(|line| line.starts_with("sub"))
        .unwrap_or_else(|| panic!("no line names sub in {lines:?}"));
    assert!(
        line.contains("refused") && line.contains(Refusal::SubmoduleCannotBeDeleted.reason()),
        "a refusal must name itself and say why, got {line:?}"
    );
}

#[test]
fn a_worktree_is_eligible_for_delete_when_its_parent_is_not_also_selected() {
    let repo = entity("/tmp/x/repo", "repo", Kind::Repo);
    let tree = worktree_of(&repo, "/tmp/x/tree", "tree");

    let entities = vec![tree];
    let plan = plan(Operation::Delete, &entities);

    assert_eq!(
        plan.eligible_count(),
        1,
        "the Worktree is eligible on its own"
    );
    assert_eq!(plan.targets.len(), 1);
    assert_eq!(plan.targets[0].eligibility, Eligibility::Eligible);
}

#[test]
fn a_worktree_selected_alongside_its_parent_repo_is_not_named_as_its_own_target() {
    let repo = entity("/tmp/x/repo", "repo", Kind::Repo);
    let tree = worktree_of(&repo, "/tmp/x/tree", "tree");
    let entities = vec![repo, tree];

    let plan = plan(Operation::Delete, &entities);

    assert_eq!(
        plan.targets.len(),
        1,
        "the Worktree covered by its selected parent must not be its own target"
    );
    assert_eq!(plan.targets[0].name, "repo");
    assert_eq!(plan.eligible_count(), 1);
}

#[test]
fn a_worktree_whose_parent_is_not_selected_keeps_its_own_target() {
    let repo = entity("/tmp/x/repo", "repo", Kind::Repo);
    let tree = worktree_of(&repo, "/tmp/x/tree", "tree");
    let entities = vec![tree.clone()];

    let plan = plan(Operation::Delete, &entities);

    assert_eq!(plan.targets.len(), 1);
    assert_eq!(plan.targets[0].name, "tree");
}

#[test]
fn a_repo_with_none_of_the_three_risks_is_listed_plainly() {
    let plan = delete_plan_with(DeleteRisk {
        uncommitted: false,
        unpushed_commits: 0,
        unpushed_branches: 0,
        linked_worktrees: 0,
    });

    let lines = plan.confirm_lines();

    assert_eq!(
        lines[1], "repo",
        "a Repo with nothing to lose is its name and nothing else, got {lines:?}"
    );
}

#[test]
fn each_risk_line_appears_only_when_its_own_fact_is_true() {
    let none = DeleteRisk {
        uncommitted: false,
        unpushed_commits: 0,
        unpushed_branches: 0,
        linked_worktrees: 0,
    };

    let uncommitted = delete_plan_with(DeleteRisk {
        uncommitted: true,
        ..none
    })
    .confirm_lines()[1]
        .clone();
    assert_eq!(uncommitted, "repo: uncommitted changes");

    let unpushed = delete_plan_with(DeleteRisk {
        unpushed_commits: 3,
        unpushed_branches: 2,
        ..none
    })
    .confirm_lines()[1]
        .clone();
    assert_eq!(unpushed, "repo: 3 commits unpushed on 2 branches");

    let worktrees = delete_plan_with(DeleteRisk {
        linked_worktrees: 1,
        ..none
    })
    .confirm_lines()[1]
        .clone();
    assert_eq!(worktrees, "repo: 1 linked worktree");

    let all_three = delete_plan_with(DeleteRisk {
        uncommitted: true,
        unpushed_commits: 1,
        unpushed_branches: 1,
        linked_worktrees: 2,
    })
    .confirm_lines()[1]
        .clone();
    assert_eq!(
        all_three,
        "repo: uncommitted changes, 1 commit unpushed on 1 branch, 2 linked worktrees"
    );
}

#[test]
fn a_worktrees_own_gate_line_never_names_a_linked_worktree_count() {
    let tree = entity("/tmp/x/tree", "tree", Kind::Worktree);
    let plan = plan(Operation::Delete, &vec![tree]).with_risk(|_| {
        Ok(DeleteRisk {
            uncommitted: true,
            unpushed_commits: 0,
            unpushed_branches: 0,
            linked_worktrees: 3,
        })
    });

    let line = plan.confirm_lines()[1].clone();

    assert_eq!(
        line, "tree: uncommitted changes",
        "a Worktree's own family size is not this row's own risk, got {line:?}"
    );
}

#[test]
fn a_risk_that_could_not_be_read_is_said_rather_than_reported_as_nothing() {
    let entities = vec![entity("/tmp/x/repo", "repo", Kind::Repo)];
    let plan =
        plan(Operation::Delete, &entities).with_risk(|_| Err("the refs would not list".into()));

    let line = plan.confirm_lines()[1].clone();

    assert!(
        line.contains("could not be read") && line.contains("the refs would not list"),
        "got {line:?}"
    );
}

#[test]
fn the_delete_gate_says_there_is_no_undo_and_ignore_and_unignore_add_no_lines_at_all() {
    let entities = vec![entity("/tmp/x/repo", "repo", Kind::Repo)];

    let deleting = plan(Operation::Delete, &entities).confirm_lines();
    assert_eq!(
        deleting.last().map(String::as_str),
        Some(NO_UNDO),
        "the prompt has to say it in as many words, got {deleting:?}"
    );

    let ignoring = plan(Operation::Ignore, &entities).confirm_lines();
    assert_eq!(
        ignoring,
        vec!["ignore on 1 repos?".to_string(), "repo".to_string()],
        "neither destroys anything, so neither gets an additional line"
    );
}

#[test]
fn ignore_and_unignore_are_eligible_on_opposite_halves_of_the_excluded_rows() {
    let plain = entity("/tmp/x/a", "a", Kind::Repo);
    let already = excluded(entity("/tmp/x/b", "b", Kind::Repo));

    assert_eq!(Operation::Ignore.eligibility(&plain, true), Eligibility::Eligible);
    assert_eq!(
        Operation::Ignore.eligibility(&already, true),
        Eligibility::Refused(Refusal::AlreadyIgnored)
    );
    assert_eq!(
        Operation::Unignore.eligibility(&plain, true),
        Eligibility::Refused(Refusal::NotIgnored)
    );
    assert_eq!(
        Operation::Unignore.eligibility(&already, true),
        Eligibility::Eligible
    );
}

#[test]
fn a_worktree_is_eligible_to_ignore_and_a_submodule_is_not() {
    let worktree = entity("/tmp/x/tree", "tree", Kind::Worktree);
    let submodule = entity("/tmp/x/sub", "sub", Kind::Submodule);

    assert_eq!(
        Operation::Ignore.eligibility(&worktree, true),
        Eligibility::Eligible
    );
    assert_eq!(
        Operation::Ignore.eligibility(&submodule, true),
        Eligibility::Refused(Refusal::SubmoduleHasNoEntryOfItsOwn)
    );
}

#[test]
fn sync_updated_becomes_synced() {
    let entities = vec![entity("/tmp/x/repo", "repo", Kind::Repo)];
    let mut built = plan(Operation::Sync, &entities);
    built.targets[0].eligibility = Eligibility::Eligible;

    let report = run_with_sync(&built, AutoUpdateAttempt::Updated);

    assert_eq!(report.records[0].outcome, Outcome::Synced);
    assert!(
        report.summary().contains("1 done"),
        "got {:?}",
        report.summary()
    );
}

#[test]
fn every_auto_update_ineligible_reason_reaches_the_report_as_a_reason() {
    let entities = vec![entity("/tmp/x/repo", "repo", Kind::Repo)];
    let cases = [
        (AutoUpdateAttempt::NotClean, SyncIneligibility::NotClean),
        (AutoUpdateAttempt::NoUpstream, SyncIneligibility::NoUpstream),
        (AutoUpdateAttempt::NotBehind, SyncIneligibility::NotBehind),
        (
            AutoUpdateAttempt::NotFastForward,
            SyncIneligibility::NotFastForward,
        ),
    ];

    for (attempt, expected) in cases {
        let mut built = plan(Operation::Sync, &entities);
        built.targets[0].eligibility = Eligibility::Eligible;

        let report = run_with_sync(&built, attempt.clone());

        assert_eq!(
            report.records[0].outcome,
            Outcome::NotEligibleToSync(expected),
            "attempt {attempt:?} must surface as a reason, never silently"
        );
        assert!(
            own_work(&report.records[0].outcome)
                .said()
                .contains(expected.reason()),
            "the receipt's own words must carry the reason"
        );
        assert!(
            report.summary().contains("1 not eligible to sync"),
            "got {:?}",
            report.summary()
        );
    }
}

#[test]
fn sync_failed_becomes_a_failure_never_an_ineligible_reason() {
    let entities = vec![entity("/tmp/x/repo", "repo", Kind::Repo)];
    let mut built = plan(Operation::Sync, &entities);
    built.targets[0].eligibility = Eligibility::Eligible;

    let report = run_with_sync(&built, AutoUpdateAttempt::Failed("git said no".to_string()));

    assert!(
        matches!(&report.records[0].outcome, Outcome::Failed(message) if message == "git said no")
    );
}

#[test]
fn sync_is_eligible_on_a_repo_exactly_when_fetch_is_available() {
    let repo = entity("/tmp/x/repo", "repo", Kind::Repo);
    assert_eq!(Operation::Sync.eligibility(&repo, true), Eligibility::Eligible);
    assert_eq!(
        Operation::Sync.eligibility(&repo, false),
        Eligibility::Refused(Refusal::FetchNotBuilt),
        "a build with no fetch mechanism must refuse with a reason, not run"
    );
}

#[test]
fn sync_is_refused_on_a_worktree_and_named_and_counted() {
    let worktree = entity("/tmp/x/tree", "tree", Kind::Worktree);
    assert_eq!(
        Operation::Sync.eligibility(&worktree, true),
        Eligibility::Refused(Refusal::WorktreeSyncsThroughItsRepo)
    );
    assert_eq!(
        Operation::Sync.eligibility(&worktree, false),
        Eligibility::Refused(Refusal::FetchNotBuilt)
    );

    let entities = vec![worktree];
    let plan = plan(Operation::Sync, &entities);
    assert_eq!(plan.eligible_count(), 0, "a Worktree is never eligible for sync");
    assert_eq!(plan.refused_count(), 1, "and the refusal is counted");
}

#[test]
fn sync_is_refused_on_a_submodule() {
    let submodule = entity("/tmp/x/sub", "sub", Kind::Submodule);
    assert_eq!(
        Operation::Sync.eligibility(&submodule, true),
        Eligibility::Refused(Refusal::SubmoduleCannotSync)
    );
    assert_eq!(
        Operation::Sync.eligibility(&submodule, false),
        Eligibility::Refused(Refusal::FetchNotBuilt)
    );
}

#[test]
fn running_delete_removes_the_repo_alone_and_leaves_the_refused_submodule_on_disk() {
    let mut world = World::holding(&["/x/repo", "/x/sub"]);
    let entities = vec![
        entity("/x/repo", "repo", Kind::Repo),
        entity("/x/sub", "sub", Kind::Submodule),
    ];

    let report = run(&plan(Operation::Delete, &entities), &mut world);

    assert!(!world.holds("/x/repo"), "the Repo's working tree is gone");
    assert!(world.holds("/x/sub"), "a Submodule is never removed");
    assert_eq!(
        report
            .records
            .iter()
            .map(|record| (record.name.to_string(), record.outcome.clone()))
            .collect::<Vec<_>>(),
        vec![
            (
                "repo".to_string(),
                Outcome::Deleted {
                    config_entry_removed: false
                }
            ),
            (
                "sub".to_string(),
                Outcome::Refused(Refusal::SubmoduleCannotBeDeleted)
            ),
        ],
        "every row is reported, the refusal included"
    );
    assert!(
        report.summary().contains("1 refused"),
        "the summary must count the refusal rather than announce a clean run, got {:?}",
        report.summary()
    );
}

#[test]
fn deleting_a_worktree_removes_its_admin_dir_and_its_own_directory() {
    let mut world = World::holding(&["/x/tree", "/x/admin"]);
    world.admin_dir = Some("/x/admin".to_string());
    let entities = vec![entity("/x/tree", "tree", Kind::Worktree)];

    let report = run(&plan(Operation::Delete, &entities), &mut world);

    assert!(!world.holds("/x/tree"), "the Worktree's own directory is gone");
    assert!(!world.holds("/x/admin"), "its administrative entry is gone too");
    assert_eq!(
        report.records[0].outcome,
        Outcome::WorktreeRemoved {
            config_entry_removed: false
        }
    );
}

#[test]
fn deleting_a_worktree_removes_the_working_tree_before_the_admin_dir() {
    let mut world = World::holding(&["/x/admin"]);
    world.directories.push(("/x/tree".to_string(), false));
    world.admin_dir = Some("/x/admin".to_string());
    let entities = vec![entity("/x/tree", "tree", Kind::Worktree)];

    let report = run(&plan(Operation::Delete, &entities), &mut world);

    assert!(
        matches!(report.records[0].outcome, Outcome::Failed(_)),
        "the working tree's own removal must fail first, got {:?}",
        report.records[0].outcome
    );
    assert!(
        world.holds("/x/admin"),
        "the admin dir must still be there: removing the working tree comes first"
    );
}

#[test]
fn deleting_a_worktree_whose_parent_is_unreachable_falls_back_to_a_directory_removal() {
    let mut world = World::holding(&["/x/tree"]);
    let entities = vec![entity("/x/tree", "tree", Kind::Worktree)];

    let report = run(&plan(Operation::Delete, &entities), &mut world);

    assert!(!world.holds("/x/tree"), "the Worktree's own directory is still gone");
    assert_eq!(
        report.records[0].outcome,
        Outcome::DirectoryRemoved {
            config_entry_removed: false
        }
    );
}

#[test]
fn deleting_a_repo_removes_every_linked_worktrees_own_directory_too() {
    let mut world = World::holding(&["/x/repo", "/x/sibling-one", "/x/sibling-two"]);
    world.linked = vec!["/x/sibling-one".to_string(), "/x/sibling-two".to_string()];
    let entities = vec![entity("/x/repo", "repo", Kind::Repo)];

    let report = run(&plan(Operation::Delete, &entities), &mut world);

    assert!(!world.holds("/x/repo"), "the Repo's own working tree is gone");
    assert!(!world.holds("/x/sibling-one"), "the first linked Worktree is gone");
    assert!(!world.holds("/x/sibling-two"), "the second linked Worktree is gone");
    assert_eq!(
        report.records[0].outcome,
        Outcome::Deleted {
            config_entry_removed: false
        }
    );
}

#[test]
fn a_linked_worktree_that_will_not_remove_does_not_keep_the_repo() {
    let mut world = World::holding(&["/x/repo", "/x/sibling-two"]);
    world.directories.push(("/x/sibling-one".to_string(), false));
    world.linked = vec!["/x/sibling-one".to_string(), "/x/sibling-two".to_string()];
    world.entries = vec![("/x/repo".to_string(), false)];
    let entities = vec![entity("/x/repo", "repo", Kind::Repo)];

    let report = run(&plan(Operation::Delete, &entities), &mut world);

    assert!(world.holds("/x/sibling-one"));
    assert!(!world.holds("/x/sibling-two"));
    assert!(!world.holds("/x/repo"));
    assert_eq!(report.records[0].outcome, Outcome::Deleted { config_entry_removed: true });
    assert!(world.entries.is_empty());
}

#[test]
fn running_ignore_then_unignore_returns_the_entries_as_they_were() {
    let mut world = World::holding(&["/x/repo"]);
    let plain = entity("/x/repo", "repo", Kind::Repo);

    let first = run(&plan(Operation::Ignore, &vec![plain.clone()]), &mut world);
    assert_eq!(first.records[0].outcome, Outcome::Ignored);
    assert_eq!(world.entries, vec![("/x/repo".to_string(), true)]);

    let second = run(&plan(Operation::Unignore, &vec![excluded(plain)]), &mut world);
    assert_eq!(second.records[0].outcome, Outcome::Unignored);
    assert!(world.entries.is_empty());
}

#[test]
fn unignore_on_a_row_excluded_by_an_inherited_entry_writes_nothing_and_says_so() {
    let mut world = World::holding(&["/x/tree"]);
    world.entries = vec![("/somewhere/else".to_string(), true)];
    let inheriting = excluded(entity("/x/tree", "tree", Kind::Worktree));

    let report = run(&plan(Operation::Unignore, &vec![inheriting]), &mut world);

    assert_eq!(
        report.records[0].outcome,
        Outcome::ExcludedByAnInheritedEntry
    );
    assert_eq!(
        world.entries,
        vec![("/somewhere/else".to_string(), true)],
        "the entry naming another path must be left alone"
    );
    assert!(
        report.summary().contains("still ignored by another entry"),
        "got {:?}",
        report.summary()
    );
}

#[test]
fn deleting_refuses_a_relative_path_and_a_directory_that_is_not_a_repository() {
    let relative = removal_refusal("relative/repo", true)
        .expect("a relative path must never be removed");
    assert!(relative.contains("relative"));
    assert_eq!(relative, "refusing to delete a relative path: relative/repo");

    let refused = removal_refusal("/x/plain-directory", false)
        .expect("a directory with no `.git` must never be removed");
    assert!(refused.contains(".git"));
    assert_eq!(
        refused,
        "refusing to delete /x/plain-directory: no `.git` there, so it is not the Repo this row named"
    );
    assert_eq!(removal_refusal("", true), Some("refusing to delete a relative path: ".to_string()));
    assert_eq!(removal_refusal("/x/repo", true), None);
    assert_eq!(removal_failure("/x/repo", "busy"), "could not remove /x/repo: busy");
}

#[test]
fn every_outcome_maps_to_a_grade_of_own_work_whose_words_the_spec_carries() {
    let cases = [
        (Outcome::Ignored, "Did", "ignored"),
        (Outcome::Unignored, "Did", "no longer ignored"),
        (
            Outcome::Deleted { config_entry_removed: true },
            "Did",
            "working tree removed, `[[repo]]` entry removed",
        ),
        (
            Outcome::Deleted { config_entry_removed: false },
            "Did",
            "working tree removed, no `[[repo]]` entry of its own",
        ),
        (
            Outcome::WorktreeRemoved { config_entry_removed: true },
            "Did",
            "worktree removed, `[[repo]]` entry removed",
        ),
        (
            Outcome::WorktreeRemoved { config_entry_removed: false },
            "Did",
            "worktree removed, no `[[repo]]` entry of its own",
        ),
        (
            Outcome::DirectoryRemoved { config_entry_removed: true },
            "Did",
            "directory removed, its parent Repo was unreadable, `[[repo]]` entry removed",
        ),
        (
            Outcome::DirectoryRemoved { config_entry_removed: false },
            "Did",
            "directory removed, its parent Repo was unreadable, no `[[repo]]` entry of its own",
        ),
        (Outcome::Synced, "Did", "fast-forwarded to its upstream"),
        (
            Outcome::ExcludedByAnInheritedEntry,
            "Refused",
            "still ignored: the `[[repo]]` entry excluding it names another path",
        ),
        (
            Outcome::NotEligibleToSync(SyncIneligibility::NotBehind),
            "Refused",
            "not eligible to sync, already level with its upstream",
        ),
        (
            Outcome::Refused(Refusal::AlreadyIgnored),
            "Refused",
            "refused, already ignored",
        ),
        (Outcome::Failed("boom".to_string()), "CouldNotAct", "failed, boom"),
    ];

    for (outcome, grade, words) in cases {
        let work = own_work(&outcome);
        let named = match &work {
            OwnWork::Did(_) => "Did",
            OwnWork::Refused(_) => "Refused",
            OwnWork::CouldNotAct(_) => "CouldNotAct",
        };
        assert_eq!(named, grade, "{outcome:?} took the wrong grade");
        assert_eq!(work.said(), words);
        assert_eq!(
            describe(&outcome),
            work.said().to_string(),
            "the log line and the receipt must read the same words for {outcome:?}"
        );
    }
}

#[test]
fn every_row_of_a_run_including_a_refusal_becomes_an_own_work_record_for_its_own_entity() {
    let mut world = World::holding(&["/x/repo", "/x/sub"]);
    let entities = vec![
        entity("/x/repo", "repo", Kind::Repo),
        entity("/x/sub", "sub", Kind::Submodule),
    ];

    let report = run(&plan(Operation::Ignore, &entities), &mut world);
    let records = report.own_work_records();

    assert_eq!(records.len(), 2, "every row is recorded, refusals included");
    assert_eq!(records[0].0, entities[0].key, "in the Selection's own order");
    assert_eq!(records[1].0, entities[1].key);
    assert!(matches!(records[0].1, OwnWork::Did(_)));
    assert!(
        matches!(&records[1].1, OwnWork::Refused(said) if said.contains("Submodule")),
        "the refused row carries its own reason, got {:?}",
        records[1].1
    );
}

#[test]
fn the_built_in_operations_are_found_by_their_names_alone() {
    let names: Vec<&str> = Operation::all().into_iter().map(Operation::name).collect();
    assert_eq!(names, vec!["ignore", "unignore", "delete", "sync"]);
    for operation in Operation::all() {
        assert_eq!(Operation::from_name(operation.name()), Some(operation));
        assert!(!operation.description().is_empty());
    }
    assert_eq!(Operation::from_name("Ignore"), None);
    assert_eq!(Operation::from_name(""), None);
}

#[test]
fn a_summary_counts_every_row_once_and_leaves_out_what_is_zero() {
    let outcomes = [
        Outcome::Ignored,
        Outcome::Synced,
        Outcome::Refused(Refusal::NotIgnored),
        Outcome::ExcludedByAnInheritedEntry,
        Outcome::NotEligibleToSync(SyncIneligibility::NotClean),
        Outcome::Failed("x".to_string()),
        Outcome::Failed("y".to_string()),
    ];
    let records: Vec<Record> = outcomes
        .into_iter()
        .map(|outcome| Record {
            key: "/x".to_string(),
            name: "x".to_string(),
            outcome,
            elapsed: Elapsed::from_secs(1),
        })
        .collect();
    let report = Report { operation: Operation::Unignore, records };
    assert_eq!(
        report.summary(),
        "unignore: 2 done, 1 refused, 1 still ignored by another entry, 1 not eligible to sync, \
         2 failed"
    );
    let nothing = Report { operation: Operation::Sync, records: Vec::new() };
    assert_eq!(nothing.summary(), "sync: 0 done");
}

#[test]
fn a_failure_to_write_an_entry_fails_the_row_in_its_own_words() {
    for operation in [Operation::Ignore, Operation::Unignore] {
        let mut row = entity("/x/repo", "repo", Kind::Repo);
        row.excluded = operation == Operation::Unignore;
        let mut world = World::holding(&["/x/repo"]);
        world.read_only = true;
        let report = run(&plan(operation, &vec![row]), &mut world);
        assert_eq!(report.records[0].outcome, Outcome::Failed("read only".to_string()));
    }
    let mut world = World::holding(&["/x/repo"]);
    world.read_only = true;
    let row = entity("/x/repo", "repo", Kind::Repo);
    let report = run(&plan(Operation::Delete, &vec![row]), &mut world);
    assert!(!world.holds("/x/repo"));
    assert_eq!(report.records[0].outcome, Outcome::Failed("read only".to_string()));
}

#[test]
fn an_answer_to_a_question_that_was_not_asked_changes_nothing() {
    assert_eq!(advance(Progress::Syncing, Event::Gone), Progress::Syncing);
    assert_eq!(
        advance(Progress::RemovingEntry(Removed::Repo), Event::Gone),
        Progress::RemovingEntry(Removed::Repo)
    );
    let over = Progress::Finished(Outcome::Ignored);
    assert_eq!(advance(over.clone(), Event::Written(true)), over);
}

#[test]
fn a_plan_keeps_the_selections_own_order_and_drops_what_is_gone() {
    let entities = vec![
        entity("/x/a", "a", Kind::Repo),
        entity("/x/b", "b", Kind::Repo),
    ];
    let selection =
        vec!["/x/b".to_string(), "/x/gone".to_string(), "/x/a".to_string(), "/x/b".to_string()];
    let plan = Plan::new(Operation::Ignore, &entities, &selection, true);
    let names: Vec<&str> = plan.targets.iter().map(|target| target.name.as_str()).collect();
    assert_eq!(names, vec!["b", "a", "b"]);
}

#[test]
fn every_refusal_is_a_line_of_its_own_with_its_reason() {
    let entities = vec![
        entity("/x/a", "a", Kind::Repo),
        excluded(entity("/x/b", "b", Kind::Repo)),
        entity("/x/c", "c", Kind::Submodule),
    ];
    assert_eq!(
        plan(Operation::Ignore, &entities).confirm_lines(),
        vec![
            "ignore on 1 repos, 2 refused?",
            "a",
            "b: refused, already ignored",
            "c: refused, a Submodule shares its parent's `[[repo]]` entry and has none of its own",
        ]
    );
}

#[test]
fn a_risk_is_read_only_for_what_a_delete_will_act_on() {
    let entities = vec![
        entity("/x/repo", "repo", Kind::Repo),
        entity("/x/sub", "sub", Kind::Submodule),
    ];
    let deleting = plan(Operation::Delete, &entities)
        .with_risk(|key| Err(format!("asked for {key}")));
    assert_eq!(deleting.targets[0].risk, Some(Err("asked for /x/repo".to_string())));
    assert_eq!(deleting.targets[1].risk, None);
    let ignoring = plan(Operation::Ignore, &entities).with_risk(|_| panic!("nothing to ask"));
    assert!(ignoring.targets.iter().all(|target| target.risk.is_none()));
}

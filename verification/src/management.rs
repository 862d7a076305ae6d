//! The four built-in management operations, `ignore`, `unignore`, `delete` and `sync`: which
//! Selection rows each one acts on, what the confirm prompt says, what is done to each row and in
//! which order, and the words that say what came of it.

use vstd::prelude::*;

use crate::text::{decimal, join, joined, same, to_decimal};

verus! {

broadcast use {vstd::string::group_string_axioms, vstd::seq_lib::group_seq_properties};

/// What an entity is.
#[derive(Debug, Clone, Copy, PartialEq, Eq, Structural)]
pub enum Kind {
    Repo,
    Worktree,
    Submodule,
}

/// One of the four built-in entries in the Action palette.
#[derive(Debug, Clone, Copy, PartialEq, Eq, Structural)]
pub enum Operation {
    Ignore,
    Unignore,
    Delete,
    Sync,
}

/// Why one Selection row is not operated on.
#[derive(Debug, Clone, Copy, PartialEq, Eq, Structural)]
pub enum Refusal {
    /// `delete` on a Submodule: removing its directory corrupts the parent that names it.
    SubmoduleCannotBeDeleted,
    /// `ignore` or `unignore` on a Submodule: one entry cannot cover a parent and its
    /// Submodules apart.
    SubmoduleHasNoEntryOfItsOwn,
    /// `ignore` on an entity already excluded.
    AlreadyIgnored,
    /// `unignore` on an entity nothing excludes.
    NotIgnored,
    /// `sync` on a Worktree, which shares its Repo's own branch.
    WorktreeSyncsThroughItsRepo,
    /// `sync` on a Submodule, which tracks a pinned commit.
    SubmoduleCannotSync,
    /// `sync` on a build without a fetch mechanism.
    FetchNotBuilt,
}

/// Whether a Selection row is operated on, or the reason it is not.
#[derive(Debug, Clone, Copy, PartialEq, Eq, Structural)]
pub enum Eligibility {
    Eligible,
    Refused(Refusal),
}

/// What is known of one entity: the path that identifies it, its name, the git common dir it
/// shares with every entity of the same Repo, its kind, and whether an entry excludes it.
#[derive(Debug, Clone, PartialEq, Eq)]
pub struct EntityState {
    pub key: String,
    pub name: String,
    pub common_dir: String,
    pub kind: Kind,
    pub excluded: bool,
}

/// An [`EntityState`] as plain values.
pub struct EntityView {
    pub key: Seq<char>,
    pub name: Seq<char>,
    pub common_dir: Seq<char>,
    pub kind: Kind,
    pub excluded: bool,
}

impl View for EntityState {
    type V = EntityView;

    open spec fn view(&self) -> EntityView {
        EntityView {
            key: self.key@,
            name: self.name@,
            common_dir: self.common_dir@,
            kind: self.kind,
            excluded: self.excluded,
        }
    }
}

/// The entities as plain values.
pub open spec fn entities_view(entities: Seq<EntityState>) -> Seq<EntityView> {
    entities.map_values(|entity: EntityState| entity@)
}

/// The verdict of `operation` on an entity of this kind: `sync` without a fetch mechanism is
/// refused before the kind is even read.
pub open spec fn verdict(
    operation: Operation,
    kind: Kind,
    excluded: bool,
    fetch_available: bool,
) -> Eligibility {
    match operation {
        Operation::Ignore => if kind == Kind::Submodule {
            Eligibility::Refused(Refusal::SubmoduleHasNoEntryOfItsOwn)
        } else if excluded {
            Eligibility::Refused(Refusal::AlreadyIgnored)
        } else {
            Eligibility::Eligible
        },
        Operation::Unignore => if kind == Kind::Submodule {
            Eligibility::Refused(Refusal::SubmoduleHasNoEntryOfItsOwn)
        } else if excluded {
            Eligibility::Eligible
        } else {
            Eligibility::Refused(Refusal::NotIgnored)
        },
        Operation::Delete => if kind == Kind::Submodule {
            Eligibility::Refused(Refusal::SubmoduleCannotBeDeleted)
        } else {
            Eligibility::Eligible
        },
        Operation::Sync => if !fetch_available {
            Eligibility::Refused(Refusal::FetchNotBuilt)
        } else {
            match kind {
                Kind::Repo => Eligibility::Eligible,
                Kind::Worktree => Eligibility::Refused(Refusal::WorktreeSyncsThroughItsRepo),
                Kind::Submodule => Eligibility::Refused(Refusal::SubmoduleCannotSync),
            }
        },
    }
}

/// The name the palette lists an operation under.
pub open spec fn operation_name(operation: Operation) -> Seq<char> {
    match operation {
        Operation::Ignore => "ignore"@,
        Operation::Unignore => "unignore"@,
        Operation::Delete => "delete"@,
        Operation::Sync => "sync"@,
    }
}

/// The palette's second column for an operation.
pub open spec fn operation_description(operation: Operation) -> Seq<char> {
    match operation {
        Operation::Ignore => "Stop operating on the selected entities"@,
        Operation::Unignore => "Operate on the selected entities again"@,
        Operation::Delete => "Remove the selected working trees, permanently"@,
        Operation::Sync => "Fast-forward the selected Repos to their tracked upstream"@,
    }
}

/// The operation that goes by `name`, where one does.
pub open spec fn operation_named(name: Seq<char>) -> Option<Operation> {
    if name == "ignore"@ {
        Some(Operation::Ignore)
    } else if name == "unignore"@ {
        Some(Operation::Unignore)
    } else if name == "delete"@ {
        Some(Operation::Delete)
    } else if name == "sync"@ {
        Some(Operation::Sync)
    } else {
        None
    }
}

/// An operation's name is read back as that operation, and no other name is: a name that is taken
/// is taken by one operation alone.
pub proof fn law_an_operation_name_is_read_back(operation: Operation, name: Seq<char>)
    ensures
        operation_named(name) == Some(operation) <==> name == operation_name(operation),
{
    reveal_strlit("ignore");
    reveal_strlit("unignore");
    reveal_strlit("delete");
    reveal_strlit("sync");
    assert("ignore"@.len() == 6 && "unignore"@.len() == 8 && "delete"@.len() == 6 && "sync"@.len()
        == 4);
    assert("ignore"@[0] == 'i' && "delete"@[0] == 'd');
}

impl Operation {
    /// Every built-in operation, in palette order.
    pub open spec fn all_spec() -> Seq<Operation> {
        seq![Operation::Ignore, Operation::Unignore, Operation::Delete, Operation::Sync]
    }

    /// Every built-in operation, in palette order.
    pub fn all() -> (operations: Vec<Operation>)
        ensures
            operations@ == Operation::all_spec(),
    {
        vec![Operation::Ignore, Operation::Unignore, Operation::Delete, Operation::Sync]
    }

    /// The name the palette lists it under, and the reserved name a configured Action may not
    /// take.
    pub fn name(self) -> (name: &'static str)
        ensures
            name@ == operation_name(self),
    {
        match self {
            Operation::Ignore => "ignore",
            Operation::Unignore => "unignore",
            Operation::Delete => "delete",
            Operation::Sync => "sync",
        }
    }

    /// The palette's own second column.
    pub fn description(self) -> (words: &'static str)
        ensures
            words@ == operation_description(self),
    {
        match self {
            Operation::Ignore => "Stop operating on the selected entities",
            Operation::Unignore => "Operate on the selected entities again",
            Operation::Delete => "Remove the selected working trees, permanently",
            Operation::Sync => "Fast-forward the selected Repos to their tracked upstream",
        }
    }

    /// The operation that goes by `name`, or `None` where none does.
    pub fn from_name(name: &str) -> (operation: Option<Operation>)
        ensures
            operation == operation_named(name@),
    {
        if same(name, "ignore") {
            return Some(Operation::Ignore);
        }
        if same(name, "unignore") {
            return Some(Operation::Unignore);
        }
        if same(name, "delete") {
            return Some(Operation::Delete);
        }
        if same(name, "sync") {
            return Some(Operation::Sync);
        }
        None
    }

    /// Whether `entity` is operated on, or the reason it is not. What the auto-update's own
    /// rules find ineligible right now is a different fact, read only by attempting it.
    pub fn eligibility(self, entity: &EntityState, fetch_available: bool) -> (eligibility:
        Eligibility)
        ensures
            eligibility == verdict(self, entity.kind, entity.excluded, fetch_available),
    {
        match self {
            Operation::Ignore => match entity.kind {
                Kind::Submodule => Eligibility::Refused(Refusal::SubmoduleHasNoEntryOfItsOwn),
                Kind::Repo | Kind::Worktree => if entity.excluded {
                    Eligibility::Refused(Refusal::AlreadyIgnored)
                } else {
                    Eligibility::Eligible
                },
            },
            Operation::Unignore => match entity.kind {
                Kind::Submodule => Eligibility::Refused(Refusal::SubmoduleHasNoEntryOfItsOwn),
                Kind::Repo | Kind::Worktree => if entity.excluded {
                    Eligibility::Eligible
                } else {
                    Eligibility::Refused(Refusal::NotIgnored)
                },
            },
            Operation::Delete => match entity.kind {
                Kind::Submodule => Eligibility::Refused(Refusal::SubmoduleCannotBeDeleted),
                Kind::Repo | Kind::Worktree => Eligibility::Eligible,
            },
            Operation::Sync => if !fetch_available {
                Eligibility::Refused(Refusal::FetchNotBuilt)
            } else {
                match entity.kind {
                    Kind::Repo => Eligibility::Eligible,
                    Kind::Worktree => Eligibility::Refused(Refusal::WorktreeSyncsThroughItsRepo),
                    Kind::Submodule => Eligibility::Refused(Refusal::SubmoduleCannotSync),
                }
            },
        }
    }
}

/// The reason a refusal gives.
pub open spec fn refusal_reason(refusal: Refusal) -> Seq<char> {
    match refusal {
        Refusal::SubmoduleCannotBeDeleted =>
            "a Submodule's git dir lives in its parent; deleting it corrupts the parent"@,
        Refusal::SubmoduleHasNoEntryOfItsOwn =>
            "a Submodule shares its parent's `[[repo]]` entry and has none of its own"@,
        Refusal::AlreadyIgnored => "already ignored"@,
        Refusal::NotIgnored => "not ignored"@,
        Refusal::WorktreeSyncsThroughItsRepo =>
            "sync acts on a Repo's own branch; a Worktree shares it and is not itself the target"@,
        Refusal::SubmoduleCannotSync =>
            "a Submodule tracks a pinned commit, not a branch, so there is nothing to fast-forward"@,
        Refusal::FetchNotBuilt =>
            "this build has no fetch mechanism; install with `cargo install --git https://github.com/paulchiu/repon --locked --features fetch repon` to turn it on"@,
    }
}

impl Refusal {
    /// The reason the confirm prompt shows beside the entity's name.
    pub fn reason(self) -> (reason: &'static str)
        ensures
            reason@ == refusal_reason(self),
    {
        match self {
            Refusal::SubmoduleCannotBeDeleted =>
                "a Submodule's git dir lives in its parent; deleting it corrupts the parent",
            Refusal::SubmoduleHasNoEntryOfItsOwn =>
                "a Submodule shares its parent's `[[repo]]` entry and has none of its own",
            Refusal::AlreadyIgnored => "already ignored",
            Refusal::NotIgnored => "not ignored",
            Refusal::WorktreeSyncsThroughItsRepo =>
                "sync acts on a Repo's own branch; a Worktree shares it and is not itself the target",
            Refusal::SubmoduleCannotSync =>
                "a Submodule tracks a pinned commit, not a branch, so there is nothing to fast-forward",
            Refusal::FetchNotBuilt =>
                "this build has no fetch mechanism; install with `cargo install --git https://github.com/paulchiu/repon --locked --features fetch repon` to turn it on",
        }
    }
}

/// What a `delete` would destroy.
#[derive(Debug, Clone, Copy, PartialEq, Eq, Structural)]
pub struct DeleteRisk {
    pub uncommitted: bool,
    pub unpushed_commits: u32,
    pub unpushed_branches: u32,
    pub linked_worktrees: u32,
}

/// One Selection row as the confirm prompt sees it: what it is, whether the operation will act on
/// it, and, for a `delete` that will, what accepting destroys, or why that could not be read.
#[derive(Debug, Clone, PartialEq, Eq)]
pub struct Target {
    pub key: String,
    pub name: String,
    pub kind: Kind,
    pub common_dir: String,
    pub eligibility: Eligibility,
    pub risk: Option<Result<DeleteRisk, String>>,
}

/// A [`Target`] as plain values.
pub struct TargetView {
    pub key: Seq<char>,
    pub name: Seq<char>,
    pub kind: Kind,
    pub common_dir: Seq<char>,
    pub eligibility: Eligibility,
    pub risk: Option<Result<DeleteRisk, Seq<char>>>,
}

/// What was read of a risk, as plain values.
pub open spec fn risk_view(risk: Result<DeleteRisk, String>) -> Result<DeleteRisk, Seq<char>> {
    match risk {
        Ok(risk) => Ok(risk),
        Err(error) => Err(error@),
    }
}

impl View for Target {
    type V = TargetView;

    open spec fn view(&self) -> TargetView {
        TargetView {
            key: self.key@,
            name: self.name@,
            kind: self.kind,
            common_dir: self.common_dir@,
            eligibility: self.eligibility,
            risk: match self.risk {
                Some(risk) => Some(risk_view(risk)),
                None => None,
            },
        }
    }
}

/// The targets as plain values.
pub open spec fn targets_view(targets: Seq<Target>) -> Seq<TargetView> {
    targets.map_values(|target: Target| target@)
}

/// The whole gesture, resolved before anything acts: which operation, and every Selection row
/// with its verdict.
#[derive(Debug, Clone, PartialEq, Eq)]
pub struct Plan {
    pub operation: Operation,
    pub targets: Vec<Target>,
}

/// The first entity that goes by `key`.
pub open spec fn entity_at(entities: Seq<EntityView>, key: Seq<char>) -> Option<EntityView>
    decreases entities.len(),
{
    if entities.len() == 0 {
        None
    } else if entities[0].key == key {
        Some(entities[0])
    } else {
        entity_at(entities.drop_first(), key)
    }
}

/// An entity as a target, nothing read of its risk yet.
pub open spec fn as_target(operation: Operation, entity: EntityView, fetch_available: bool) -> TargetView {
    TargetView {
        key: entity.key,
        name: entity.name,
        kind: entity.kind,
        common_dir: entity.common_dir,
        eligibility: verdict(operation, entity.kind, entity.excluded, fetch_available),
        risk: None,
    }
}

/// The targets the Selection's keys name, in its own order; a key no entity goes by is dropped.
pub open spec fn selected(
    operation: Operation,
    entities: Seq<EntityView>,
    keys: Seq<Seq<char>>,
    fetch_available: bool,
) -> Seq<TargetView>
    decreases keys.len(),
{
    if keys.len() == 0 {
        Seq::empty()
    } else {
        let earlier = selected(operation, entities, keys.drop_last(), fetch_available);
        match entity_at(entities, keys.last()) {
            Some(entity) => earlier.push(as_target(operation, entity, fetch_available)),
            None => earlier,
        }
    }
}

/// Some target is the Repo that owns this git common dir.
pub open spec fn repo_targeted(targets: Seq<TargetView>, common_dir: Seq<char>) -> bool {
    exists|i: int|
        0 <= i < targets.len() && (#[trigger] targets[i]).kind == Kind::Repo
            && targets[i].common_dir == common_dir
}

/// A Worktree whose own Repo is among `all`.
pub open spec fn covered(target: TargetView, all: Seq<TargetView>) -> bool {
    target.kind == Kind::Worktree && repo_targeted(all, target.common_dir)
}

/// `targets` without the Worktrees whose own Repo is among `all`.
pub open spec fn uncovered(targets: Seq<TargetView>, all: Seq<TargetView>) -> Seq<TargetView>
    decreases targets.len(),
{
    if targets.len() == 0 {
        targets
    } else {
        let earlier = uncovered(targets.drop_last(), all);
        if covered(targets.last(), all) {
            earlier
        } else {
            earlier.push(targets.last())
        }
    }
}

/// `operation` resolved against the Selection. A `delete` leaves out a Worktree whose own Repo
/// is selected too, since that Repo's own run already takes it.
pub open spec fn planned(
    operation: Operation,
    entities: Seq<EntityView>,
    keys: Seq<Seq<char>>,
    fetch_available: bool,
) -> Seq<TargetView> {
    let all = selected(operation, entities, keys, fetch_available);
    if operation == Operation::Delete {
        uncovered(all, all)
    } else {
        all
    }
}

fn find_entity(entities: &Vec<EntityState>, key: &str) -> (found: Option<usize>)
    ensures
        match found {
            Some(i) => i < entities@.len() && entity_at(entities_view(entities@), key@) == Some(
                entities@[i as int]@,
            ),
            None => entity_at(entities_view(entities@), key@) is None,
        },
{
    let ghost all = entities_view(entities@);
    let mut i: usize = 0;
    proof {
        assert(all.skip(0) =~= all);
    }
    while i < entities.len()
        invariant
            i <= entities.len(),
            all == entities_view(entities@),
            entity_at(all, key@) == entity_at(all.skip(i as int), key@),
        decreases entities.len() - i,
    {
        proof {
            assert(all.skip(i as int)[0] == entities@[i as int]@);
            assert(all.skip(i as int).drop_first() =~= all.skip(i + 1));
        }
        if same(entities[i].key.as_str(), key) {
            return Some(i);
        }
        i = i + 1;
    }
    None
}

fn target_of(operation: Operation, entity: &EntityState, fetch_available: bool) -> (target: Target)
    ensures
        target@ == as_target(operation, entity@, fetch_available),
{
    Target {
        key: entity.key.clone(),
        name: entity.name.clone(),
        kind: entity.kind,
        common_dir: entity.common_dir.clone(),
        eligibility: operation.eligibility(entity, fetch_available),
        risk: None,
    }
}

fn is_covered(targets: &Vec<Target>, at: usize) -> (found: bool)
    requires
        at < targets@.len(),
    ensures
        found == covered(targets@[at as int]@, targets_view(targets@)),
{
    if targets[at].kind != Kind::Worktree {
        return false;
    }
    let ghost all = targets_view(targets@);
    let mut i: usize = 0;
    while i < targets.len()
        invariant
            i <= targets.len(),
            at < targets@.len(),
            all == targets_view(targets@),
            targets@[at as int].kind == Kind::Worktree,
            forall|k: int|
                0 <= k < i ==> !((#[trigger] all[k]).kind == Kind::Repo && all[k].common_dir
                    == targets@[at as int].common_dir@),
        decreases targets.len() - i,
    {
        proof {
            assert(all[i as int] == targets@[i as int]@);
        }
        if targets[i].kind == Kind::Repo && same(
            targets[i].common_dir.as_str(),
            targets[at].common_dir.as_str(),
        ) {
            return true;
        }
        i = i + 1;
    }
    false
}

fn copy_target(target: &Target) -> (copy: Target)
    ensures
        copy@ == target@,
{
    let risk = match &target.risk {
        Some(Ok(risk)) => Some(Ok(*risk)),
        Some(Err(error)) => Some(Err(error.clone())),
        None => None,
    };
    Target {
        key: target.key.clone(),
        name: target.name.clone(),
        kind: target.kind,
        common_dir: target.common_dir.clone(),
        eligibility: target.eligibility,
        risk,
    }
}

/// Drops a Worktree target whose own Repo is also targeted, so a `delete` over both reports one
/// removal rather than two. Matched by the git common dir both share.
fn drop_worktrees_covered_by_their_own_selected_parent(targets: &Vec<Target>) -> (kept: Vec<Target>)
    ensures
        targets_view(kept@) == uncovered(targets_view(targets@), targets_view(targets@)),
{
    let ghost all = targets_view(targets@);
    let mut kept: Vec<Target> = Vec::new();
    let mut i: usize = 0;
    proof {
        assert(targets_view(kept@) =~= Seq::<TargetView>::empty());
    }
    while i < targets.len()
        invariant
            i <= targets.len(),
            all == targets_view(targets@),
            targets_view(kept@) == uncovered(all.take(i as int), all),
        decreases targets.len() - i,
    {
        proof {
            assert(all.take(i + 1).drop_last() =~= all.take(i as int));
            assert(all.take(i + 1).last() == targets@[i as int]@);
        }
        if !is_covered(targets, i) {
            let target = copy_target(&targets[i]);
            let ghost before = kept@;
            kept.push(target);
            proof {
                assert(targets_view(kept@) =~= targets_view(before).push(target@));
            }
        }
        i = i + 1;
    }
    proof {
        assert(all.take(i as int) =~= all);
    }
    kept
}

/// How many of the targets the run will act on.
pub open spec fn eligible_in(targets: Seq<TargetView>) -> nat
    decreases targets.len(),
{
    if targets.len() == 0 {
        0
    } else if targets.last().eligibility == Eligibility::Eligible {
        1 + eligible_in(targets.drop_last())
    } else {
        eligible_in(targets.drop_last())
    }
}

/// The prompt's own sentence about permanence.
pub const NO_UNDO: &'static str = "there is no undo and no trash";

/// The prompt's own first line: the count, and how many rows are refused where any is.
pub open spec fn headline_text(operation: Operation, eligible: nat, refused: nat) -> Seq<char> {
    operation_name(operation) + " on "@ + decimal(eligible) + if refused == 0 {
        " repos?"@
    } else {
        " repos, "@ + decimal(refused) + " refused?"@
    }
}

/// The word for one or for many.
pub open spec fn plural_text(count: u32, one: Seq<char>, many: Seq<char>) -> Seq<char> {
    if count == 1 {
        one
    } else {
        many
    }
}

/// The facts the prompt names of a risk, each only where it holds: a linked-Worktree count only on
/// a Repo, since deleting one Worktree never touches its siblings.
pub open spec fn risk_phrases_text(risk: DeleteRisk, kind: Kind) -> Seq<Seq<char>> {
    let uncommitted = if risk.uncommitted {
        seq!["uncommitted changes"@]
    } else {
        Seq::empty()
    };
    let unpushed = if risk.unpushed_commits > 0 {
        seq![
            decimal(risk.unpushed_commits as nat) + " "@ + plural_text(
                risk.unpushed_commits,
                "commit"@,
                "commits"@,
            ) + " unpushed on "@ + decimal(risk.unpushed_branches as nat) + " "@ + plural_text(
                risk.unpushed_branches,
                "branch"@,
                "branches"@,
            ),
        ]
    } else {
        Seq::empty()
    };
    let linked = if kind == Kind::Repo && risk.linked_worktrees > 0 {
        seq![
            decimal(risk.linked_worktrees as nat) + " linked "@ + plural_text(
                risk.linked_worktrees,
                "worktree"@,
                "worktrees"@,
            ),
        ]
    } else {
        Seq::empty()
    };
    uncommitted + unpushed + linked
}

/// One row's line in the prompt: its name, with its refusal's reason or, for a `delete` it will act
/// on, what that destroys; a row with nothing to lose is its name and nothing else.
pub open spec fn target_text(operation: Operation, target: TargetView) -> Seq<char> {
    match target.eligibility {
        Eligibility::Refused(refusal) => target.name + ": refused, "@ + refusal_reason(refusal),
        Eligibility::Eligible => if operation == Operation::Delete {
            match target.risk {
                Some(Ok(risk)) => {
                    let phrases = risk_phrases_text(risk, target.kind);
                    if phrases.len() == 0 {
                        target.name
                    } else {
                        target.name + ": "@ + joined(phrases, ", "@)
                    }
                },
                Some(Err(error)) => target.name
                    + ": what it would destroy could not be read, "@ + error,
                None => target.name,
            }
        } else {
            target.name
        },
    }
}

/// The prompt's own lines: the headline, one line per row, and for a `delete` the sentence that
/// there is no undo.
pub open spec fn prompt_lines(operation: Operation, targets: Seq<TargetView>) -> Seq<Seq<char>> {
    let eligible = eligible_in(targets);
    let head = headline_text(operation, eligible, (targets.len() - eligible) as nat);
    let rows = targets.map_values(|target: TargetView| target_text(operation, target));
    let lines = seq![head] + rows;
    if operation == Operation::Delete {
        lines.push(NO_UNDO@)
    } else {
        lines
    }
}

fn headline(operation: Operation, eligible: usize, refused: usize) -> (line: String)
    ensures
        line@ == headline_text(operation, eligible as nat, refused as nat),
{
    let start = operation.name().to_owned().concat(" on ").concat(
        to_decimal(eligible as u64).as_str(),
    );
    if refused == 0 {
        start.concat(" repos?")
    } else {
        let tail = " repos, ".to_owned().concat(to_decimal(refused as u64).as_str()).concat(
            " refused?",
        );
        start.concat(tail.as_str())
    }
}

fn plural(count: u32, one: &'static str, many: &'static str) -> (word: &'static str)
    ensures
        word@ == plural_text(count, one@, many@),
{
    if count == 1 {
        one
    } else {
        many
    }
}

/// Adds a text behind others.
fn push_text(texts: &mut Vec<String>, text: String)
    ensures
        final(texts).deep_view() == old(texts).deep_view().push(text@),
{
    let ghost before = texts.deep_view();
    texts.push(text);
    proof {
        assert(texts.deep_view() =~= before.push(text@));
    }
}

fn risk_phrases(risk: &DeleteRisk, kind: Kind) -> (phrases: Vec<String>)
    ensures
        phrases.deep_view() == risk_phrases_text(*risk, kind),
{
    let mut phrases: Vec<String> = Vec::new();
    proof {
        assert(phrases.deep_view() =~= Seq::<Seq<char>>::empty());
    }
    if risk.uncommitted {
        push_text(&mut phrases, "uncommitted changes".to_owned());
    }
    if risk.unpushed_commits > 0 {
        let phrase = to_decimal(risk.unpushed_commits as u64).concat(" ").concat(
            plural(risk.unpushed_commits, "commit", "commits"),
        ).concat(" unpushed on ").concat(
            to_decimal(risk.unpushed_branches as u64).as_str(),
        ).concat(" ").concat(plural(risk.unpushed_branches, "branch", "branches"));
        push_text(&mut phrases, phrase);
    }
    if kind == Kind::Repo && risk.linked_worktrees > 0 {
        let phrase = to_decimal(risk.linked_worktrees as u64).concat(" linked ").concat(
            plural(risk.linked_worktrees, "worktree", "worktrees"),
        );
        push_text(&mut phrases, phrase);
    }
    proof {
        assert(phrases.deep_view() =~= risk_phrases_text(*risk, kind));
    }
    phrases
}

fn target_line(operation: Operation, target: &Target) -> (line: String)
    ensures
        line@ == target_text(operation, target@),
{
    match target.eligibility {
        Eligibility::Refused(refusal) => target.name.clone().concat(": refused, ").concat(
            refusal.reason(),
        ),
        Eligibility::Eligible => match operation {
            Operation::Delete => match &target.risk {
                Some(Ok(risk)) => {
                    let phrases = risk_phrases(risk, target.kind);
                    proof {
                        assert(phrases.deep_view().len() == phrases@.len());
                    }
                    if phrases.len() == 0 {
                        target.name.clone()
                    } else {
                        target.name.clone().concat(": ").concat(join(&phrases, ", ").as_str())
                    }
                },
                Some(Err(error)) => target.name.clone().concat(
                    ": what it would destroy could not be read, ",
                ).concat(error.as_str()),
                None => target.name.clone(),
            },
            Operation::Ignore | Operation::Unignore | Operation::Sync => target.name.clone(),
        },
    }
}

impl Plan {
    /// `operation` resolved against the Selection: every key in `targets`, in the Selection's own
    /// order, paired with the verdict [`Operation::eligibility`] gives it.
    pub fn new(
        operation: Operation,
        entities: &Vec<EntityState>,
        targets: &Vec<String>,
        fetch_available: bool,
    ) -> (plan: Self)
        ensures
            plan.operation == operation,
            targets_view(plan.targets@) == planned(
                operation,
                entities_view(entities@),
                targets.deep_view(),
                fetch_available,
            ),
    {
        let ghost keys = targets.deep_view();
        let mut found: Vec<Target> = Vec::new();
        let mut i: usize = 0;
        proof {
            assert(targets_view(found@) =~= Seq::<TargetView>::empty());
        }
        while i < targets.len()
            invariant
                i <= targets.len(),
                keys == targets.deep_view(),
                targets_view(found@) == selected(
                    operation,
                    entities_view(entities@),
                    keys.take(i as int),
                    fetch_available,
                ),
            decreases targets.len() - i,
        {
            proof {
                assert(keys.take(i + 1).drop_last() =~= keys.take(i as int));
                assert(keys.take(i + 1).last() == targets@[i as int]@);
            }
            if let Some(at) = find_entity(entities, targets[i].as_str()) {
                let target = target_of(operation, &entities[at], fetch_available);
                let ghost before = found@;
                found.push(target);
                proof {
                    assert(targets_view(found@) =~= targets_view(before).push(target@));
                }
            }
            i = i + 1;
        }
        proof {
            assert(keys.take(i as int) =~= keys);
        }
        if operation == Operation::Delete {
            Plan {
                operation,
                targets: drop_worktrees_covered_by_their_own_selected_parent(&found),
            }
        } else {
            Plan { operation, targets: found }
        }
    }

    /// Reads what accepting destroys, once, for every row a `delete` will act on. A no-op for the
    /// other operations, which destroy nothing.
    pub fn with_risk<F: Fn(&str) -> Result<DeleteRisk, String>>(self, read: F) -> (plan: Self)
        requires
            forall|key: &str| read.requires((key,)),
        ensures
            plan.operation == self.operation,
            plan.targets@.len() == self.targets@.len(),
            forall|i: int|
                0 <= i < self.targets@.len() ==> #[trigger] reads_risk(
                    self.operation,
                    self.targets@[i]@,
                    read,
                    plan.targets@[i]@,
                ),
            forall|i: int|
                0 <= i < self.targets@.len() ==> {
                    let before = self.targets@[i]@;
                    let after = (#[trigger] plan.targets@[i])@;
                    &&& after == TargetView { risk: after.risk, ..before }
                    &&& self.operation == Operation::Delete && before.eligibility
                        == Eligibility::Eligible ==> exists|name: &str, answer|
                        name@ == before.key && #[trigger] read.ensures((name,), answer)
                            && after.risk == Some(risk_view(answer))
                    &&& self.operation != Operation::Delete || before.eligibility
                        != Eligibility::Eligible ==> after.risk == before.risk
                },
    {
        let mut targets: Vec<Target> = Vec::new();
        let mut i: usize = 0;
        while i < self.targets.len()
            invariant
                i <= self.targets@.len(),
                targets@.len() == i,
                forall|key: &str| read.requires((key,)),
                forall|k: int|
                    0 <= k < i ==> #[trigger] reads_risk(
                        self.operation,
                        self.targets@[k]@,
                        read,
                        targets@[k]@,
                    ),
            decreases self.targets@.len() - i,
        {
            let mut target = copy_target(&self.targets[i]);
            let ghost before = target@;
            if self.operation == Operation::Delete && target.eligibility == Eligibility::Eligible {
                let answer = read(target.key.as_str());
                proof {
                    assert(answers_risk(read, target.key@, risk_view(answer)));
                }
                target.risk = Some(answer);
            }
            proof {
                assert(reads_risk(self.operation, self.targets@[i as int]@, read, target@));
            }
            targets.push(target);
            i = i + 1;
        }
        proof {
            assert forall|i: int| 0 <= i < self.targets@.len() implies {
                let before = self.targets@[i]@;
                let after = (#[trigger] targets@[i])@;
                &&& after == TargetView { risk: after.risk, ..before }
                &&& self.operation == Operation::Delete && before.eligibility
                    == Eligibility::Eligible ==> exists|name: &str, answer|
                    name@ == before.key && #[trigger] read.ensures((name,), answer) && after.risk
                        == Some(risk_view(answer))
                &&& self.operation != Operation::Delete || before.eligibility
                    != Eligibility::Eligible ==> after.risk == before.risk
            } by {
                assert(reads_risk(self.operation, self.targets@[i]@, read, targets@[i]@));
            }
        }
        Plan { operation: self.operation, targets }
    }

    /// How many rows the run will act on.
    pub fn eligible_count(&self) -> (count: usize)
        ensures
            count == eligible_in(targets_view(self.targets@)),
            count <= self.targets@.len(),
    {
        let ghost all = targets_view(self.targets@);
        let mut count: usize = 0;
        let mut i: usize = 0;
        while i < self.targets.len()
            invariant
                i <= self.targets.len(),
                count <= i,
                all == targets_view(self.targets@),
                count == eligible_in(all.take(i as int)),
            decreases self.targets.len() - i,
        {
            proof {
                assert(all.take(i + 1).drop_last() =~= all.take(i as int));
                assert(all.take(i + 1).last() == self.targets@[i as int]@);
            }
            if self.targets[i].eligibility == Eligibility::Eligible {
                count = count + 1;
            }
            i = i + 1;
        }
        proof {
            assert(all.take(i as int) =~= all);
        }
        count
    }

    /// How many were named and subtracted rather than dropped.
    pub fn refused_count(&self) -> (count: usize)
        ensures
            count == self.targets@.len() - eligible_in(targets_view(self.targets@)),
    {
        self.targets.len() - self.eligible_count()
    }

    /// The prompt's own lines.
    pub fn confirm_lines(&self) -> (lines: Vec<String>)
        ensures
            lines.deep_view() == prompt_lines(self.operation, targets_view(self.targets@)),
    {
        let ghost all = targets_view(self.targets@);
        let operation = self.operation;
        let mut lines: Vec<String> = Vec::new();
        proof {
            assert(lines.deep_view() =~= Seq::<Seq<char>>::empty());
        }
        push_text(
            &mut lines,
            headline(operation, self.eligible_count(), self.refused_count()),
        );
        let ghost head = lines.deep_view();
        let mut i: usize = 0;
        while i < self.targets.len()
            invariant
                i <= self.targets.len(),
                operation == self.operation,
                all == targets_view(self.targets@),
                lines.deep_view() == head + all.take(i as int).map_values(
                    |target: TargetView| target_text(operation, target),
                ),
            decreases self.targets.len() - i,
        {
            let ghost before = lines.deep_view();
            push_text(&mut lines, target_line(operation, &self.targets[i]));
            proof {
                assert(lines.deep_view() =~= head + all.take(i + 1).map_values(
                    |target: TargetView| target_text(operation, target),
                ));
            }
            i = i + 1;
        }
        proof {
            assert(all.take(i as int) =~= all);
            assert(head =~= seq![
                headline_text(
                    operation,
                    eligible_in(all),
                    (all.len() - eligible_in(all)) as nat,
                ),
            ]);
        }
        if operation == Operation::Delete {
            push_text(&mut lines, NO_UNDO.to_owned());
        }
        lines
    }
}

/// `risk` is an answer `read` can give for `key`.
pub open spec fn answers_risk<F: Fn(&str) -> Result<DeleteRisk, String>>(
    read: F,
    key: Seq<char>,
    risk: Result<DeleteRisk, Seq<char>>,
) -> bool {
    exists|name: &str, answer: Result<DeleteRisk, String>|
        name@ == key && #[trigger] read.ensures((name,), answer) && risk_view(answer) == risk
}

/// `after` is `before` once its risk has been read: an answer of `read` where a `delete` will act
/// on it, and as it was where not.
pub open spec fn reads_risk<F: Fn(&str) -> Result<DeleteRisk, String>>(
    operation: Operation,
    before: TargetView,
    read: F,
    after: TargetView,
) -> bool {
    if operation == Operation::Delete && before.eligibility == Eligibility::Eligible {
        &&& after.risk is Some
        &&& answers_risk(read, before.key, after.risk->0)
        &&& after == TargetView { risk: after.risk, ..before }
    } else {
        after == before
    }
}

/// `ignore` and `unignore` cover opposite halves of the entities that have an entry of their own:
/// whatever one acts on, the other refuses.
pub proof fn law_ignore_and_unignore_cover_opposite_halves(
    kind: Kind,
    excluded: bool,
    fetch_available: bool,
)
    requires
        kind != Kind::Submodule,
    ensures
        verdict(Operation::Ignore, kind, excluded, fetch_available) == Eligibility::Eligible
            <==> verdict(Operation::Unignore, kind, excluded, fetch_available)
            != Eligibility::Eligible,
{
}

/// No operation ever acts on a Submodule.
pub proof fn law_a_submodule_is_always_refused(
    operation: Operation,
    excluded: bool,
    fetch_available: bool,
)
    ensures
        verdict(operation, Kind::Submodule, excluded, fetch_available) is Refused,
{
}

proof fn lemma_uncovered_holds(targets: Seq<TargetView>, all: Seq<TargetView>, target: TargetView)
    ensures
        uncovered(targets, all).contains(target) <==> targets.contains(target) && !covered(
            target,
            all,
        ),
    decreases targets.len(),
{
    if targets.len() > 0 {
        let earlier = targets.drop_last();
        lemma_uncovered_holds(earlier, all, target);
        assert(targets =~= earlier.push(targets.last()));
        assert(targets.contains(target) <==> earlier.contains(target) || targets.last() == target)
            by {
            if targets.contains(target) {
                let at = choose|i: int| 0 <= i < targets.len() && targets[i] == target;
                if at < earlier.len() {
                    assert(earlier[at] == target);
                }
            }
            if earlier.contains(target) {
                let at = choose|i: int| 0 <= i < earlier.len() && earlier[i] == target;
                assert(targets[at] == target);
            }
            assert(targets[targets.len() - 1] == targets.last());
        }
        let kept = uncovered(earlier, all);
        assert(kept.push(targets.last()).contains(target) <==> kept.contains(target)
            || targets.last() == target) by {
            let pushed = kept.push(targets.last());
            if pushed.contains(target) {
                let at = choose|i: int| 0 <= i < pushed.len() && pushed[i] == target;
                if at < kept.len() {
                    assert(kept[at] == target);
                }
            }
            if kept.contains(target) {
                let at = choose|i: int| 0 <= i < kept.len() && kept[i] == target;
                assert(pushed[at] == target);
            }
            assert(pushed[kept.len() as int] == targets.last());
        }
    }
}

/// A `delete` over a Repo and its own Worktrees reports one removal: it keeps every selected row
/// but the Worktrees whose Repo is selected too, and every Repo stays.
pub proof fn law_a_delete_drops_only_the_worktrees_of_a_selected_repo(
    entities: Seq<EntityView>,
    keys: Seq<Seq<char>>,
    fetch_available: bool,
    target: TargetView,
)
    ensures
        ({
            let all = selected(Operation::Delete, entities, keys, fetch_available);
            let kept = planned(Operation::Delete, entities, keys, fetch_available);
            &&& kept.contains(target) <==> all.contains(target) && !(target.kind == Kind::Worktree
                && repo_targeted(all, target.common_dir))
            &&& all.contains(target) && target.kind == Kind::Repo ==> kept.contains(target)
        }),
{
    let all = selected(Operation::Delete, entities, keys, fetch_available);
    lemma_uncovered_holds(all, all, target);
}

proof fn lemma_selected_is_judged(
    operation: Operation,
    entities: Seq<EntityView>,
    keys: Seq<Seq<char>>,
    fetch_available: bool,
    target: TargetView,
)
    requires
        selected(operation, entities, keys, fetch_available).contains(target),
    ensures
        exists|excluded: bool| target.eligibility == #[trigger] verdict(
            operation,
            target.kind,
            excluded,
            fetch_available,
        ),
    decreases keys.len(),
{
    if keys.len() > 0 {
        let all = selected(operation, entities, keys, fetch_available);
        let earlier = selected(operation, entities, keys.drop_last(), fetch_available);
        let at = choose|i: int| 0 <= i < all.len() && all[i] == target;
        if at < earlier.len() {
            assert(earlier[at] == target);
            lemma_selected_is_judged(
                operation,
                entities,
                keys.drop_last(),
                fetch_available,
                target,
            );
        } else {
            let entity = entity_at(entities, keys.last())->0;
            assert(target == as_target(operation, entity, fetch_available));
            assert(target.eligibility == verdict(
                operation,
                target.kind,
                entity.excluded,
                fetch_available,
            ));
        }
    }
}

/// No plan holds a Submodule that its operation would act on.
pub proof fn law_a_plan_refuses_every_submodule(
    operation: Operation,
    entities: Seq<EntityView>,
    keys: Seq<Seq<char>>,
    fetch_available: bool,
    target: TargetView,
)
    requires
        planned(operation, entities, keys, fetch_available).contains(target),
        target.kind == Kind::Submodule,
    ensures
        target.eligibility is Refused,
{
    let all = selected(operation, entities, keys, fetch_available);
    if operation == Operation::Delete {
        lemma_uncovered_holds(all, all, target);
    }
    lemma_selected_is_judged(operation, entities, keys, fetch_available, target);
}

/// The prompt names every row of the plan on a line of its own, a refused one with its reason: no
/// refusal is silent.
pub proof fn law_the_prompt_names_every_row(
    operation: Operation,
    targets: Seq<TargetView>,
    at: int,
)
    requires
        0 <= at < targets.len(),
    ensures
        prompt_lines(operation, targets)[at + 1] == target_text(operation, targets[at]),
        targets[at].eligibility matches Eligibility::Refused(refusal) ==> prompt_lines(
            operation,
            targets,
        )[at + 1] == targets[at].name + ": refused, "@ + refusal_reason(refusal),
        eligible_in(targets) <= targets.len(),
{
    lemma_eligible_at_most(targets);
}

proof fn lemma_eligible_at_most(targets: Seq<TargetView>)
    ensures
        eligible_in(targets) <= targets.len(),
    decreases targets.len(),
{
    if targets.len() > 0 {
        lemma_eligible_at_most(targets.drop_last());
    }
}


/// `entities[i]` is in the Selection: a key of it is the entity's own, and no entity ahead of it
/// goes by that key.
pub open spec fn is_selected(entities: Seq<EntityView>, keys: Seq<Seq<char>>, i: int) -> bool {
    &&& 0 <= i < entities.len()
    &&& keys.contains(entities[i].key)
    &&& forall|j: int| 0 <= j < i ==> (#[trigger] entities[j]).key != entities[i].key
}

proof fn lemma_entity_at(entities: Seq<EntityView>, key: Seq<char>)
    ensures
        match entity_at(entities, key) {
            Some(entity) => exists|i: int|
                0 <= i < entities.len() && entity == #[trigger] entities[i] && entities[i].key
                    == key && forall|j: int|
                    0 <= j < i ==> (#[trigger] entities[j]).key != key,
            None => forall|i: int| 0 <= i < entities.len() ==> (#[trigger] entities[i]).key != key,
        },
    decreases entities.len(),
{
    if entities.len() > 0 && entities[0].key != key {
        let rest = entities.drop_first();
        lemma_entity_at(rest, key);
        assert(forall|i: int| 0 <= i < rest.len() ==> #[trigger] rest[i] == entities[i + 1]);
        match entity_at(rest, key) {
            Some(entity) => {
                let i = choose|i: int|
                    0 <= i < rest.len() && entity == #[trigger] rest[i] && rest[i].key == key
                        && forall|j: int| 0 <= j < i ==> (#[trigger] rest[j]).key != key;
                assert(entities[i + 1] == entity);
                assert forall|j: int| 0 <= j < i + 1 implies (#[trigger] entities[j]).key
                    != key by {
                    if j > 0 {
                        assert(rest[j - 1] == entities[j]);
                    }
                }
            },
            None => {
                assert forall|i: int| 0 <= i < entities.len() implies (#[trigger] entities[i]).key
                    != key by {
                    if i > 0 {
                        assert(rest[i - 1] == entities[i]);
                    }
                }
            },
        }
    }
}

proof fn lemma_entity_at_is_the_first(entities: Seq<EntityView>, i: int)
    requires
        0 <= i < entities.len(),
        forall|j: int| 0 <= j < i ==> (#[trigger] entities[j]).key != entities[i].key,
    ensures
        entity_at(entities, entities[i].key) == Some(entities[i]),
{
    let key = entities[i].key;
    lemma_entity_at(entities, key);
    if let Some(entity) = entity_at(entities, key) {
        let k = choose|k: int|
            0 <= k < entities.len() && entity == #[trigger] entities[k] && entities[k].key == key
                && forall|j: int| 0 <= j < k ==> (#[trigger] entities[j]).key != key;
        assert(k == i);
    }
}

proof fn lemma_selected_targets(
    operation: Operation,
    entities: Seq<EntityView>,
    keys: Seq<Seq<char>>,
    fetch_available: bool,
    target: TargetView,
)
    ensures
        selected(operation, entities, keys, fetch_available).contains(target) <==> exists|i: int|
            #[trigger] is_selected(entities, keys, i) && target == as_target(
                operation,
                entities[i],
                fetch_available,
            ),
    decreases keys.len(),
{
    let all = selected(operation, entities, keys, fetch_available);
    if keys.len() > 0 {
        let rest = keys.drop_last();
        let earlier = selected(operation, entities, rest, fetch_available);
        lemma_selected_targets(operation, entities, rest, fetch_available, target);
        lemma_entity_at(entities, keys.last());
        assert forall|key: Seq<char>| #[trigger]
            keys.contains(key) <==> rest.contains(key) || key == keys.last() by {
            if keys.contains(key) {
                let at = choose|at: int| 0 <= at < keys.len() && keys[at] == key;
                if at < rest.len() {
                    assert(rest[at] == key);
                }
            }
            if rest.contains(key) {
                let at = choose|at: int| 0 <= at < rest.len() && rest[at] == key;
                assert(keys[at] == key);
            }
            assert(keys[keys.len() - 1] == keys.last());
        }
        if all.contains(target) {
            let at = choose|at: int| 0 <= at < all.len() && all[at] == target;
            if at < earlier.len() {
                assert(earlier[at] == target);
                let i = choose|i: int| #[trigger]
                    is_selected(entities, rest, i) && target == as_target(
                        operation,
                        entities[i],
                        fetch_available,
                    );
                assert(is_selected(entities, keys, i));
            } else {
                let entity = entity_at(entities, keys.last())->0;
                let i = choose|i: int|
                    0 <= i < entities.len() && entity == #[trigger] entities[i] && entities[i].key
                        == keys.last() && forall|j: int|
                        0 <= j < i ==> (#[trigger] entities[j]).key != keys.last();
                assert(is_selected(entities, keys, i));
            }
        }
        if exists|i: int| #[trigger]
            is_selected(entities, keys, i) && target == as_target(
                operation,
                entities[i],
                fetch_available,
            ) {
            let i = choose|i: int| #[trigger]
                is_selected(entities, keys, i) && target == as_target(
                    operation,
                    entities[i],
                    fetch_available,
                );
            if rest.contains(entities[i].key) {
                assert(is_selected(entities, rest, i));
                let at = choose|at: int| 0 <= at < earlier.len() && earlier[at] == target;
                assert(all[at] == target);
            } else {
                lemma_entity_at_is_the_first(entities, i);
                assert(all.last() == target);
            }
        }
    } else {
        assert(forall|i: int| !#[trigger] is_selected(entities, keys, i));
    }
}

/// Some selected entity is a Repo with this git common dir.
pub open spec fn repo_selected(
    entities: Seq<EntityView>,
    keys: Seq<Seq<char>>,
    common_dir: Seq<char>,
) -> bool {
    exists|r: int| #[trigger]
        is_selected(entities, keys, r) && entities[r].kind == Kind::Repo && entities[r].common_dir
            == common_dir
}

/// A plan targets the selected entities and nothing else, each under its own path, name, kind and
/// git common dir. One is left out in a single case: a `delete` of a Worktree while a Repo with
/// that Worktree's own git common dir is selected too.
pub proof fn law_a_plan_targets_what_is_selected(
    operation: Operation,
    entities: Seq<EntityView>,
    keys: Seq<Seq<char>>,
    fetch_available: bool,
    target: TargetView,
)
    ensures
        planned(operation, entities, keys, fetch_available).contains(target) <==> exists|i: int| {
            &&& #[trigger] is_selected(entities, keys, i)
            &&& target.key == entities[i].key
            &&& target.name == entities[i].name
            &&& target.kind == entities[i].kind
            &&& target.common_dir == entities[i].common_dir
            &&& target.eligibility == verdict(
                operation,
                entities[i].kind,
                entities[i].excluded,
                fetch_available,
            )
            &&& target.risk is None
            &&& !(operation == Operation::Delete && entities[i].kind == Kind::Worktree
                && repo_selected(entities, keys, entities[i].common_dir))
        },
{
    let all = selected(operation, entities, keys, fetch_available);
    lemma_selected_targets(operation, entities, keys, fetch_available, target);
    lemma_uncovered_holds(all, all, target);
    let dir = target.common_dir;
    assert(repo_targeted(all, dir) <==> repo_selected(entities, keys, dir)) by {
        if repo_targeted(all, dir) {
            let k = choose|k: int|
                0 <= k < all.len() && (#[trigger] all[k]).kind == Kind::Repo && all[k].common_dir
                    == dir;
            lemma_selected_targets(operation, entities, keys, fetch_available, all[k]);
            let r = choose|r: int| #[trigger]
                is_selected(entities, keys, r) && all[k] == as_target(
                    operation,
                    entities[r],
                    fetch_available,
                );
            assert(is_selected(entities, keys, r) && entities[r].kind == Kind::Repo);
        }
        if repo_selected(entities, keys, dir) {
            let r = choose|r: int| #[trigger]
                is_selected(entities, keys, r) && entities[r].kind == Kind::Repo
                    && entities[r].common_dir == dir;
            let repo = as_target(operation, entities[r], fetch_available);
            lemma_selected_targets(operation, entities, keys, fetch_available, repo);
            let k = choose|k: int| 0 <= k < all.len() && all[k] == repo;
            assert(all[k].kind == Kind::Repo && all[k].common_dir == dir);
        }
    }
    assert(planned(operation, entities, keys, fetch_available).contains(target)
        <==> all.contains(target) && !(operation == Operation::Delete && target.kind
        == Kind::Worktree && repo_selected(entities, keys, dir)));
    if all.contains(target) {
        let i = choose|i: int| #[trigger]
            is_selected(entities, keys, i) && target == as_target(
                operation,
                entities[i],
                fetch_available,
            );
        assert(is_selected(entities, keys, i));
    }
    if exists|i: int| {
        &&& #[trigger] is_selected(entities, keys, i)
        &&& target.key == entities[i].key
        &&& target.name == entities[i].name
        &&& target.kind == entities[i].kind
        &&& target.common_dir == entities[i].common_dir
        &&& target.eligibility == verdict(
            operation,
            entities[i].kind,
            entities[i].excluded,
            fetch_available,
        )
        &&& target.risk is None
        &&& !(operation == Operation::Delete && entities[i].kind == Kind::Worktree
            && repo_selected(entities, keys, entities[i].common_dir))
    } {
        let i = choose|i: int| {
            &&& #[trigger] is_selected(entities, keys, i)
            &&& target.key == entities[i].key
            &&& target.name == entities[i].name
            &&& target.kind == entities[i].kind
            &&& target.common_dir == entities[i].common_dir
            &&& target.eligibility == verdict(
                operation,
                entities[i].kind,
                entities[i].excluded,
                fetch_available,
            )
            &&& target.risk is None
            &&& !(operation == Operation::Delete && entities[i].kind == Kind::Worktree
                && repo_selected(entities, keys, entities[i].common_dir))
        };
        assert(target == as_target(operation, entities[i], fetch_available));
    }
}

/// A Worktree stays in a `delete` plan where no selected Repo has its git common dir, whatever
/// other Repos are selected.
pub proof fn law_a_worktree_without_its_repo_is_deleted_itself(
    entities: Seq<EntityView>,
    keys: Seq<Seq<char>>,
    fetch_available: bool,
    i: int,
)
    requires
        0 <= i < entities.len(),
        keys.contains(entities[i].key),
        forall|j: int| 0 <= j < i ==> (#[trigger] entities[j]).key != entities[i].key,
        entities[i].kind == Kind::Worktree,
        forall|r: int|
            0 <= r < entities.len() && (#[trigger] entities[r]).kind == Kind::Repo && keys.contains(
                entities[r].key,
            ) ==> entities[r].common_dir != entities[i].common_dir,
    ensures
        exists|k: int|
            #![trigger planned(Operation::Delete, entities, keys, fetch_available)[k]]
            0 <= k < planned(Operation::Delete, entities, keys, fetch_available).len() && planned(
                Operation::Delete,
                entities,
                keys,
                fetch_available,
            )[k].key == entities[i].key && planned(
                Operation::Delete,
                entities,
                keys,
                fetch_available,
            )[k].eligibility == Eligibility::Eligible,
{
    let target = TargetView {
        key: entities[i].key,
        name: entities[i].name,
        kind: entities[i].kind,
        common_dir: entities[i].common_dir,
        eligibility: verdict(
            Operation::Delete,
            entities[i].kind,
            entities[i].excluded,
            fetch_available,
        ),
        risk: None,
    };
    assert(is_selected(entities, keys, i));
    law_a_plan_targets_what_is_selected(
        Operation::Delete,
        entities,
        keys,
        fetch_available,
        target,
    );
    let plan = planned(Operation::Delete, entities, keys, fetch_available);
    let k = choose|k: int| 0 <= k < plan.len() && plan[k] == target;
    assert(plan[k].key == entities[i].key);
}

/// The keys of a list of targets.
pub open spec fn keys_of(targets: Seq<TargetView>) -> Seq<Seq<char>> {
    targets.map_values(|target: TargetView| target.key)
}

/// `part` holds some of `whole`'s texts, in the same order.
pub open spec fn runs_through(part: Seq<Seq<char>>, whole: Seq<Seq<char>>) -> bool
    decreases whole.len(),
{
    ||| part.len() == 0
    ||| whole.len() > 0 && (runs_through(part, whole.drop_last()) || part.last() == whole.last()
        && runs_through(part.drop_last(), whole.drop_last()))
}

proof fn lemma_selected_runs_through(
    operation: Operation,
    entities: Seq<EntityView>,
    keys: Seq<Seq<char>>,
    fetch_available: bool,
)
    ensures
        runs_through(keys_of(selected(operation, entities, keys, fetch_available)), keys),
    decreases keys.len(),
{
    if keys.len() > 0 {
        lemma_selected_runs_through(operation, entities, keys.drop_last(), fetch_available);
        lemma_entity_at(entities, keys.last());
        let all = selected(operation, entities, keys, fetch_available);
        let earlier = selected(operation, entities, keys.drop_last(), fetch_available);
        if entity_at(entities, keys.last()) is Some {
            assert(keys_of(all).drop_last() =~= keys_of(earlier));
        }
    }
}

proof fn lemma_uncovered_runs_through(
    targets: Seq<TargetView>,
    all: Seq<TargetView>,
    whole: Seq<Seq<char>>,
)
    requires
        runs_through(keys_of(targets), whole),
    ensures
        runs_through(keys_of(uncovered(targets, all)), whole),
    decreases whole.len(),
{
    let part = keys_of(targets);
    if targets.len() > 0 {
        assert(part.drop_last() =~= keys_of(targets.drop_last()));
        if runs_through(part, whole.drop_last()) {
            lemma_uncovered_runs_through(targets, all, whole.drop_last());
        } else {
            lemma_uncovered_runs_through(targets.drop_last(), all, whole.drop_last());
            let kept = uncovered(targets, all);
            if !covered(targets.last(), all) {
                assert(keys_of(kept).drop_last() =~= keys_of(uncovered(targets.drop_last(), all)));
            }
        }
    }
}

/// A plan's targets stand in the Selection's own order, and none is targeted more often than it is
/// selected.
pub proof fn law_a_plan_keeps_the_selections_order(
    operation: Operation,
    entities: Seq<EntityView>,
    keys: Seq<Seq<char>>,
    fetch_available: bool,
)
    ensures
        runs_through(keys_of(planned(operation, entities, keys, fetch_available)), keys),
{
    let all = selected(operation, entities, keys, fetch_available);
    lemma_selected_runs_through(operation, entities, keys, fetch_available);
    lemma_uncovered_runs_through(all, all, keys);
}

/// Where every selected key is some entity's, an operation other than `delete` targets them one
/// for one.
pub proof fn law_a_plan_targets_each_key_once(
    operation: Operation,
    entities: Seq<EntityView>,
    keys: Seq<Seq<char>>,
    fetch_available: bool,
)
    requires
        operation != Operation::Delete,
        forall|k: int|
            0 <= k < keys.len() ==> exists|i: int|
                0 <= i < entities.len() && (#[trigger] entities[i]).key == #[trigger] keys[k],
    ensures
        keys_of(planned(operation, entities, keys, fetch_available)) == keys,
    decreases keys.len(),
{
    if keys.len() > 0 {
        let rest = keys.drop_last();
        assert(forall|k: int| 0 <= k < rest.len() ==> #[trigger] rest[k] == keys[k]);
        law_a_plan_targets_each_key_once(operation, entities, rest, fetch_available);
        lemma_entity_at(entities, keys.last());
        assert(keys[keys.len() - 1] == keys.last());
        assert(entity_at(entities, keys.last()) is Some);
        let all = selected(operation, entities, keys, fetch_available);
        assert(keys_of(all).last() == keys.last());
        assert(keys_of(all).drop_last() =~= keys_of(
            selected(operation, entities, rest, fetch_available),
        ));
        assert(keys_of(all).drop_last() == rest);
        assert(keys_of(all) =~= keys_of(all).drop_last().push(keys_of(all).last()));
        assert(keys =~= rest.push(keys.last()));
    } else {
        assert(keys_of(planned(operation, entities, keys, fetch_available)) =~= keys);
    }
}

/// What each operation acts on: `ignore` on what is not excluded, `unignore` on what is, both and
/// `delete` on Repos and Worktrees alone, and `sync` on Repos alone, on a build that can fetch.
pub proof fn law_what_each_operation_acts_on(kind: Kind, excluded: bool, fetch_available: bool)
    ensures
        verdict(Operation::Ignore, kind, excluded, fetch_available) is Eligible <==> !excluded
            && kind != Kind::Submodule,
        verdict(Operation::Unignore, kind, excluded, fetch_available) is Eligible <==> excluded
            && kind != Kind::Submodule,
        verdict(Operation::Delete, kind, excluded, fetch_available) is Eligible <==> kind
            != Kind::Submodule,
        verdict(Operation::Sync, kind, excluded, fetch_available) is Eligible <==> fetch_available
            && kind == Kind::Repo,
{
}

/// Each refusal is given where what it says is the case, and nowhere else.
pub proof fn law_a_refusal_says_what_is_the_case(
    operation: Operation,
    kind: Kind,
    excluded: bool,
    fetch_available: bool,
    refusal: Refusal,
)
    ensures
        verdict(operation, kind, excluded, fetch_available) == Eligibility::Refused(refusal) <==> {
            ||| refusal == Refusal::SubmoduleCannotBeDeleted && operation == Operation::Delete
                && kind == Kind::Submodule
            ||| refusal == Refusal::SubmoduleHasNoEntryOfItsOwn && (operation == Operation::Ignore
                || operation == Operation::Unignore) && kind == Kind::Submodule
            ||| refusal == Refusal::AlreadyIgnored && operation == Operation::Ignore && kind
                != Kind::Submodule && excluded
            ||| refusal == Refusal::NotIgnored && operation == Operation::Unignore && kind
                != Kind::Submodule && !excluded
            ||| refusal == Refusal::FetchNotBuilt && operation == Operation::Sync
                && !fetch_available
            ||| refusal == Refusal::WorktreeSyncsThroughItsRepo && operation == Operation::Sync
                && fetch_available && kind == Kind::Worktree
            ||| refusal == Refusal::SubmoduleCannotSync && operation == Operation::Sync
                && fetch_available && kind == Kind::Submodule
        },
{
}

/// What a line goes on with, behind the bare name or behind another fact.
pub open spec fn going_on(line: Seq<char>, name: Seq<char>) -> Seq<char> {
    if line == name {
        line + ": "@
    } else {
        line + ", "@
    }
}

proof fn lemma_joined_one_more(parts: Seq<Seq<char>>, part: Seq<char>, separator: Seq<char>)
    ensures
        parts.len() > 0 ==> joined(parts.push(part), separator) == joined(parts, separator)
            + separator + part,
        parts.len() == 0 ==> joined(parts.push(part), separator) == part,
{
    assert(parts.push(part).drop_last() =~= parts);
}

/// A row a `delete` will act on names what that destroys, of whatever kind it is: nothing but the
/// name where there is nothing to lose, and otherwise, one behind the other, the uncommitted
/// changes, the unpushed commits with the branches they are on, and on a Repo the linked
/// Worktrees.
pub proof fn law_the_prompt_names_what_a_delete_destroys(target: TargetView, risk: DeleteRisk)
    requires
        target.eligibility == Eligibility::Eligible,
        target.risk == Some(Ok::<DeleteRisk, Seq<char>>(risk)),
    ensures
        ({
            let line = |risk: DeleteRisk|
                target_text(Operation::Delete, TargetView { risk: Some(Ok(risk)), ..target });
            let name = target.name;
            let linked_to_none = DeleteRisk { linked_worktrees: 0, ..risk };
            let all_pushed = DeleteRisk { unpushed_commits: 0, linked_worktrees: 0, ..risk };
            let commits = risk.unpushed_commits as nat;
            let branches = risk.unpushed_branches as nat;
            let linked = risk.linked_worktrees as nat;
            &&& line(risk) == name <==> !risk.uncommitted && commits == 0 && (target.kind
                != Kind::Repo || linked == 0)
            &&& line(all_pushed) == if risk.uncommitted {
                name + ": uncommitted changes"@
            } else {
                name
            }
            &&& commits > 0 ==> line(linked_to_none) == going_on(line(all_pushed), name) + (decimal(
                commits,
            ) + if commits == 1 {
                " commit unpushed on "@
            } else {
                " commits unpushed on "@
            } + decimal(branches) + if branches == 1 {
                " branch"@
            } else {
                " branches"@
            })
            &&& commits == 0 ==> line(linked_to_none) == line(all_pushed)
            &&& target.kind == Kind::Repo && linked > 0 ==> line(risk) == going_on(
                line(linked_to_none),
                name,
            ) + (decimal(linked) + if linked == 1 {
                " linked worktree"@
            } else {
                " linked worktrees"@
            })
            &&& target.kind != Kind::Repo || linked == 0 ==> line(risk) == line(linked_to_none)
        }),
{
    reveal_strlit(": uncommitted changes");
    reveal_strlit("uncommitted changes");
    reveal_strlit(": ");
    reveal_strlit(", ");
    reveal_strlit(" ");
    reveal_strlit("commit");
    reveal_strlit("commits");
    reveal_strlit(" commit unpushed on ");
    reveal_strlit(" commits unpushed on ");
    reveal_strlit(" unpushed on ");
    reveal_strlit("branch");
    reveal_strlit("branches");
    reveal_strlit(" branch");
    reveal_strlit(" branches");
    reveal_strlit(" linked ");
    reveal_strlit("worktree");
    reveal_strlit("worktrees");
    reveal_strlit(" linked worktree");
    reveal_strlit(" linked worktrees");
    let kind = target.kind;
    let name = target.name;
    let linked_to_none = DeleteRisk { linked_worktrees: 0, ..risk };
    let all_pushed = DeleteRisk { unpushed_commits: 0, linked_worktrees: 0, ..risk };
    let none = Seq::<Seq<char>>::empty();
    let first = risk_phrases_text(all_pushed, kind);
    let second = risk_phrases_text(linked_to_none, kind);
    let third = risk_phrases_text(risk, kind);
    let commits = risk.unpushed_commits;
    let branches = risk.unpushed_branches;
    let linked = risk.linked_worktrees;
    let unpushed = decimal(commits as nat) + " "@ + plural_text(commits, "commit"@, "commits"@)
        + " unpushed on "@ + decimal(branches as nat) + " "@ + plural_text(
        branches,
        "branch"@,
        "branches"@,
    );
    let trees = decimal(linked as nat) + " linked "@ + plural_text(
        linked,
        "worktree"@,
        "worktrees"@,
    );
    assert(unpushed =~= decimal(commits as nat) + if commits == 1 {
        " commit unpushed on "@
    } else {
        " commits unpushed on "@
    } + decimal(branches as nat) + if branches == 1 {
        " branch"@
    } else {
        " branches"@
    });
    assert(trees =~= decimal(linked as nat) + if linked == 1 {
        " linked worktree"@
    } else {
        " linked worktrees"@
    });
    lemma_joined_one_more(none, "uncommitted changes"@, ", "@);
    lemma_joined_one_more(first, unpushed, ", "@);
    lemma_joined_one_more(second, trees, ", "@);
    if risk.uncommitted {
        assert(first =~= none.push("uncommitted changes"@));
        assert(name + ": "@ + "uncommitted changes"@ =~= name + ": uncommitted changes"@);
    } else {
        assert(first =~= none);
    }
    if commits > 0 {
        assert(second =~= first.push(unpushed));
    } else {
        assert(second =~= first);
    }
    if kind == Kind::Repo && linked > 0 {
        assert(third =~= second.push(trees));
    } else {
        assert(third =~= second);
    }
    let text_of = |phrases: Seq<Seq<char>>|
        if phrases.len() == 0 {
            name
        } else {
            name + ": "@ + joined(phrases, ", "@)
        };
    assert(text_of(first).len() > name.len() <==> first.len() > 0);
    assert(text_of(second).len() > name.len() <==> second.len() > 0);
    assert(text_of(third).len() > name.len() <==> third.len() > 0);
    if commits > 0 {
        assert(text_of(second) =~= going_on(text_of(first), name) + unpushed);
    }
    if kind == Kind::Repo && linked > 0 {
        assert(text_of(third) =~= going_on(text_of(second), name) + trees);
    }
}

/// A risk that could not be read is said to be, with the reason; one that was not read, and a row
/// of an operation that destroys nothing, add nothing to the name.
pub proof fn law_the_prompt_says_what_could_not_be_read(operation: Operation, target: TargetView)
    requires
        target.eligibility == Eligibility::Eligible,
    ensures
        operation != Operation::Delete ==> target_text(operation, target) == target.name,
        target.risk is None ==> target_text(operation, target) == target.name,
        operation == Operation::Delete ==> (target.risk matches Some(Err(error)) ==> target_text(
            operation,
            target,
        ) == target.name + ": what it would destroy could not be read, "@ + error),
{
}

proof fn lemma_eligible_is_a_count(targets: Seq<TargetView>)
    ensures
        eligible_in(targets) == targets.filter(
            |target: TargetView| target.eligibility == Eligibility::Eligible,
        ).len(),
    decreases targets.len(),
{
    reveal(Seq::filter);
    if targets.len() > 0 {
        lemma_eligible_is_a_count(targets.drop_last());
    }
}

/// The prompt opens with the operation's own name and how many rows it will act on, names how many
/// it refuses where it refuses any, holds one line for each row behind that, and closes a `delete`
/// alone with the sentence that there is no undo.
pub proof fn law_the_prompt_counts_its_rows(operation: Operation, targets: Seq<TargetView>)
    ensures
        ({
            let lines = prompt_lines(operation, targets);
            let acted_on = targets.filter(
                |target: TargetView| target.eligibility == Eligibility::Eligible,
            ).len();
            let refused = (targets.len() - acted_on) as nat;
            &&& acted_on <= targets.len()
            &&& lines.len() == targets.len() + if operation == Operation::Delete {
                2int
            } else {
                1
            }
            &&& refused == 0 ==> lines[0] == operation_name(operation) + " on "@ + decimal(acted_on)
                + " repos?"@
            &&& refused > 0 ==> lines[0] == operation_name(operation) + " on "@ + decimal(acted_on)
                + (" repos, "@ + decimal(refused) + " refused?"@)
            &&& operation == Operation::Delete ==> lines.last() == "there is no undo and no trash"@
        }),
{
    lemma_eligible_is_a_count(targets);
    lemma_eligible_at_most(targets);
}

/// What the palette lists for each operation: its name and what it does.
pub proof fn law_the_words_for_each_operation()
    ensures
        operation_name(Operation::Ignore) == "ignore"@,
        operation_name(Operation::Unignore) == "unignore"@,
        operation_name(Operation::Delete) == "delete"@,
        operation_name(Operation::Sync) == "sync"@,
        operation_description(Operation::Ignore) == "Stop operating on the selected entities"@,
        operation_description(Operation::Unignore) == "Operate on the selected entities again"@,
        operation_description(Operation::Delete)
            == "Remove the selected working trees, permanently"@,
        operation_description(Operation::Sync)
            == "Fast-forward the selected Repos to their tracked upstream"@,
{
}

/// The reason each refusal gives.
pub proof fn law_the_words_for_each_refusal()
    ensures
        refusal_reason(Refusal::SubmoduleCannotBeDeleted)
            == "a Submodule's git dir lives in its parent; deleting it corrupts the parent"@,
        refusal_reason(Refusal::SubmoduleHasNoEntryOfItsOwn)
            == "a Submodule shares its parent's `[[repo]]` entry and has none of its own"@,
        refusal_reason(Refusal::AlreadyIgnored) == "already ignored"@,
        refusal_reason(Refusal::NotIgnored) == "not ignored"@,
        refusal_reason(Refusal::WorktreeSyncsThroughItsRepo)
            == "sync acts on a Repo's own branch; a Worktree shares it and is not itself the target"@,
        refusal_reason(Refusal::SubmoduleCannotSync)
            == "a Submodule tracks a pinned commit, not a branch, so there is nothing to fast-forward"@,
        refusal_reason(Refusal::FetchNotBuilt)
            == "this build has no fetch mechanism; install with `cargo install --git https://github.com/paulchiu/repon --locked --features fetch repon` to turn it on"@,
{
}

} // verus!

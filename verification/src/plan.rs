//! Deployment plans: what each target does, the rollout policy of a run, and
//! the partition of a plan into dependency levels and rollout waves.
//!
//! A target `v` depends on target `u` when one of the names in
//! `v.depends_on` is the host name of `u` (the last target carrying that
//! name wins); names that match no target and self-references are ignored.

use vstd::prelude::*;
use crate::errors::{ErrorClass, NodError};
use crate::host::{lowercase_of, to_lowercase, BuilderHost, HostEntity};
use crate::levels::{are_levels, in_some_part, levels_of, nested, resolvable, topological_layers};
use crate::text::{clone_strings, join, joined, views};

verus! {

/// What an individual target plan asks the pipeline to do.
#[derive(Debug, Clone, Copy, PartialEq, Eq, Structural)]
pub enum DeploymentAction {
    /// Rebuild and activate the NixOS configuration.
    Switch,
    /// Make the new configuration the boot default.
    Boot,
    /// Activate without making it the boot default.
    Test,
    /// Build and stage the new closure without activating it.
    DryRun,
    /// Build closures and create out-links without transferring or activating.
    Build,
}

/// The canonical string form of an action.
pub open spec fn action_text(a: DeploymentAction) -> Seq<char> {
    match a {
        DeploymentAction::Switch => "switch"@,
        DeploymentAction::Boot => "boot"@,
        DeploymentAction::Test => "test"@,
        DeploymentAction::DryRun => "dry-run"@,
        DeploymentAction::Build => "build"@,
    }
}

/// The action an already lower-cased name denotes, if any.
pub open spec fn action_named(lowered: Seq<char>) -> Option<DeploymentAction> {
    if lowered == "switch"@ {
        Some(DeploymentAction::Switch)
    } else if lowered == "boot"@ {
        Some(DeploymentAction::Boot)
    } else if lowered == "test"@ {
        Some(DeploymentAction::Test)
    } else if lowered == "dry-run"@ {
        Some(DeploymentAction::DryRun)
    } else if lowered == "build"@ {
        Some(DeploymentAction::Build)
    } else {
        None
    }
}

impl DeploymentAction {
    /// Returns the canonical string form.
    pub fn to_str(&self) -> (s: String)
        ensures
            s@ == action_text(*self),
    {
        match self {
            DeploymentAction::Switch => String::from_str("switch"),
            DeploymentAction::Boot => String::from_str("boot"),
            DeploymentAction::Test => String::from_str("test"),
            DeploymentAction::DryRun => String::from_str("dry-run"),
            DeploymentAction::Build => String::from_str("build"),
        }
    }

    /// Parses a CLI `--action <...>` value without regard to case, or `None`
    /// when unrecognised.
    pub fn parse(s: &str) -> (r: Option<DeploymentAction>)
        ensures
            r == action_named(lowercase_of(s@)),
            crate::text::all_ascii(s@) ==> r == action_named(crate::text::ascii_lower_seq(s@)),
    {
        let lowered = to_lowercase(s);
        Self::from_lowercased(lowered.as_str())
    }

    /// The action named by an already lower-cased value, or `None`.
    pub fn from_lowercased(lowered: &str) -> (r: Option<DeploymentAction>)
        ensures
            r == action_named(lowered@),
    {
        proof {
            reveal_strlit("switch");
            reveal_strlit("boot");
            reveal_strlit("test");
            reveal_strlit("dry-run");
            reveal_strlit("build");
        }
        if crate::text::str_eq(lowered, "switch") {
            Some(DeploymentAction::Switch)
        } else if crate::text::str_eq(lowered, "boot") {
            Some(DeploymentAction::Boot)
        } else if crate::text::str_eq(lowered, "test") {
            Some(DeploymentAction::Test)
        } else if crate::text::str_eq(lowered, "dry-run") {
            Some(DeploymentAction::DryRun)
        } else if crate::text::str_eq(lowered, "build") {
            Some(DeploymentAction::Build)
        } else {
            None
        }
    }
}

/// Every action's canonical name reads back as that action, in any ASCII
/// letter case: the name is ASCII and already lower-case, and every ASCII
/// spelling that lower-cases to it names the same action.
pub proof fn lemma_action_text_round_trip(a: DeploymentAction)
    ensures
        action_named(action_text(a)) == Some(a),
        crate::text::all_ascii(action_text(a)),
        crate::text::ascii_lower_seq(action_text(a)) == action_text(a),
        forall|s: Seq<char>|
            crate::text::ascii_lower_seq(s) == action_text(a) ==> #[trigger] action_named(
                crate::text::ascii_lower_seq(s),
            ) == Some(a),
{
    reveal_strlit("switch");
    reveal_strlit("boot");
    reveal_strlit("test");
    reveal_strlit("dry-run");
    reveal_strlit("build");
    assert("switch"@.len() == 6 && "boot"@.len() == 4 && "test"@.len() == 4);
    assert("dry-run"@.len() == 7 && "build"@.len() == 5);
    assert("test"@[0] != "boot"@[0]);
}

/// Fleet rollout strategy: the ordering spine for concurrency.
#[derive(Debug, Clone, Copy, PartialEq, Eq, Structural)]
pub enum RolloutStrategy {
    /// Every host at once, bounded by the concurrency budget.
    All,
    /// Warm one host first, observe it, then run the remainder.
    Canary,
    /// Fixed-size waves (`batch_size` from the options).
    Batch,
}

/// The strategy an already lower-cased name denotes, if any.
pub open spec fn strategy_named(lowered: Seq<char>) -> Option<RolloutStrategy> {
    if lowered == "all"@ {
        Some(RolloutStrategy::All)
    } else if lowered == "canary"@ {
        Some(RolloutStrategy::Canary)
    } else if lowered == "batch"@ {
        Some(RolloutStrategy::Batch)
    } else {
        None
    }
}

impl RolloutStrategy {
    /// Parses a CLI `--strategy <all|canary|batch>` value without regard to
    /// case, or `None`.
    pub fn parse(s: &str) -> (r: Option<RolloutStrategy>)
        ensures
            r == strategy_named(lowercase_of(s@)),
            crate::text::all_ascii(s@) ==> r == strategy_named(crate::text::ascii_lower_seq(s@)),
    {
        let lowered = to_lowercase(s);
        Self::from_lowercased(lowered.as_str())
    }

    /// The strategy named by an already lower-cased value, or `None`.
    pub fn from_lowercased(lowered: &str) -> (r: Option<RolloutStrategy>)
        ensures
            r == strategy_named(lowered@),
    {
        proof {
            reveal_strlit("all");
            reveal_strlit("canary");
            reveal_strlit("batch");
        }
        if crate::text::str_eq(lowered, "all") {
            Some(RolloutStrategy::All)
        } else if crate::text::str_eq(lowered, "canary") {
            Some(RolloutStrategy::Canary)
        } else if crate::text::str_eq(lowered, "batch") {
            Some(RolloutStrategy::Batch)
        } else {
            None
        }
    }
}

/// Per-run deployment policy: concurrency, strategy, recovery, dry-run.
#[derive(Debug, Clone, PartialEq, Eq)]
pub struct DeploymentOptions {
    /// Maximum in-flight hosts.
    pub concurrency: usize,
    /// Rollout strategy (`All`, `Canary`, `Batch`).
    pub strategy: RolloutStrategy,
    /// Wave size for `Batch` and `Canary`; 0 means one wave per level.
    pub batch_size: usize,
    /// Abort the whole run on the first failure.
    pub fail_fast: bool,
    /// Attempt a rollback before failing a host.
    pub auto_rollback: bool,
    /// Preview only: never reach the switch command.
    pub dry_run: bool,
    /// Per-target action for `--action`.
    pub action: DeploymentAction,
    /// Emit per-step detail.
    pub verbose: bool,
    /// Optional symlink target for build closures (`nod build --out-link`).
    pub out_link: Option<String>,
    /// Optional builder fleet host on which to compile closures remotely
    /// (`nod build --builder`); `None` for a plain local build.
    pub builder: Option<BuilderHost>,
}

impl DeploymentOptions {
    /// The default policy with `action`: concurrency 4, `Batch` strategy
    /// with batch size 0, fail-fast and auto-rollback on, no dry run, quiet,
    /// no out-link and no builder.
    pub open spec fn is_default_for(self, action: DeploymentAction) -> bool {
        &&& self.concurrency == 4
        &&& self.strategy == RolloutStrategy::Batch
        &&& self.batch_size == 0
        &&& self.fail_fast
        &&& self.auto_rollback
        &&& !self.dry_run
        &&& self.action == action
        &&& !self.verbose
        &&& self.out_link is None
        &&& self.builder is None
    }

    /// Conservative defaults: "batch by default".
    pub fn default_policy() -> (o: DeploymentOptions)
        ensures
            o.is_default_for(DeploymentAction::Switch),
    {
        DeploymentOptions {
            concurrency: 4,
            strategy: RolloutStrategy::Batch,
            batch_size: 0,
            fail_fast: true,
            auto_rollback: true,
            dry_run: false,
            action: DeploymentAction::Switch,
            verbose: false,
            out_link: None,
            builder: None,
        }
    }

    /// `default_policy` for the given `action`.
    pub fn default_for(action: DeploymentAction) -> (o: DeploymentOptions)
        ensures
            o.is_default_for(action),
    {
        let mut options = Self::default_policy();
        options.action = action;
        options
    }

    /// Returns `true` when no host should be activated.
    pub fn is_dry_run(&self) -> (r: bool)
        ensures
            r == (self.dry_run || self.action == DeploymentAction::DryRun),
    {
        self.dry_run || self.action == DeploymentAction::DryRun
    }
}

/// A single host's current/new closure pair (built without activating).
#[derive(Debug, Clone, PartialEq, Eq)]
pub struct TargetDiff {
    /// Host the diff belongs to.
    pub host_name: String,
    /// The currently-live system closure, when known.
    pub current_closure: Option<String>,
    /// The freshly built / staged closure.
    pub new_closure: String,
    /// True when the two closures differ (or current is unknown).
    pub changed: bool,
}

/// One staged target within a [`DeploymentPlan`].
#[derive(Debug, Clone, PartialEq, Eq)]
pub struct TargetPlan {
    /// Host name (matches a `HostEntity.name`).
    pub host_name: String,
    /// The action this target will take.
    pub action: DeploymentAction,
    /// The freshly-built toplevel closure, when built.
    pub new_closure: Option<String>,
    /// The live/current closure, when discoverable.
    pub current_closure: Option<String>,
    /// Hosts that must be deployed before this target.
    pub depends_on: Vec<String>,
}

/// A full, ordered deployment preview.
#[derive(Debug, Clone, PartialEq, Eq)]
pub struct DeploymentPlan {
    /// Staged targets, in precedence order.
    pub targets: Vec<TargetPlan>,
    /// The policy shape the plan was constructed with.
    pub options: DeploymentOptions,
}

/// `i` is the last position of `name` in `names`.
pub open spec fn is_last_index(names: Seq<Seq<char>>, name: Seq<char>, i: int) -> bool {
    &&& 0 <= i < names.len()
    &&& names[i] == name
    &&& forall|j: int| i < j < names.len() ==> names[j] != name
}

/// The dependency list a host contributes to a plan: `rollout.depends_on`
/// when it is non-empty, else the top-level `depends_on`.
pub open spec fn host_dependencies(host: HostEntity) -> Seq<Seq<char>> {
    if host.nod_config.rollout.depends_on@.len() > 0 {
        views(host.nod_config.rollout.depends_on@)
    } else {
        views(host.nod_config.depends_on@)
    }
}

/// The text of the error a plan with a dependency cycle is refused with.
pub open spec fn cycle_text(unresolved: Seq<Seq<char>>) -> Seq<char> {
    "cyclic dependency detected in deployment plan involving hosts: "@ + joined(unresolved, ", "@)
}

impl DeploymentPlan {
    /// The host names of the targets, in order.
    pub open spec fn host_names(self) -> Seq<Seq<char>> {
        self.targets@.map_values(|t: TargetPlan| t.host_name@)
    }

    /// Target `u` must be deployed before target `v`.
    pub open spec fn depends(self, u: usize, v: usize) -> bool {
        &&& u != v
        &&& v < self.targets@.len()
        &&& exists|j: int|
            0 <= j < self.targets@[v as int].depends_on@.len() && #[trigger] is_last_index(
                self.host_names(),
                self.targets@[v as int].depends_on@[j]@,
                u as int,
            )
    }

    /// The dependency relation of the plan.
    pub open spec fn dependency(self) -> spec_fn(usize, usize) -> bool {
        |u: usize, v: usize| self.depends(u, v)
    }

    /// No target lies on or behind a dependency cycle.
    pub open spec fn is_acyclic(self) -> bool {
        forall|v: usize| v < self.targets.len() ==> #[trigger] resolvable(self.dependency(), self.targets.len(), v)
    }

    /// The topological levels of the plan's targets.
    pub open spec fn levels(self) -> Seq<Seq<usize>> {
        levels_of(self.dependency(), self.targets.len())
    }

    /// The names of the targets among the first `i` that lie on or behind a
    /// dependency cycle, in target order.
    pub open spec fn unresolved_upto(self, i: int) -> Seq<Seq<char>>
        decreases i,
    {
        if i <= 0 {
            Seq::empty()
        } else {
            let prev = self.unresolved_upto(i - 1);
            if resolvable(self.dependency(), self.targets.len(), (i - 1) as usize) {
                prev
            } else {
                prev.push(self.targets@[i - 1].host_name@)
            }
        }
    }

    /// The names of all targets that lie on or behind a dependency cycle.
    pub open spec fn unresolved_hosts(self) -> Seq<Seq<char>> {
        self.unresolved_upto(self.targets@.len() as int)
    }

    /// Returns the number of staged targets.
    pub fn size(&self) -> (r: usize)
        ensures
            r == self.targets@.len(),
    {
        self.targets.len()
    }

    /// Builds a plan for `hosts` without resolving closures (dry-run /
    /// preview): every target carries `action`, no closures, and the host's
    /// dependencies; the options are `default_for(action)`.
    pub fn from_hosts(hosts: Vec<HostEntity>, action: DeploymentAction) -> (p: DeploymentPlan)
        ensures
            p.targets@.len() == hosts@.len(),
            forall|i: int| 0 <= i < hosts@.len() ==> {
                let t = #[trigger] p.targets@[i];
                &&& t.host_name@ == hosts@[i].name@
                &&& t.action == action
                &&& t.new_closure is None
                &&& t.current_closure is None
                &&& views(t.depends_on@) == host_dependencies(hosts@[i])
            },
            p.options.is_default_for(action),
    {
        let mut targets: Vec<TargetPlan> = Vec::new();
        let mut i: usize = 0;
        while i < hosts.len()
            invariant
                i <= hosts@.len(),
                targets@.len() == i,
                forall|k: int| 0 <= k < i ==> {
                    let t = #[trigger] targets@[k];
                    &&& t.host_name@ == hosts@[k].name@
                    &&& t.action == action
                    &&& t.new_closure is None
                    &&& t.current_closure is None
                    &&& views(t.depends_on@) == host_dependencies(hosts@[k])
                },
            decreases hosts@.len() - i,
        {
            let host = &hosts[i];
            let depends_on = if host.nod_config.rollout.depends_on.len() > 0 {
                clone_strings(&host.nod_config.rollout.depends_on)
            } else {
                clone_strings(&host.nod_config.depends_on)
            };
            targets.push(
                TargetPlan {
                    host_name: host.name.clone(),
                    action,
                    new_closure: None,
                    current_closure: None,
                    depends_on,
                },
            );
            i += 1;
        }
        DeploymentPlan { targets, options: DeploymentOptions::default_for(action) }
    }

    /// The position of the last target named `name`, if any.
    fn last_index_of(&self, name: &String) -> (r: Option<usize>)
        ensures
            r matches Some(i) ==> is_last_index(self.host_names(), name@, i as int),
            r is None ==> forall|j: int| 0 <= j < self.targets@.len() ==> self.targets@[j].host_name@ != name@,
    {
        let mut i: usize = self.targets.len();
        while i > 0
            invariant
                i <= self.targets@.len(),
                forall|j: int| i <= j < self.targets@.len() ==> self.targets@[j].host_name@ != name@,
            decreases i,
        {
            i -= 1;
            if crate::text::str_eq(self.targets[i].host_name.as_str(), name.as_str()) {
                return Some(i);
            }
        }
        None
    }

    /// For every target, the positions of the targets it depends on.
    fn predecessor_lists(&self) -> (preds: Vec<Vec<usize>>)
        ensures
            preds@.len() == self.targets@.len(),
            forall|v: usize, j: int|
                v < preds@.len() && 0 <= j < preds@[v as int]@.len() ==> #[trigger] preds@[v as int]@[j] < preds@.len(),
            forall|u: usize, v: usize|
                u < preds@.len() && v < preds@.len() ==> (#[trigger] self.depends(u, v)
                    <==> preds@[v as int]@.contains(u)),
    {
        let n = self.targets.len();
        let mut preds: Vec<Vec<usize>> = Vec::new();
        let mut v: usize = 0;
        while v < n
            invariant
                n == self.targets@.len(),
                v <= n,
                preds@.len() == v,
                forall|w: usize, j: int|
                    w < preds@.len() && 0 <= j < preds@[w as int]@.len() ==> #[trigger] preds@[w as int]@[j] < n,
                forall|u: usize, w: usize|
                    u < n && w < v ==> (#[trigger] self.depends(u, w) <==> preds@[w as int]@.contains(u)),
            decreases n - v,
        {
            let deps = &self.targets[v].depends_on;
            let mut list: Vec<usize> = Vec::new();
            let mut j: usize = 0;
            while j < deps.len()
                invariant
                    n == self.targets@.len(),
                    v < n,
                    *deps == self.targets@[v as int].depends_on,
                    j <= deps@.len(),
                    forall|k: int| 0 <= k < list@.len() ==> #[trigger] list@[k] < n,
                    forall|u: usize| u < n ==> (#[trigger] list@.contains(u) <==> (u != v && exists|k: int|
                        0 <= k < j && #[trigger] is_last_index(self.host_names(), deps@[k]@, u as int))),
                decreases deps@.len() - j,
            {
                let found = self.last_index_of(&deps[j]);
                let ghost before = list@;
                match found {
                    Some(u) => {
                        if u != v {
                            list.push(u);
                        }
                    },
                    None => {},
                }
                proof {
                    assert forall|x: usize| x < n implies (#[trigger] list@.contains(x) <==> (x != v && exists|k: int|
                        0 <= k < j + 1 && #[trigger] is_last_index(self.host_names(), deps@[k]@, x as int))) by {
                        crate::levels::lemma_push_contains(before, if found is Some { found->0 } else { 0 }, x);
                        if exists|k: int| 0 <= k < j + 1 && #[trigger] is_last_index(self.host_names(), deps@[k]@, x as int) {
                            let k = choose|k: int| 0 <= k < j + 1 && #[trigger] is_last_index(self.host_names(), deps@[k]@, x as int);
                            if k == j {
                                if found is None {
                                    assert(self.host_names()[x as int] == self.targets@[x as int].host_name@);
                                }
                                if let Some(u) = found {
                                    if u != x {
                                        assert(self.host_names()[x as int] == deps@[k]@);
                                        assert(self.host_names()[u as int] == deps@[k]@);
                                    }
                                }
                            }
                        }
                    }
                }
                j += 1;
            }
            let ghost lv = list@;
            preds.push(list);
            proof {
                assert forall|u: usize, w: usize| u < n && w < v + 1 implies (#[trigger] self.depends(u, w)
                    <==> preds@[w as int]@.contains(u)) by {
                    if w == v {
                        assert(preds@[w as int]@ == lv);
                        if lv.contains(u) {
                            let k = choose|k: int| 0 <= k < deps@.len() && #[trigger] is_last_index(self.host_names(), deps@[k]@, u as int);
                            assert(is_last_index(self.host_names(), self.targets@[v as int].depends_on@[k]@, u as int));
                        }
                    }
                }
            }
            v += 1;
        }
        preds
    }

    /// Partitions target indices into topological levels based on
    /// `depends_on`: level 0 holds the targets without dependencies in
    /// ascending order, and each further level the targets whose last
    /// dependency sits in the level before, ordered by the position of that
    /// dependency and then by index. A plan with a dependency cycle is
    /// refused with a configuration error naming every target on or behind
    /// a cycle.
    pub fn topological_levels(&self) -> (r: Result<Vec<Vec<usize>>, NodError>)
        ensures
            match r {
                Ok(levels) => {
                    &&& self.is_acyclic()
                    &&& nested(levels@) == self.levels()
                    &&& are_levels(self.dependency(), self.targets.len(), nested(levels@))
                },
                Err(e) => {
                    &&& !self.is_acyclic()
                    &&& e.is(ErrorClass::Config, cycle_text(self.unresolved_hosts()))
                },
            },
    {
        let ghost rel = self.dependency();
        let count = self.targets.len();
        if count == 0 {
            let empty: Vec<Vec<usize>> = Vec::new();
            proof {
                assert(nested(empty@) =~= Seq::<Seq<usize>>::empty());
                assert(are_levels(rel, count, nested(empty@)));
                crate::levels::lemma_are_levels_is_levels_of(rel, count, nested(empty@));
            }
            return Ok(empty);
        }
        let preds = self.predecessor_lists();
        let (levels, done) = topological_layers(&preds, Ghost(rel));
        let mut unresolved: Vec<String> = Vec::new();
        let mut i: usize = 0;
        while i < count
            invariant
                count == self.targets@.len(),
                rel == self.dependency(),
                done@.len() == count,
                forall|v: usize| v < count ==> (#[trigger] done@[v as int] <==> resolvable(rel, count, v)),
                i <= count,
                views(unresolved@) == self.unresolved_upto(i as int),
                unresolved@.len() == 0 <==> forall|v: usize| v < i ==> #[trigger] resolvable(rel, count, v),
            decreases count - i,
        {
            if !done[i] {
                unresolved.push(self.targets[i].host_name.clone());
                proof {
                    assert(views(unresolved@) =~= self.unresolved_upto(i as int).push(self.targets@[i as int].host_name@));
                }
            }
            i += 1;
        }
        if unresolved.len() > 0 {
            let mut detail = String::from_str("cyclic dependency detected in deployment plan involving hosts: ");
            let names = join(&unresolved, ", ");
            detail.append(names.as_str());
            proof {
                reveal_strlit(", ");
            }
            return Err(NodError::of_class(ErrorClass::Config, detail));
        }
        Ok(levels)
    }
}

/// `s` cut into consecutive slices of `size` items; the last slice holds
/// what is left.
pub open spec fn chunks(s: Seq<usize>, size: nat) -> Seq<Seq<usize>>
    decreases s.len(),
{
    if s.len() == 0 || size == 0 {
        Seq::empty()
    } else if s.len() <= size {
        seq![s]
    } else {
        seq![s.take(size as int)] + chunks(s.skip(size as int), size)
    }
}

/// The slice size a level of `count` targets is cut into: the batch size,
/// or the whole level when the batch size is 0.
pub open spec fn slice_size(batch: nat, count: nat) -> nat {
    if batch == 0 {
        count
    } else {
        batch
    }
}

/// The waves one level contributes under `strategy`; `first` tells whether
/// no earlier level contributed any. `Canary` sends the first target of the
/// first level alone, then the rest of that level in slices.
pub open spec fn level_waves(strategy: RolloutStrategy, batch: nat, level: Seq<usize>, first: bool) -> Seq<Seq<usize>> {
    if level.len() == 0 {
        Seq::empty()
    } else {
        match strategy {
            RolloutStrategy::All => seq![level],
            RolloutStrategy::Batch => chunks(level, slice_size(batch, level.len())),
            RolloutStrategy::Canary => if first {
                seq![seq![level[0]]] + chunks(level.skip(1), slice_size(batch, (level.len() - 1) as nat))
            } else {
                chunks(level, slice_size(batch, level.len()))
            },
        }
    }
}

/// Every level in `levels` is empty.
pub open spec fn all_empty(levels: Seq<Seq<usize>>) -> bool {
    forall|k: int| 0 <= k < levels.len() ==> #[trigger] levels[k].len() == 0
}

/// The rollout waves of `levels` under `strategy`, level by level.
pub open spec fn waves_of(strategy: RolloutStrategy, batch: nat, levels: Seq<Seq<usize>>) -> Seq<Seq<usize>>
    decreases levels.len(),
{
    if levels.len() == 0 {
        Seq::empty()
    } else {
        waves_of(strategy, batch, levels.drop_last()) + level_waves(
            strategy,
            batch,
            levels.last(),
            all_empty(levels.drop_last()),
        )
    }
}

impl DeploymentPlan {
    /// Appends the slices of `items[start..]` of length `size` to `waves`.
    fn append_slices_from_vec(waves: &mut Vec<Vec<usize>>, items: &Vec<usize>, start: usize, size: usize)
        requires
            size > 0,
            start <= items@.len(),
        ensures
            nested(final(waves)@) == nested(old(waves)@) + chunks(items@.skip(start as int), size as nat),
    {
        let total = items.len();
        let mut first = start;
        let ghost base = nested(waves@);
        while first < total
            invariant
                total == items@.len(),
                size > 0,
                start <= first <= total,
                nested(waves@) + chunks(items@.skip(first as int), size as nat) == base + chunks(
                    items@.skip(start as int),
                    size as nat,
                ),
            decreases total - first,
        {
            let mut wave: Vec<usize> = Vec::new();
            let mut i = first;
            let mut taken: usize = 0;
            while i < total && taken < size
                invariant
                    total == items@.len(),
                    first <= i <= total,
                    taken == i - first,
                    taken <= size,
                    wave@ == items@.subrange(first as int, i as int),
                decreases total - i,
            {
                wave.push(items[i]);
                i += 1;
                taken += 1;
            }
            let ghost rest = items@.skip(first as int);
            proof {
                assert(wave@ =~= if rest.len() <= size { rest } else { rest.take(size as int) });
                assert(items@.skip(i as int) =~= rest.skip(size as int) || i == total);
                if rest.len() <= size {
                    assert(items@.skip(i as int) =~= Seq::<usize>::empty());
                } else {
                    assert(items@.skip(i as int) =~= rest.skip(size as int));
                }
            }
            let ghost before = nested(waves@);
            waves.push(wave);
            proof {
                assert(nested(waves@) =~= before.push(wave@));
                assert(chunks(rest, size as nat) =~= seq![wave@] + chunks(items@.skip(i as int), size as nat));
                assert(nested(waves@) + chunks(items@.skip(i as int), size as nat) =~= before + chunks(rest, size as nat));
            }
            first = i;
        }
        proof {
            assert(items@.skip(first as int) =~= Seq::<usize>::empty());
            assert(nested(waves@) + Seq::<Seq<usize>>::empty() =~= nested(waves@));
        }
    }

    /// Partitions target indices into rollout waves for the active strategy,
    /// level by level (see [`waves_of`]). A plan with a dependency cycle is
    /// refused as [`topological_levels`](Self::topological_levels) refuses it.
    pub fn wave_indices(&self) -> (r: Result<Vec<Vec<usize>>, NodError>)
        ensures
            match r {
                Ok(waves) => {
                    &&& self.is_acyclic()
                    &&& are_levels(self.dependency(), self.targets.len(), self.levels())
                    &&& nested(waves@) == waves_of(self.options.strategy, self.options.batch_size as nat, self.levels())
                },
                Err(e) => {
                    &&& !self.is_acyclic()
                    &&& e.is(ErrorClass::Config, cycle_text(self.unresolved_hosts()))
                },
            },
    {
        let levels = match self.topological_levels() {
            Ok(levels) => levels,
            Err(e) => return Err(e),
        };
        let batch_size = self.options.batch_size;
        let strategy = self.options.strategy;
        let ghost lv = nested(levels@);
        let mut waves: Vec<Vec<usize>> = Vec::new();
        let mut is_first_level = true;
        let mut k: usize = 0;
        while k < levels.len()
            invariant
                lv == nested(levels@),
                k <= levels@.len(),
                is_first_level == all_empty(lv.take(k as int)),
                nested(waves@) == waves_of(strategy, batch_size as nat, lv.take(k as int)),
            decreases levels@.len() - k,
        {
            let level = &levels[k];
            let count = level.len();
            let ghost before = nested(waves@);
            proof {
                assert(lv.take(k as int + 1).drop_last() =~= lv.take(k as int));
                assert(lv.take(k as int + 1).last() == level@);
            }
            if count > 0 {
                match strategy {
                    RolloutStrategy::Canary => {
                        if is_first_level {
                            let mut canary: Vec<usize> = Vec::new();
                            canary.push(level[0]);
                            waves.push(canary);
                            proof {
                                assert(nested(waves@) =~= before.push(seq![level@[0]]));
                            }
                            if count > 1 {
                                let size = if batch_size == 0 { count - 1 } else { batch_size };
                                Self::append_slices_from_vec(&mut waves, level, 1, size);
                            } else {
                                proof {
                                    assert(level@.skip(1) =~= Seq::<usize>::empty());
                                }
                            }
                        } else {
                            let size = if batch_size == 0 { count } else { batch_size };
                            Self::append_slices_from_vec(&mut waves, level, 0, size);
                            proof {
                                assert(level@.skip(0) =~= level@);
                            }
                        }
                    },
                    RolloutStrategy::Batch => {
                        let size = if batch_size == 0 { count } else { batch_size };
                        Self::append_slices_from_vec(&mut waves, level, 0, size);
                        proof {
                            assert(level@.skip(0) =~= level@);
                        }
                    },
                    RolloutStrategy::All => {
                        waves.push(level.clone());
                        proof {
                            assert(nested(waves@) =~= before.push(level@));
                        }
                    },
                }
                is_first_level = false;
            }
            proof {
                let t = lv.take(k as int + 1);
                if count > 0 {
                    assert(!all_empty(t)) by {
                        assert(t[k as int].len() > 0);
                    }
                } else {
                    assert(all_empty(t) == all_empty(lv.take(k as int))) by {
                        if all_empty(lv.take(k as int)) {
                            assert forall|j: int| 0 <= j < t.len() implies #[trigger] t[j].len() == 0 by {
                                if j < k {
                                    assert(t[j] == lv.take(k as int)[j]);
                                }
                            }
                        }
                        if all_empty(t) {
                            assert forall|j: int| 0 <= j < k implies #[trigger] lv.take(k as int)[j].len() == 0 by {
                                assert(t[j] == lv.take(k as int)[j]);
                            }
                        }
                    }
                }
                assert(nested(waves@) =~= waves_of(strategy, batch_size as nat, t));
            }
            k += 1;
        }
        proof {
            assert(lv.take(levels@.len() as int) =~= lv);
        }
        Ok(waves)
    }
}

/// `x` occurs in the concatenation of `s` exactly when it occurs in one of
/// the pieces.
pub proof fn lemma_flatten_contains(s: Seq<Seq<usize>>, x: usize)
    ensures
        s.flatten().contains(x) <==> exists|i: int| 0 <= i < s.len() && #[trigger] s[i].contains(x),
    decreases s.len(),
{
    if s.len() > 0 {
        let rest = s.drop_first();
        lemma_flatten_contains(rest, x);
        let f = s.flatten();
        assert(f == s[0] + rest.flatten());
        if f.contains(x) {
            let p = choose|p: int| 0 <= p < f.len() && f[p] == x;
            if p < s[0].len() {
                assert(s[0][p] == x);
                assert(s[0].contains(x));
            } else {
                assert(rest.flatten()[p - s[0].len()] == x);
                let i = choose|i: int| 0 <= i < rest.len() && #[trigger] rest[i].contains(x);
                assert(s[i + 1].contains(x));
            }
        }
        if exists|i: int| 0 <= i < s.len() && #[trigger] s[i].contains(x) {
            let i = choose|i: int| 0 <= i < s.len() && #[trigger] s[i].contains(x);
            if i == 0 {
                let p = choose|p: int| 0 <= p < s[0].len() && s[0][p] == x;
                assert(f[p] == x);
            } else {
                assert(rest[i - 1].contains(x));
                assert(rest.flatten().contains(x));
                let p = choose|p: int| 0 <= p < rest.flatten().len() && rest.flatten()[p] == x;
                assert(f[p + s[0].len()] == x);
            }
        }
    }
}

/// Cutting a sequence into slices and concatenating them gives it back;
/// every slice is non-empty and no longer than `size`.
pub proof fn lemma_chunks(s: Seq<usize>, size: nat)
    requires
        size > 0 || s.len() == 0,
    ensures
        chunks(s, size).flatten() == s,
        forall|i: int| 0 <= i < chunks(s, size).len() ==> 0 < #[trigger] chunks(s, size)[i].len() <= size,
    decreases s.len(),
{
    if s.len() == 0 {
        assert(chunks(s, size) =~= Seq::<Seq<usize>>::empty());
        assert(s =~= Seq::<usize>::empty());
    } else if s.len() <= size {
        seq![s].lemma_flatten_one_element();
    } else {
        let head = s.take(size as int);
        let rest = s.skip(size as int);
        lemma_chunks(rest, size);
        vstd::seq_lib::lemma_flatten_concat(seq![head], chunks(rest, size));
        seq![head].lemma_flatten_one_element();
        assert(head + rest =~= s);
        let c = chunks(s, size);
        assert forall|i: int| 0 <= i < c.len() implies 0 < #[trigger] c[i].len() <= size by {
            if i > 0 {
                assert(c[i] == chunks(rest, size)[i - 1]);
            }
        }
    }
}

/// The waves of one level hold exactly that level's targets, in order.
pub proof fn lemma_level_waves_flatten(strategy: RolloutStrategy, batch: nat, level: Seq<usize>, first: bool)
    ensures
        level_waves(strategy, batch, level, first).flatten() == level,
{
    if level.len() == 0 {
        assert(level_waves(strategy, batch, level, first) =~= Seq::<Seq<usize>>::empty());
        assert(level =~= Seq::<usize>::empty());
    } else {
        match strategy {
            RolloutStrategy::All => {
                seq![level].lemma_flatten_one_element();
            },
            RolloutStrategy::Batch => {
                lemma_chunks(level, slice_size(batch, level.len()));
            },
            RolloutStrategy::Canary => {
                if first {
                    let rest = level.skip(1);
                    lemma_chunks(rest, slice_size(batch, (level.len() - 1) as nat));
                    vstd::seq_lib::lemma_flatten_concat(seq![seq![level[0]]], chunks(rest, slice_size(batch, (level.len() - 1) as nat)));
                    seq![seq![level[0]]].lemma_flatten_one_element();
                    assert(seq![level[0]] + rest =~= level);
                } else {
                    lemma_chunks(level, slice_size(batch, level.len()));
                }
            },
        }
    }
}

/// Every rollout wave is non-empty; under `Batch` and `Canary` with a
/// non-zero batch size no wave holds more than `batch` targets.
pub proof fn lemma_wave_sizes(strategy: RolloutStrategy, batch: nat, levels: Seq<Seq<usize>>)
    ensures
        forall|i: int| 0 <= i < waves_of(strategy, batch, levels).len() ==> {
            let w = #[trigger] waves_of(strategy, batch, levels)[i];
            &&& w.len() > 0
            &&& (strategy != RolloutStrategy::All && batch > 0 ==> w.len() <= batch)
        },
    decreases levels.len(),
{
    if levels.len() > 0 {
        let prev = levels.drop_last();
        let level = levels.last();
        let first = all_empty(prev);
        lemma_wave_sizes(strategy, batch, prev);
        let a = waves_of(strategy, batch, prev);
        let b = level_waves(strategy, batch, level, first);
        if level.len() > 0 {
            match strategy {
                RolloutStrategy::All => {},
                RolloutStrategy::Batch => {
                    lemma_chunks(level, slice_size(batch, level.len()));
                },
                RolloutStrategy::Canary => {
                    if first {
                        lemma_chunks(level.skip(1), slice_size(batch, (level.len() - 1) as nat));
                        let c = chunks(level.skip(1), slice_size(batch, (level.len() - 1) as nat));
                        assert forall|i: int| 0 <= i < b.len() implies 0 < #[trigger] b[i].len() && (batch > 0 ==> b[i].len() <= batch) by {
                            if i > 0 {
                                assert(b[i] == c[i - 1]);
                            }
                        }
                    } else {
                        lemma_chunks(level, slice_size(batch, level.len()));
                    }
                },
            }
        }
        let w = waves_of(strategy, batch, levels);
        assert forall|i: int| 0 <= i < w.len() implies {
            let x = #[trigger] w[i];
            &&& x.len() > 0
            &&& (strategy != RolloutStrategy::All && batch > 0 ==> x.len() <= batch)
        } by {
            if i < a.len() {
                assert(w[i] == a[i]);
            } else {
                assert(w[i] == b[i - a.len()]);
            }
        }
    }
}

/// Under `Canary`, the first wave holds the first target of the first level
/// alone.
pub proof fn lemma_canary_first_wave(batch: nat, levels: Seq<Seq<usize>>)
    requires
        levels.len() > 0,
        levels[0].len() > 0,
    ensures
        waves_of(RolloutStrategy::Canary, batch, levels).len() > 0,
        waves_of(RolloutStrategy::Canary, batch, levels)[0] == seq![levels[0][0]],
    decreases levels.len(),
{
    let prev = levels.drop_last();
    let a = waves_of(RolloutStrategy::Canary, batch, prev);
    let b = level_waves(RolloutStrategy::Canary, batch, levels.last(), all_empty(prev));
    let w = waves_of(RolloutStrategy::Canary, batch, levels);
    assert(w == a + b);
    if levels.len() == 1 {
        assert(prev =~= Seq::<Seq<usize>>::empty());
        assert(all_empty(prev));
        assert(a =~= Seq::<Seq<usize>>::empty());
        assert(b[0] == seq![levels[0][0]]);
        assert(w[0] == b[0]);
    } else {
        lemma_canary_first_wave(batch, prev);
        assert(w[0] == a[0]);
    }
}

/// The rollout waves hold every target of the levels exactly as the levels
/// list them: concatenated, the waves are the concatenated levels.
pub proof fn lemma_waves_cover_levels(strategy: RolloutStrategy, batch: nat, levels: Seq<Seq<usize>>)
    ensures
        waves_of(strategy, batch, levels).flatten() == levels.flatten(),
    decreases levels.len(),
{
    if levels.len() > 0 {
        let prev = levels.drop_last();
        let level = levels.last();
        lemma_waves_cover_levels(strategy, batch, prev);
        lemma_level_waves_flatten(strategy, batch, level, all_empty(prev));
        vstd::seq_lib::lemma_flatten_concat(
            waves_of(strategy, batch, prev),
            level_waves(strategy, batch, level, all_empty(prev)),
        );
        prev.lemma_flatten_push(level);
        assert(prev.push(level) =~= levels);
    }
}

/// The number of waves the first `a` levels give is at most the number the
/// first `b` give, for `a <= b`.
proof fn lemma_waves_prefix_len(strategy: RolloutStrategy, batch: nat, levels: Seq<Seq<usize>>, a: int, b: int)
    requires
        0 <= a <= b <= levels.len(),
    ensures
        waves_of(strategy, batch, levels.take(a)).len() <= waves_of(strategy, batch, levels.take(b)).len(),
    decreases b - a,
{
    if a < b {
        lemma_waves_prefix_len(strategy, batch, levels, a, b - 1);
        assert(levels.take(b).drop_last() =~= levels.take(b - 1));
    }
}

/// Where the targets of the waves come from: a target of wave `i` belongs
/// to a level `k` whose waves start at or before `i`; and every target of
/// level `k` is in a wave among those the first `k + 1` levels give.
proof fn lemma_wave_positions(strategy: RolloutStrategy, batch: nat, levels: Seq<Seq<usize>>)
    ensures
        forall|i: int, x: usize|
            0 <= i < waves_of(strategy, batch, levels).len() && #[trigger] waves_of(strategy, batch, levels)[i].contains(x)
                ==> exists|k: int|
                0 <= k < levels.len() && #[trigger] levels[k].contains(x) && waves_of(strategy, batch, levels.take(k)).len() <= i,
        forall|k: int, x: usize|
            0 <= k < levels.len() && #[trigger] levels[k].contains(x) ==> exists|i: int|
                0 <= i < waves_of(strategy, batch, levels.take(k + 1)).len() && #[trigger] waves_of(strategy, batch, levels)[i].contains(x),
    decreases levels.len(),
{
    let w = waves_of(strategy, batch, levels);
    if levels.len() > 0 {
        let prev = levels.drop_last();
        let level = levels.last();
        let first = all_empty(prev);
        let a = waves_of(strategy, batch, prev);
        let b = level_waves(strategy, batch, level, first);
        let last = levels.len() - 1;
        lemma_wave_positions(strategy, batch, prev);
        lemma_level_waves_flatten(strategy, batch, level, first);
        assert(levels.take(last) =~= prev);
        assert(levels.take(levels.len() as int) =~= levels);
        assert forall|i: int, x: usize|
            0 <= i < w.len() && #[trigger] w[i].contains(x) implies exists|k: int|
                0 <= k < levels.len() && #[trigger] levels[k].contains(x) && waves_of(strategy, batch, levels.take(k)).len() <= i by {
            if i < a.len() {
                assert(w[i] == a[i]);
                assert(a[i].contains(x));
                let k = choose|k: int|
                    0 <= k < prev.len() && #[trigger] prev[k].contains(x) && waves_of(strategy, batch, prev.take(k)).len() <= i;
                assert(prev.take(k) =~= levels.take(k));
                assert(levels[k].contains(x));
            } else {
                assert(w[i] == b[i - a.len()]);
                lemma_flatten_contains(b, x);
                assert(level.contains(x));
                assert(levels[last].contains(x));
            }
        }
        assert forall|k: int, x: usize|
            0 <= k < levels.len() && #[trigger] levels[k].contains(x) implies exists|i: int|
                0 <= i < waves_of(strategy, batch, levels.take(k + 1)).len() && #[trigger] w[i].contains(x) by {
            if k < last {
                assert(prev[k].contains(x));
                let i = choose|i: int|
                    0 <= i < waves_of(strategy, batch, prev.take(k + 1)).len() && #[trigger] a[i].contains(x);
                assert(prev.take(k + 1) =~= levels.take(k + 1));
                lemma_waves_prefix_len(strategy, batch, prev, k + 1, prev.len() as int);
                assert(prev.take(prev.len() as int) =~= prev);
                assert(w[i] == a[i]);
            } else {
                lemma_flatten_contains(b, x);
                let j = choose|j: int| 0 <= j < b.len() && #[trigger] b[j].contains(x);
                assert(w[a.len() + j] == b[j]);
            }
        }
    }
}

/// Rollout waves respect dependencies: every dependency of a target in wave
/// `i` is deployed in a strictly earlier wave.
pub proof fn lemma_waves_respect_dependencies(
    rel: spec_fn(usize, usize) -> bool,
    n: usize,
    levels: Seq<Seq<usize>>,
    strategy: RolloutStrategy,
    batch: nat,
    i: int,
    v: usize,
    u: usize,
)
    requires
        are_levels(rel, n, levels),
        0 <= i < waves_of(strategy, batch, levels).len(),
        waves_of(strategy, batch, levels)[i].contains(v),
        u < n,
        rel(u, v),
    ensures
        exists|j: int| 0 <= j < i && #[trigger] waves_of(strategy, batch, levels)[j].contains(u),
{
    lemma_wave_positions(strategy, batch, levels);
    let k = choose|k: int|
        0 <= k < levels.len() && #[trigger] levels[k].contains(v) && waves_of(strategy, batch, levels.take(k)).len() <= i;
    crate::levels::lemma_dependency_in_earlier_level(rel, n, levels, k, v, u);
    let j = choose|j: int| 0 <= j < k && #[trigger] levels[j].contains(u);
    let i2 = choose|i2: int|
        0 <= i2 < waves_of(strategy, batch, levels.take(j + 1)).len() && #[trigger] waves_of(strategy, batch, levels)[i2].contains(u);
    lemma_waves_prefix_len(strategy, batch, levels, j + 1, k);
}

/// Pieces each free of duplicates and sharing no element concatenate to a
/// sequence free of duplicates.
proof fn lemma_flatten_no_dup(s: Seq<Seq<usize>>)
    requires
        forall|k: int| 0 <= k < s.len() ==> #[trigger] s[k].no_duplicates(),
        forall|a: int, b: int, x: usize|
            #![trigger s[a].contains(x), s[b].contains(x)]
            0 <= a < s.len() && 0 <= b < s.len() && s[a].contains(x) && s[b].contains(x) ==> a == b,
    ensures
        s.flatten().no_duplicates(),
    decreases s.len(),
{
    if s.len() > 0 {
        let prev = s.drop_last();
        let last = s.last();
        assert forall|a: int, b: int, x: usize|
            0 <= a < prev.len() && 0 <= b < prev.len() && #[trigger] prev[a].contains(x) && #[trigger] prev[b].contains(x)
                implies a == b by {
            assert(s[a].contains(x) && s[b].contains(x));
        }
        assert forall|k: int| 0 <= k < prev.len() implies #[trigger] prev[k].no_duplicates() by {
            assert(s[k].no_duplicates());
        }
        lemma_flatten_no_dup(prev);
        assert(s[s.len() - 1].no_duplicates());
        let f = prev.flatten();
        assert forall|i: int, j: int| 0 <= i < f.len() && 0 <= j < last.len() implies f[i] != last[j] by {
            if f[i] == last[j] {
                let x = f[i];
                assert(f.contains(x));
                lemma_flatten_contains(prev, x);
                let a = choose|a: int| 0 <= a < prev.len() && #[trigger] prev[a].contains(x);
                assert(s[a].contains(x));
                assert(last.contains(x));
                assert(s[s.len() - 1].contains(x));
            }
        }
        vstd::seq_lib::lemma_no_dup_in_concat(f, last);
        prev.lemma_flatten_push(last);
        assert(prev.push(last) =~= s);
    }
}

/// The pieces of a duplicate-free concatenation share no element.
proof fn lemma_flatten_no_dup_parts(s: Seq<Seq<usize>>)
    requires
        s.flatten().no_duplicates(),
    ensures
        forall|a: int, b: int, x: usize|
            #![trigger s[a].contains(x), s[b].contains(x)]
            0 <= a < s.len() && 0 <= b < s.len() && s[a].contains(x) && s[b].contains(x) ==> a == b,
    decreases s.len(),
{
    if s.len() > 0 {
        let prev = s.drop_last();
        let last = s.last();
        let f = prev.flatten();
        prev.lemma_flatten_push(last);
        assert(prev.push(last) =~= s);
        assert(s.flatten() == f + last);
        assert(f.no_duplicates()) by {
            assert forall|i: int, j: int| 0 <= i < f.len() && 0 <= j < f.len() && i != j implies f[i] != f[j] by {
                assert(s.flatten()[i] == f[i] && s.flatten()[j] == f[j]);
            }
        }
        lemma_flatten_no_dup_parts(prev);
        assert forall|a: int, b: int, x: usize|
            0 <= a < s.len() && 0 <= b < s.len() && #[trigger] s[a].contains(x) && #[trigger] s[b].contains(x)
                implies a == b by {
            let m = s.len() - 1;
            if a < m && b < m {
                assert(prev[a].contains(x) && prev[b].contains(x));
            } else if a != b {
                let e = if a < m { a } else { b };
                assert(prev[e].contains(x));
                lemma_flatten_contains(prev, x);
                let p = choose|p: int| 0 <= p < f.len() && f[p] == x;
                let q = choose|q: int| 0 <= q < last.len() && last[q] == x;
                assert(s.flatten()[p] == x);
                assert(s.flatten()[f.len() + q] == x);
            }
        }
    }
}

/// A duplicate-free sequence holding exactly the numbers below `n` has `n`
/// items.
proof fn lemma_exact_range_len(s: Seq<usize>, n: usize)
    requires
        s.no_duplicates(),
        forall|i: int| 0 <= i < s.len() ==> #[trigger] s[i] < n,
        forall|v: usize| v < n ==> #[trigger] s.contains(v),
    ensures
        s.len() == n,
    decreases n,
{
    if n == 0 {
        if s.len() > 0 {
            assert(s[0] < n);
        }
    } else {
        let m = (n - 1) as usize;
        assert(s.contains(m));
        let p = choose|p: int| 0 <= p < s.len() && s[p] == m;
        let t = s.remove(p);
        assert forall|i: int| 0 <= i < t.len() implies #[trigger] t[i] < m by {
            if i < p {
                assert(t[i] == s[i]);
                assert(s[i] < n && s[i] != s[p]);
            } else {
                assert(t[i] == s[i + 1]);
                assert(s[i + 1] < n && s[i + 1] != s[p]);
            }
        }
        assert forall|v: usize| v < m implies #[trigger] t.contains(v) by {
            assert(s.contains(v));
            let q = choose|q: int| 0 <= q < s.len() && s[q] == v;
            if q < p {
                assert(t[q] == v);
            } else {
                assert(q != p);
                assert(t[q - 1] == v);
            }
        }
        assert(t.no_duplicates()) by {
            assert forall|i: int, j: int| 0 <= i < t.len() && 0 <= j < t.len() && i != j implies t[i] != t[j] by {
                let si = if i < p { i } else { i + 1 };
                let sj = if j < p { j } else { j + 1 };
                assert(t[i] == s[si] && t[j] == s[sj]);
            }
        }
        lemma_exact_range_len(t, m);
    }
}

/// In a plan without cycles every target is deployed exactly once: the
/// levels and the rollout waves each partition the targets `0..n`. Every
/// target lies in one level and in one wave, in no other, and the waves
/// concatenated list each target once (`n` entries in all).
pub proof fn lemma_waves_partition_targets(
    rel: spec_fn(usize, usize) -> bool,
    n: usize,
    levels: Seq<Seq<usize>>,
    strategy: RolloutStrategy,
    batch: nat,
)
    requires
        are_levels(rel, n, levels),
        forall|v: usize| v < n ==> #[trigger] resolvable(rel, n, v),
    ensures
        ({
            let w = waves_of(strategy, batch, levels);
            &&& forall|v: usize| v < n ==> #[trigger] in_some_part(levels, v) && in_some_part(w, v)
            &&& forall|a: int, b: int, v: usize|
                #![trigger levels[a].contains(v), levels[b].contains(v)]
                0 <= a < levels.len() && 0 <= b < levels.len() && levels[a].contains(v) && levels[b].contains(v) ==> a == b
            &&& forall|a: int, b: int, v: usize|
                #![trigger w[a].contains(v), w[b].contains(v)]
                0 <= a < w.len() && 0 <= b < w.len() && w[a].contains(v) && w[b].contains(v) ==> a == b
            &&& w.flatten() == levels.flatten()
            &&& w.flatten().no_duplicates()
            &&& w.flatten().len() == n
            &&& forall|i: int| 0 <= i < w.flatten().len() ==> #[trigger] w.flatten()[i] < n
        }),
{
    let w = waves_of(strategy, batch, levels);
    let f = levels.flatten();
    crate::levels::lemma_levels_partition(rel, n, levels);
    lemma_waves_cover_levels(strategy, batch, levels);
    assert forall|k: int| 0 <= k < levels.len() implies #[trigger] levels[k].no_duplicates() by {}
    lemma_flatten_no_dup(levels);
    lemma_flatten_no_dup_parts(w);
    assert forall|i: int| 0 <= i < f.len() implies #[trigger] f[i] < n by {
        let x = f[i];
        assert(f.contains(x));
        lemma_flatten_contains(levels, x);
        let k = choose|k: int| 0 <= k < levels.len() && #[trigger] levels[k].contains(x);
        let j = choose|j: int| 0 <= j < levels[k].len() && levels[k][j] == x;
        assert(levels[k][j] < n);
    }
    assert forall|v: usize| v < n implies #[trigger] in_some_part(levels, v) && in_some_part(w, v) by {
        assert(in_some_part(levels, v));
        let k = choose|k: int| 0 <= k < levels.len() && #[trigger] levels[k].contains(v);
        lemma_flatten_contains(levels, v);
        assert(f.contains(v));
        lemma_flatten_contains(w, v);
        let i = choose|i: int| 0 <= i < w.len() && #[trigger] w[i].contains(v);
        assert(w[i].contains(v));
    }
    assert forall|v: usize| v < n implies #[trigger] f.contains(v) by {
        assert(in_some_part(levels, v));
        let k = choose|k: int| 0 <= k < levels.len() && #[trigger] levels[k].contains(v);
        lemma_flatten_contains(levels, v);
    }
    lemma_exact_range_len(f, n);
}

/// The non-empty levels of `levels`, in order.
pub open spec fn nonempty_levels(levels: Seq<Seq<usize>>) -> Seq<Seq<usize>>
    decreases levels.len(),
{
    if levels.len() == 0 {
        Seq::empty()
    } else if levels.last().len() > 0 {
        nonempty_levels(levels.drop_last()).push(levels.last())
    } else {
        nonempty_levels(levels.drop_last())
    }
}

/// The non-empty levels with the first target of the first one split off
/// into a wave of its own (the rest of that level, if any, stays together).
pub open spec fn canary_split(ne: Seq<Seq<usize>>) -> Seq<Seq<usize>> {
    if ne.len() == 0 {
        Seq::empty()
    } else {
        seq![seq![ne[0][0]]] + (if ne[0].len() > 1 {
            seq![ne[0].skip(1)]
        } else {
            Seq::empty()
        }) + ne.skip(1)
    }
}

proof fn lemma_nonempty_levels_empty(levels: Seq<Seq<usize>>)
    ensures
        all_empty(levels) <==> nonempty_levels(levels).len() == 0,
        forall|k: int| 0 <= k < nonempty_levels(levels).len() ==> #[trigger] nonempty_levels(levels)[k].len() > 0,
    decreases levels.len(),
{
    if levels.len() > 0 {
        let prev = levels.drop_last();
        lemma_nonempty_levels_empty(prev);
        if all_empty(levels) {
            assert forall|k: int| 0 <= k < prev.len() implies #[trigger] prev[k].len() == 0 by {
                assert(levels[k] == prev[k]);
            }
            assert(levels[levels.len() - 1].len() == 0);
        }
        if !all_empty(levels) && levels.last().len() == 0 {
            let k = choose|k: int| 0 <= k < levels.len() && #[trigger] levels[k].len() != 0;
            assert(prev[k] == levels[k]);
        }
        if nonempty_levels(levels).len() == 0 {
            assert forall|k: int| 0 <= k < levels.len() implies #[trigger] levels[k].len() == 0 by {
                if k < levels.len() - 1 {
                    assert(levels[k] == prev[k]);
                }
            }
        }
    }
}

/// With batch size 0 no level is ever cut: under `All` and `Batch` every
/// non-empty level is one wave; under `Canary` the first target of the
/// first non-empty level goes alone, the rest of that level follows as one
/// wave, and every later non-empty level is one wave.
pub proof fn lemma_unbatched_waves(levels: Seq<Seq<usize>>)
    ensures
        waves_of(RolloutStrategy::All, 0, levels) == nonempty_levels(levels),
        waves_of(RolloutStrategy::Batch, 0, levels) == nonempty_levels(levels),
        waves_of(RolloutStrategy::Canary, 0, levels) == canary_split(nonempty_levels(levels)),
    decreases levels.len(),
{
    if levels.len() > 0 {
        let prev = levels.drop_last();
        let level = levels.last();
        lemma_unbatched_waves(prev);
        lemma_nonempty_levels_empty(prev);
        let ne = nonempty_levels(prev);
        if level.len() > 0 {
            assert(chunks(level, level.len()) == seq![level]);
            let rest = level.skip(1);
            if rest.len() > 0 {
                assert(chunks(rest, rest.len()) == seq![rest]);
            } else {
                assert(chunks(rest, rest.len()) =~= Seq::<Seq<usize>>::empty());
            }
            let full = ne.push(level);
            assert(nonempty_levels(levels) == full);
            if all_empty(prev) {
                assert(ne.len() == 0);
                assert(canary_split(ne) =~= Seq::<Seq<usize>>::empty());
                assert(full =~= seq![level]);
                assert(full.skip(1) =~= Seq::<Seq<usize>>::empty());
                assert(waves_of(RolloutStrategy::Canary, 0, levels) =~= canary_split(full));
                assert(waves_of(RolloutStrategy::All, 0, levels) =~= full);
                assert(waves_of(RolloutStrategy::Batch, 0, levels) =~= full);
            } else {
                assert(ne.len() > 0);
                assert(full[0] == ne[0]);
                assert(full.skip(1) =~= ne.skip(1).push(level));
                assert(canary_split(full) =~= canary_split(ne).push(level));
                assert(waves_of(RolloutStrategy::Canary, 0, levels) =~= canary_split(full));
                assert(waves_of(RolloutStrategy::All, 0, levels) =~= full);
                assert(waves_of(RolloutStrategy::Batch, 0, levels) =~= full);
            }
        } else {
            assert(level_waves(RolloutStrategy::Canary, 0, level, all_empty(prev)) =~= Seq::<Seq<usize>>::empty());
            assert(waves_of(RolloutStrategy::Canary, 0, levels) =~= waves_of(RolloutStrategy::Canary, 0, prev));
            assert(waves_of(RolloutStrategy::All, 0, levels) =~= waves_of(RolloutStrategy::All, 0, prev));
            assert(waves_of(RolloutStrategy::Batch, 0, levels) =~= waves_of(RolloutStrategy::Batch, 0, prev));
        }
    }
}

} // verus!

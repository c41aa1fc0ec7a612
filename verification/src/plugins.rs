//! The recipe engine's data model: the configuration tree, the per-run
//! `State` with one `RecipeState` per recipe, and the merge rule that
//! gives every recipe its effective globals.

use vstd::prelude::*;
use crate::cloneutil::clone_opt_string;
use crate::effect::{Action, Event, Step};
use crate::error::Error;
use crate::strutil::str_eq;

pub mod apt_repo;
pub mod kexec;
pub mod netplan;
pub mod pkgmgr;
pub mod reboot;
pub mod sys_deploy;
pub mod sysconf;
pub mod tar;
pub mod user;

verus! {

/// The distributions the provisioner knows how to finish.
#[derive(Debug, Clone, Copy, PartialEq, Eq, Structural)]
pub enum Distro {
    Ubuntu,
    Arch,
    Debian,
    Fedora,
    Alpine,
}

/// Settings shared by every recipe unless overridden.
#[derive(Debug, Clone, Copy, PartialEq, Eq, Structural)]
pub struct Globals {
    pub distro_hint: Option<Distro>,
}

/// The merge rule for effective globals: per field, the override wins
/// when present, the outer value fills the gaps, and a field missing in
/// both stays absent.
pub open spec fn spec_effective_globals(
    global: Option<Globals>,
    overrides: Option<Globals>,
) -> Globals {
    match (global, overrides) {
        (Some(g), Some(o)) => Globals {
            distro_hint: if o.distro_hint is Some {
                o.distro_hint
            } else {
                g.distro_hint
            },
        },
        (Some(g), None) => g,
        (None, Some(o)) => o,
        (None, None) => Globals { distro_hint: None },
    }
}

/// For any globals and any overrides, the merged `distro_hint` is the
/// override's when it has one, else the outer one, else absent.
pub proof fn lemma_override_merge(global: Option<Globals>, overrides: Option<Globals>)
    ensures
        spec_effective_globals(global, overrides).distro_hint == (if overrides is Some
            && overrides->0.distro_hint is Some {
            overrides->0.distro_hint
        } else if global is Some {
            global->0.distro_hint
        } else {
            None::<Distro>
        }),
{
}

/// The merged globals, matching `spec_effective_globals`.
pub fn merge_globals(global: &Option<Globals>, overrides: &Option<Globals>) -> (r: Globals)
    ensures
        r == spec_effective_globals(*global, *overrides),
{
    match (global, overrides) {
        (Some(g), Some(o)) => Globals {
            distro_hint: if o.distro_hint.is_some() {
                o.distro_hint
            } else {
                g.distro_hint
            },
        },
        (Some(g), None) => *g,
        (None, Some(o)) => *o,
        (None, None) => Globals { distro_hint: None },
    }
}

/// One plugin configuration, drawn from the closed set of plugins.
#[derive(Debug)]
pub enum PluginConfig {
    SystemDeployer(sys_deploy::Config),
    PackageManager(pkgmgr::Config),
    Reboot(reboot::Config),
    SystemReconfigurator(sysconf::Config),
}

/// The mathematical value of a plugin configuration.
#[verifier::ext_equal]
pub enum PluginConfigV {
    SystemDeployer(sys_deploy::ConfigV),
    PackageManager(pkgmgr::ConfigV),
    Reboot(reboot::ConfigV),
    SystemReconfigurator(sysconf::ConfigV),
}

impl View for PluginConfig {
    type V = PluginConfigV;

    open spec fn view(&self) -> PluginConfigV {
        match self {
            PluginConfig::SystemDeployer(c) => PluginConfigV::SystemDeployer(c@),
            PluginConfig::PackageManager(c) => PluginConfigV::PackageManager(c@),
            PluginConfig::Reboot(c) => PluginConfigV::Reboot(c@),
            PluginConfig::SystemReconfigurator(c) => PluginConfigV::SystemReconfigurator(c@),
        }
    }
}

impl Clone for PluginConfig {
    fn clone(&self) -> (r: Self)
        ensures
            r@ == self@,
    {
        match self {
            PluginConfig::SystemDeployer(c) => PluginConfig::SystemDeployer(c.clone()),
            PluginConfig::PackageManager(c) => PluginConfig::PackageManager(c.clone()),
            PluginConfig::Reboot(c) => PluginConfig::Reboot(c.clone()),
            PluginConfig::SystemReconfigurator(c) => PluginConfig::SystemReconfigurator(c.clone()),
        }
    }
}

/// One plugin's progress record.  The deployer, package manager and
/// reboot plugins carry a single done flag; the reconfigurator carries
/// one flag per sub-item in declaration order.
#[derive(Debug)]
pub enum PluginState {
    SystemDeployer(bool),
    PackageManager(bool),
    Reboot(bool),
    SystemReconfigurator(Vec<bool>),
}

/// The mathematical value of a plugin state.
#[verifier::ext_equal]
pub enum PluginStateV {
    SystemDeployer(bool),
    PackageManager(bool),
    Reboot(bool),
    SystemReconfigurator(Seq<bool>),
}

impl View for PluginState {
    type V = PluginStateV;

    open spec fn view(&self) -> PluginStateV {
        match self {
            PluginState::SystemDeployer(b) => PluginStateV::SystemDeployer(*b),
            PluginState::PackageManager(b) => PluginStateV::PackageManager(*b),
            PluginState::Reboot(b) => PluginStateV::Reboot(*b),
            PluginState::SystemReconfigurator(v) => PluginStateV::SystemReconfigurator(v@),
        }
    }
}

/// The state every plugin starts from: nothing done.
pub open spec fn spec_default_state(c: PluginConfigV) -> PluginStateV {
    match c {
        PluginConfigV::SystemDeployer(_) => PluginStateV::SystemDeployer(false),
        PluginConfigV::PackageManager(_) => PluginStateV::PackageManager(false),
        PluginConfigV::Reboot(_) => PluginStateV::Reboot(false),
        PluginConfigV::SystemReconfigurator(_) => PluginStateV::SystemReconfigurator(Seq::empty()),
    }
}

/// A plugin: a configuration shape, a state shape, and the "done?"
/// projection over the state.
pub trait Plugin {
    type Config;
    type State;

    /// Whether the state records completed work.
    spec fn spec_done(s: &Self::State) -> bool;

    /// Executable form of `spec_done`.
    fn done(s: &Self::State) -> (r: bool)
        ensures
            r == Self::spec_done(s),
    ;
}

/// One unit of work from the configuration document.
#[derive(Debug)]
pub struct RecipeConfig {
    pub id: String,
    pub name: Option<String>,
    pub overrides: Option<Globals>,
    pub config: PluginConfig,
}

/// The mathematical value of a recipe.
#[verifier::ext_equal]
pub struct RecipeConfigV {
    pub id: Seq<char>,
    pub name: Option<Seq<char>>,
    pub overrides: Option<Globals>,
    pub config: PluginConfigV,
}

impl View for RecipeConfig {
    type V = RecipeConfigV;

    open spec fn view(&self) -> RecipeConfigV {
        RecipeConfigV {
            id: self.id@,
            name: self.name.deep_view(),
            overrides: self.overrides,
            config: self.config@,
        }
    }
}

impl Clone for RecipeConfig {
    fn clone(&self) -> (r: Self)
        ensures
            r@ == self@,
    {
        RecipeConfig {
            id: self.id.clone(),
            name: clone_opt_string(&self.name),
            overrides: self.overrides,
            config: self.config.clone(),
        }
    }
}

/// The declarative input: an optional persistent-state path, optional
/// globals, and the ordered recipes.
#[derive(Debug)]
pub struct Config {
    pub state_path: Option<String>,
    pub global: Option<Globals>,
    pub recipe: Vec<RecipeConfig>,
}

/// The mathematical value of a configuration.
#[verifier::ext_equal]
pub struct ConfigV {
    pub state_path: Option<Seq<char>>,
    pub global: Option<Globals>,
    pub recipe: Seq<RecipeConfigV>,
}

impl View for Config {
    type V = ConfigV;

    open spec fn view(&self) -> ConfigV {
        ConfigV {
            state_path: self.state_path.deep_view(),
            global: self.global,
            recipe: self.recipe@.map_values(|r: RecipeConfig| r@),
        }
    }
}

/// The progress record of one recipe: identity, display name, effective
/// globals, the plugin configuration, and the plugin state.
#[derive(Debug)]
pub struct RecipeState {
    pub id: String,
    pub display_name: String,
    pub global: Globals,
    pub config: PluginConfig,
    pub state: PluginState,
}

/// The mathematical value of a recipe state.
#[verifier::ext_equal]
pub struct RecipeStateV {
    pub id: Seq<char>,
    pub display_name: Seq<char>,
    pub global: Globals,
    pub config: PluginConfigV,
    pub state: PluginStateV,
}

impl View for RecipeState {
    type V = RecipeStateV;

    open spec fn view(&self) -> RecipeStateV {
        RecipeStateV {
            id: self.id@,
            display_name: self.display_name@,
            global: self.global,
            config: self.config@,
            state: self.state@,
        }
    }
}

/// A snapshot of a run: the frozen configuration, the per-recipe
/// states in declaration order, and the execution order of recipe ids.
#[derive(Debug)]
pub struct State {
    pub config: Config,
    pub states: Vec<RecipeState>,
    pub recipes: Vec<String>,
}

/// The mathematical value of a run snapshot.
#[verifier::ext_equal]
pub struct StateV {
    pub config: ConfigV,
    pub states: Seq<RecipeStateV>,
    pub recipes: Seq<Seq<char>>,
}

/// The values of a recipe-state list.
pub open spec fn view_states(s: Seq<RecipeState>) -> Seq<RecipeStateV> {
    s.map_values(|x: RecipeState| x@)
}

impl View for State {
    type V = StateV;

    open spec fn view(&self) -> StateV {
        StateV {
            config: self.config@,
            states: view_states(self.states@),
            recipes: self.recipes.deep_view(),
        }
    }
}

/// The recipe state a declaration denotes before anything ran.
pub open spec fn spec_recipe_state(rc: RecipeConfigV, global: Option<Globals>) -> RecipeStateV {
    RecipeStateV {
        id: rc.id,
        display_name: match rc.name {
            Some(n) => n,
            None => rc.id,
        },
        global: spec_effective_globals(global, rc.overrides),
        config: rc.config,
        state: spec_default_state(rc.config),
    }
}

impl RecipeConfig {
    /// The initial state of this recipe under the given outer globals:
    /// identity kept, display name defaulting to the id, effective
    /// globals merged, plugin state fresh.
    pub fn into_state(&self, global: &Option<Globals>) -> (r: RecipeState)
        ensures
            r@ == spec_recipe_state(self@, *global),
    {
        let g = merge_globals(global, &self.overrides);
        let display_name = match &self.name {
            Some(n) => n.clone(),
            None => self.id.clone(),
        };
        let state = match &self.config {
            PluginConfig::SystemDeployer(_) => PluginState::SystemDeployer(false),
            PluginConfig::PackageManager(_) => PluginState::PackageManager(false),
            PluginConfig::Reboot(_) => PluginState::Reboot(false),
            PluginConfig::SystemReconfigurator(_) => PluginState::SystemReconfigurator(Vec::new()),
        };
        RecipeState {
            id: self.id.clone(),
            display_name,
            global: g,
            config: self.config.clone(),
            state,
        }
    }
}

/// The ids of a recipe list, in order.
pub open spec fn spec_recipe_ids(rs: Seq<RecipeConfigV>) -> Seq<Seq<char>> {
    rs.map_values(|r: RecipeConfigV| r.id)
}

impl Config {
    /// Freeze this configuration into a run snapshot: one fresh recipe
    /// state per declared recipe, in declaration order, and the
    /// execution order equal to the declaration order of ids.
    pub fn into_state(self) -> (r: State)
        ensures
            r.config@ == self@,
            r.recipes.deep_view() == spec_recipe_ids(self@.recipe),
            r@.states.len() == self@.recipe.len(),
            forall|i: int|
                0 <= i < self@.recipe.len() ==> r@.states[i] == spec_recipe_state(
                    self@.recipe[i],
                    self@.global,
                ),
    {
        let ghost cv = self@;
        let mut states: Vec<RecipeState> = Vec::new();
        let mut recipes: Vec<String> = Vec::new();
        let mut i: usize = 0;
        while i < self.recipe.len()
            invariant
                0 <= i <= self.recipe.len(),
                cv == self@,
                states@.len() == i,
                recipes@.len() == i,
                forall|j: int|
                    0 <= j < i ==> states@[j]@ == spec_recipe_state(cv.recipe[j], cv.global),
                forall|j: int| 0 <= j < i ==> recipes@[j]@ == cv.recipe[j].id,
            decreases self.recipe.len() - i,
        {
            let rs = self.recipe[i].into_state(&self.global);
            recipes.push(rs.id.clone());
            states.push(rs);
            i += 1;
        }
        let r = State { config: self, states, recipes };
        proof {
            assert(r.recipes.deep_view() =~~= spec_recipe_ids(cv.recipe));
        }
        r
    }
}

// ------------------------------------------------------------------
// The recipe engine.
// ------------------------------------------------------------------

/// A recipe's work is recorded as complete.
pub open spec fn recipe_done(rs: RecipeStateV) -> bool {
    match (rs.config, rs.state) {
        (PluginConfigV::SystemDeployer(_), PluginStateV::SystemDeployer(b)) => b,
        (PluginConfigV::PackageManager(_), PluginStateV::PackageManager(b)) => b,
        (PluginConfigV::Reboot(_), PluginStateV::Reboot(b)) => b,
        (
            PluginConfigV::SystemReconfigurator(c),
            PluginStateV::SystemReconfigurator(f),
        ) => sysconf::sc_done(c, f),
        _ => false,
    }
}

/// Every recipe of the snapshot is complete.
pub open spec fn all_recipes_done(s: StateV) -> bool {
    forall|j: int| 0 <= j < s.states.len() ==> recipe_done(#[trigger] s.states[j])
}

/// An effect is justified by one of the snapshot's recipes: it is an
/// action its plugin may request under its configuration and
/// effective globals.
pub open spec fn recipe_action_allowed(rs: RecipeStateV, a: Action) -> bool {
    match rs.config {
        PluginConfigV::SystemDeployer(c) => sys_deploy::sd_action_allowed(rs.global, c, a),
        PluginConfigV::PackageManager(c) => pkgmgr::pkg_action_allowed(rs.global, c, a),
        PluginConfigV::Reboot(reboot::ConfigV::Kexec(c)) => kexec::kx_action_allowed(c, a),
        PluginConfigV::SystemReconfigurator(c) => sysconf::sc_action_allowed(c, a),
    }
}

pub open spec fn engine_action_allowed(s: StateV, a: Action) -> bool {
    exists|j: int|
        0 <= j < s.states.len() && recipe_action_allowed(#[trigger] s.states[j], a)
}


/// The recipe state recorded for an id: the last declaration with
/// that id wins, as in a map built by insertion.
pub open spec fn spec_find_state(states: Seq<RecipeStateV>, id: Seq<char>) -> Option<int>
    decreases states.len(),
{
    if states.len() == 0 {
        None
    } else if states.last().id == id {
        Some(states.len() - 1)
    } else {
        spec_find_state(states.drop_last(), id)
    }
}

/// A found index is in range, carries the id, and only the fields of
/// the indexed record matter to the lookup.
pub proof fn lemma_find_state_range(states: Seq<RecipeStateV>, id: Seq<char>)
    ensures
        match spec_find_state(states, id) {
            Some(j) => 0 <= j < states.len() && states[j].id == id,
            None => forall|k: int| 0 <= k < states.len() ==> states[k].id != id,
        },
    decreases states.len(),
{
    if states.len() > 0 {
        if states.last().id == id {
            assert(states[states.len() - 1] == states.last());
        } else {
            lemma_find_state_range(states.drop_last(), id);
            match spec_find_state(states.drop_last(), id) {
                Some(j) => {
                    assert(states.drop_last()[j] == states[j]);
                },
                None => {
                    assert(forall|k: int|
                        0 <= k < states.len() - 1 ==> states.drop_last()[k] == states[k]);
                    assert(states[states.len() - 1] == states.last());
                },
            }
        }
    }
}

/// Replacing a record with one of the same id leaves every lookup
/// unchanged.
pub proof fn lemma_find_state_stable(
    states: Seq<RecipeStateV>,
    j: int,
    x: RecipeStateV,
    id: Seq<char>,
)
    requires
        0 <= j < states.len(),
        x.id == states[j].id,
    ensures
        spec_find_state(states.update(j, x), id) == spec_find_state(states, id),
    decreases states.len(),
{
    let t = states.update(j, x);
    if j == states.len() - 1 {
        assert(t.last() == x);
        assert(t.drop_last() =~~= states.drop_last());
    } else {
        assert(t.last() == states.last());
        assert(t.drop_last() =~~= states.drop_last().update(j, x));
        lemma_find_state_stable(states.drop_last(), j, x, id);
    }
}

/// Every recipe from `pos` on is recorded complete, or has no record
/// at all.
pub open spec fn engine_remaining_done(s: StateV, pos: int) -> bool {
    forall|i: int|
        pos <= i < s.recipes.len() ==> (match spec_find_state(s.states, #[trigger] s.recipes[i]) {
            Some(j) => recipe_done(s.states[j]),
            None => true,
        })
}

/// The first recipe from `pos` on that has a recorded state.
pub open spec fn engine_first_ready(s: StateV, pos: int) -> Option<int>
    decreases s.recipes.len() - pos,
{
    if pos < 0 || pos >= s.recipes.len() {
        None
    } else {
        match spec_find_state(s.states, s.recipes[pos]) {
            Some(j) => Some(j),
            None => engine_first_ready(s, pos + 1),
        }
    }
}

/// A recipe whose machine, started fresh, completes at once without
/// requesting any effect.
pub open spec fn recipe_begin_auto(rs: RecipeStateV) -> bool {
    match (rs.config, rs.state) {
        (PluginConfigV::SystemDeployer(_), PluginStateV::SystemDeployer(b)) => b,
        (PluginConfigV::PackageManager(_), PluginStateV::PackageManager(b)) => b,
        (PluginConfigV::Reboot(_), PluginStateV::Reboot(b)) => b,
        (
            PluginConfigV::SystemReconfigurator(c),
            PluginStateV::SystemReconfigurator(f),
        ) => sysconf::sc_walk(c, sysconf::sc_pad(f, c.with.len() as int), 0).1 >= c.with.len(),
        _ => false,
    }
}

/// A plugin-level step lifted to an engine outcome: the same effect,
/// or the same error.
pub open spec fn lift_step(st: Step, out: EngineStep) -> bool {
    match (st, out) {
        (Step::Do(a), EngineStep::Do(b)) => a == b,
        (Step::Fail(e), EngineStep::Failed(e2)) => e == e2,
        _ => false,
    }
}

/// One recipe's own machine, started fresh on `Start`, moved its state
/// from `rs0` to `rs1` and produced `st`; everything but the plugin
/// state is untouched.
pub open spec fn recipe_begin_rel(rs0: RecipeStateV, rs1: RecipeStateV, st: Step) -> bool {
    rs1.id == rs0.id && rs1.display_name == rs0.display_name && rs1.global == rs0.global
        && rs1.config == rs0.config && (match (rs0.config, rs0.state, rs1.state) {
        (
            PluginConfigV::SystemDeployer(c),
            PluginStateV::SystemDeployer(b0),
            PluginStateV::SystemDeployer(b1),
        ) => exists|p2: sys_deploy::Phase|
            sys_deploy::sd_next(
                rs0.global,
                c,
                sys_deploy::Phase::Begin,
                b0,
                Event::Start,
                p2,
                b1,
                st,
            ),
        (
            PluginConfigV::PackageManager(c),
            PluginStateV::PackageManager(b0),
            PluginStateV::PackageManager(b1),
        ) => exists|p2: pkgmgr::Phase|
            pkgmgr::pkg_next(rs0.global, c, pkgmgr::Phase::Begin, b0, Event::Start, p2, b1, st),
        (
            PluginConfigV::Reboot(reboot::ConfigV::Kexec(c)),
            PluginStateV::Reboot(b0),
            PluginStateV::Reboot(b1),
        ) => exists|p2: kexec::Phase|
            kexec::kx_next(c, kexec::Phase::Begin, b0, Event::Start, p2, b1, st),
        (
            PluginConfigV::SystemReconfigurator(c),
            PluginStateV::SystemReconfigurator(f0),
            PluginStateV::SystemReconfigurator(f1),
        ) => exists|p2: sysconf::Phase|
            sysconf::sc_next(c, sysconf::Phase::Begin, f0, Event::Start, p2, f1, st),
        // the recorded state did not fit the plugin: it was reset and
        // the pipeline aborted
        _ => rs1.state == spec_default_state(rs0.config) && (st matches Step::Fail(e) && e
            is Invariant),
    })
}

/// Where the engine stands: before a recipe, inside one plugin's
/// machine, or at one of the two terminal outcomes.
#[derive(Debug)]
pub enum EnginePhase {
    Idle,
    Sd(sys_deploy::Phase),
    Pkg(pkgmgr::Phase),
    Rb(kexec::Phase),
    Sc(sysconf::Phase),
    Finished,
    Failed,
}

/// What the engine asks of the driver next.
#[derive(Debug)]
pub enum EngineStep {
    Do(Action),
    Finished,
    Failed(Error),
}

/// The engine: the run snapshot and the position of the recipe being
/// executed.
#[derive(Debug)]
pub struct Engine {
    pub state: State,
    pub pos: usize,
}

/// The last recipe state carrying `id`; later declarations shadow
/// earlier ones with the same id, as in a map built by insertion.
fn find_state_index(states: &Vec<RecipeState>, id: &str) -> (r: Option<usize>)
    ensures
        match r {
            Some(j) => j < states.len() && states@[j as int]@.id == id@ && spec_find_state(
                view_states(states@),
                id@,
            ) == Some(j as int),
            None => (forall|k: int| 0 <= k < states.len() ==> states@[k]@.id != id@)
                && spec_find_state(view_states(states@), id@) is None,
        },
{
    let ghost v = view_states(states@);
    let mut i: usize = states.len();
    proof {
        assert(v.take(states.len() as int) =~~= v);
    }
    while i > 0
        invariant
            0 <= i <= states.len(),
            v == view_states(states@),
            forall|k: int| i <= k < states.len() ==> states@[k]@.id != id@,
            spec_find_state(v, id@) == spec_find_state(v.take(i as int), id@),
        decreases i,
    {
        proof {
            assert(v.take(i as int).last() == v[i - 1]);
            assert(v.take(i as int).drop_last() =~~= v.take(i - 1));
        }
        if str_eq(states[i - 1].id.as_str(), id) {
            proof {
                assert(spec_find_state(v.take(i as int), id@) == Some(i - 1));
            }
            return Some(i - 1);
        }
        i -= 1;
    }
    proof {
        assert(v.take(0) =~~= Seq::<RecipeStateV>::empty());
    }
    None
}

impl Engine {
    /// A fresh engine over a snapshot, positioned before its first
    /// recipe.
    pub fn new(state: State) -> (r: Engine)
        ensures
            r.state == state,
            r.pos == 0,
    {
        Engine { state, pos: 0 }
    }

    /// One transition of the whole pipeline: recipes run in order,
    /// each recipe's plugin drives its own machine, a completed
    /// recipe hands over to the next, and the first failure aborts
    /// the run.
    ///
    /// A snapshot whose recipes are all recorded complete finishes
    /// immediately and unchanged: re-running a finished run performs
    /// no side effect.  Every effect the engine ever requests is one
    /// that some recipe's plugin may request under its configuration;
    /// recipe completion never regresses; a run that reports itself
    /// finished leaves every recipe from its starting position
    /// recorded complete; and when started between recipes, the
    /// engine's outward result is the first pending recipe's own
    /// machine transition — its effect, or its error — with only that
    /// recipe's record touched.
    pub fn step(&mut self, phase: EnginePhase, ev: Event) -> (r: (EnginePhase, EngineStep))
        ensures
            all_recipes_done(old(self).state@) && phase is Idle && ev is Start ==> r.1
                is Finished && final(self).state@ == old(self).state@,
            (r.1 matches EngineStep::Do(a) ==> engine_action_allowed(final(self).state@, a)),
            final(self).state@.states.len() == old(self).state@.states.len(),
            forall|j: int|
                0 <= j < old(self).state@.states.len() && recipe_done(
                    old(self).state@.states[j],
                ) ==> recipe_done(#[trigger] final(self).state@.states[j]),
            phase is Idle ==> (r.1 is Finished ==> engine_remaining_done(
                final(self).state@,
                old(self).pos as int,
            )),
            phase is Idle && ev is Start ==> (match engine_first_ready(
                old(self).state@,
                old(self).pos as int,
            ) {
                Some(j) => !recipe_begin_auto(old(self).state@.states[j]) ==> (
                final(self).state@.states == old(self).state@.states.update(
                    j,
                    final(self).state@.states[j],
                ) && (exists|st: Step|
                    #[trigger] lift_step(st, r.1) && recipe_begin_rel(
                        old(self).state@.states[j],
                        final(self).state@.states[j],
                        st,
                    ))),
                None => true,
            }),
    {
        let ghost fast = all_recipes_done(old(self).state@) && phase is Idle && ev is Start;
        let ghost orig_idle = phase is Idle;
        let ghost orig_start = phase is Idle && ev is Start;
        let ghost pos0 = self.pos as int;
        let ghost fr = engine_first_ready(old(self).state@, pos0);
        let mut cur = phase;
        let mut cur_ev = ev;
        proof {
            if orig_start {
                assert(cur_ev == Event::Start);
            }
        }
        loop
            invariant
                fast == (all_recipes_done(old(self).state@) && phase is Idle && ev is Start),
                fast ==> cur is Idle && cur_ev is Start && self.state@ == old(self).state@,
                self.state@.states.len() == old(self).state@.states.len(),
                forall|j: int|
                    0 <= j < old(self).state@.states.len() && recipe_done(
                        old(self).state@.states[j],
                    ) ==> recipe_done(#[trigger] self.state@.states[j]),
                orig_idle == (phase is Idle),
                orig_start == (phase is Idle && ev is Start),
                pos0 == old(self).pos as int,
                fr == engine_first_ready(old(self).state@, pos0),
                self.state@.recipes == old(self).state@.recipes,
                orig_idle ==> cur is Idle,
                orig_idle ==> pos0 <= self.pos,
                orig_start ==> cur_ev == Event::Start,
                orig_idle ==> (forall|i: int|
                    pos0 <= i < self.pos ==> (match spec_find_state(
                        self.state@.states,
                        #[trigger] self.state@.recipes[i],
                    ) {
                        Some(j) => recipe_done(self.state@.states[j]),
                        None => true,
                    })),
                orig_start ==> (match fr {
                    Some(fj) => !recipe_begin_auto(old(self).state@.states[fj]) ==> (self.state@
                        == old(self).state@ && engine_first_ready(
                        old(self).state@,
                        self.pos as int,
                    ) == fr),
                    None => true,
                }),
            decreases self.state.recipes.len() - self.pos,
        {
            match cur {
                EnginePhase::Finished => {
                    return (EnginePhase::Finished, EngineStep::Finished);
                },
                EnginePhase::Failed => {
                    return (
                        EnginePhase::Failed,
                        EngineStep::Failed(
                            Error::Invariant {
                                msg: String::from_str("the pipeline already failed"),
                            },
                        ),
                    );
                },
                _ => {},
            }
            if self.pos >= self.state.recipes.len() {
                return (EnginePhase::Finished, EngineStep::Finished);
            }
            let id = self.state.recipes[self.pos].clone();
            let ghost scan_pos = self.pos as int;
            let j = match find_state_index(&self.state.states, id.as_str()) {
                None => {
                    // no recorded state for this id: skip it, as a warning would
                    proof {
                        assert(id@ == self.state@.recipes[scan_pos]);
                        if orig_start {
                            match fr {
                                Some(fj) => {
                                    if !recipe_begin_auto(old(self).state@.states[fj]) {
                                        assert(engine_first_ready(old(self).state@, scan_pos)
                                            == engine_first_ready(
                                            old(self).state@,
                                            scan_pos + 1,
                                        ));
                                    }
                                },
                                None => {},
                            }
                        }
                    }
                    self.pos += 1;
                    cur = EnginePhase::Idle;
                    cur_ev = Event::Start;
                    continue;
                },
                Some(j) => j,
            };
            let ghost pre_state = self.state@;
            let ghost gev = cur_ev;
            let rs = &mut self.state.states[j];
            let ghost pre_rs = *rs;
            let ctx_globals = rs.global;
            let (next_phase, step) = match (&rs.config, &mut rs.state, cur) {
                (
                    PluginConfig::SystemDeployer(c),
                    PluginState::SystemDeployer(b),
                    EnginePhase::Idle,
                ) => {
                    let (p2, st) = sys_deploy::Context(ctx_globals).step(
                        c,
                        b,
                        sys_deploy::Phase::Begin,
                        cur_ev,
                    );
                    (EnginePhase::Sd(p2), st)
                },
                (
                    PluginConfig::SystemDeployer(c),
                    PluginState::SystemDeployer(b),
                    EnginePhase::Sd(p),
                ) => {
                    let (p2, st) = sys_deploy::Context(ctx_globals).step(c, b, p, cur_ev);
                    (EnginePhase::Sd(p2), st)
                },
                (
                    PluginConfig::PackageManager(c),
                    PluginState::PackageManager(b),
                    EnginePhase::Idle,
                ) => {
                    let (p2, st) = pkgmgr::Context(ctx_globals).step(
                        c,
                        b,
                        pkgmgr::Phase::Begin,
                        cur_ev,
                    );
                    (EnginePhase::Pkg(p2), st)
                },
                (
                    PluginConfig::PackageManager(c),
                    PluginState::PackageManager(b),
                    EnginePhase::Pkg(p),
                ) => {
                    let (p2, st) = pkgmgr::Context(ctx_globals).step(c, b, p, cur_ev);
                    (EnginePhase::Pkg(p2), st)
                },
                (
                    PluginConfig::Reboot(reboot::Config::Kexec(c)),
                    PluginState::Reboot(b),
                    EnginePhase::Idle,
                ) => {
                    let (p2, st) = kexec::Context(ctx_globals).step(
                        c,
                        b,
                        kexec::Phase::Begin,
                        cur_ev,
                    );
                    (EnginePhase::Rb(p2), st)
                },
                (
                    PluginConfig::Reboot(reboot::Config::Kexec(c)),
                    PluginState::Reboot(b),
                    EnginePhase::Rb(p),
                ) => {
                    let (p2, st) = kexec::Context(ctx_globals).step(c, b, p, cur_ev);
                    (EnginePhase::Rb(p2), st)
                },
                (
                    PluginConfig::SystemReconfigurator(c),
                    PluginState::SystemReconfigurator(f),
                    EnginePhase::Idle,
                ) => {
                    let (p2, st) = sysconf::Context(ctx_globals).step(
                        c,
                        f,
                        sysconf::Phase::Begin,
                        cur_ev,
                    );
                    (EnginePhase::Sc(p2), st)
                },
                (
                    PluginConfig::SystemReconfigurator(c),
                    PluginState::SystemReconfigurator(f),
                    EnginePhase::Sc(p),
                ) => {
                    let (p2, st) = sysconf::Context(ctx_globals).step(c, f, p, cur_ev);
                    (EnginePhase::Sc(p2), st)
                },
                (cfg, st, _) => {
                    let shape_ok = match (cfg, &*st) {
                        (PluginConfig::SystemDeployer(_), PluginState::SystemDeployer(_)) => true,
                        (PluginConfig::PackageManager(_), PluginState::PackageManager(_)) => true,
                        (PluginConfig::Reboot(_), PluginState::Reboot(_)) => true,
                        (
                            PluginConfig::SystemReconfigurator(_),
                            PluginState::SystemReconfigurator(_),
                        ) => true,
                        _ => false,
                    };
                    if !shape_ok {
                        // the recorded state does not fit the plugin: start it
                        // afresh, as a map rebuilt from the configuration would
                        let fresh = match cfg {
                            PluginConfig::SystemDeployer(_) => PluginState::SystemDeployer(false),
                            PluginConfig::PackageManager(_) => PluginState::PackageManager(false),
                            PluginConfig::Reboot(_) => PluginState::Reboot(false),
                            PluginConfig::SystemReconfigurator(_) => {
                                PluginState::SystemReconfigurator(Vec::new())
                            },
                        };
                        *st = fresh;
                    }
                    (
                        EnginePhase::Failed,
                        Step::Fail(
                            Error::Invariant { msg: String::from_str("unexpected event") },
                        ),
                    )
                },
            };
            let ghost gstep = step;
            let ghost gphase = next_phase;
            let ghost cur_rs = self.state@.states[j as int];
            proof {
                assert(self.state@.states =~~= pre_state.states.update(j as int, cur_rs));
                assert(self.state@.states == pre_state.states.update(j as int, cur_rs));
                assert(cur_rs.id == pre_state.states[j as int].id);
                if recipe_done(pre_state.states[j as int]) {
                    let ghost prev = pre_state.states[j as int];
                    match (prev.config, prev.state) {
                        (
                            PluginConfigV::SystemReconfigurator(c),
                            PluginStateV::SystemReconfigurator(f),
                        ) => {
                            match cur_rs.state {
                                PluginStateV::SystemReconfigurator(f2) => {
                                    if c.with.len() > 0 {
                                        assert(f[c.with.len() - 1]);
                                        assert(c.with.len() - 1 < f2.len());
                                    }
                                    assert(forall|k: int|
                                        0 <= k < c.with.len() ==> f[k] && f2[k]);
                                    assert(sysconf::sc_done(c, f2));
                                },
                                _ => {},
                            }
                        },
                        _ => {},
                    }
                    assert(recipe_done(cur_rs));
                }
                assert forall|k: int|
                    0 <= k < old(self).state@.states.len() && recipe_done(
                        old(self).state@.states[k],
                    ) implies recipe_done(#[trigger] self.state@.states[k]) by {
                    if k != j {
                        assert(self.state@.states[k] == pre_state.states[k]);
                    }
                }
            }
            match step {
                Step::Do(a) => {
                    proof {
                        if fast {
                            assert(recipe_done(pre_state.states[j as int]));
                            assert(false);
                        }
                        assert(0 <= j < self.state@.states.len());
                        assert(recipe_action_allowed(self.state@.states[j as int], a));
                        if orig_start {
                            match fr {
                                Some(fj) => {
                                    if !recipe_begin_auto(old(self).state@.states[fj]) {
                                        assert(pre_state == old(self).state@);
                                        assert(engine_first_ready(old(self).state@, scan_pos)
                                            == Some(j as int));
                                        assert(fj == j as int);
                                        assert(gev == Event::Start);
                                        assert(lift_step(gstep, EngineStep::Do(a)));
                                        assert(recipe_begin_rel(
                                            old(self).state@.states[j as int],
                                            cur_rs,
                                            gstep,
                                        )) by {
                                            let rs0 = old(self).state@.states[j as int];
                                            match (rs0.config, rs0.state, cur_rs.state, gphase) {
                                                (
                                                    PluginConfigV::SystemDeployer(c),
                                                    PluginStateV::SystemDeployer(b0),
                                                    PluginStateV::SystemDeployer(b1),
                                                    EnginePhase::Sd(p2),
                                                ) => {
                                                    assert(sys_deploy::sd_next(
                                                        rs0.global,
                                                        c,
                                                        sys_deploy::Phase::Begin,
                                                        b0,
                                                        Event::Start,
                                                        p2,
                                                        b1,
                                                        gstep,
                                                    ));
                                                },
                                                (
                                                    PluginConfigV::PackageManager(c),
                                                    PluginStateV::PackageManager(b0),
                                                    PluginStateV::PackageManager(b1),
                                                    EnginePhase::Pkg(p2),
                                                ) => {
                                                    assert(pkgmgr::pkg_next(
                                                        rs0.global,
                                                        c,
                                                        pkgmgr::Phase::Begin,
                                                        b0,
                                                        Event::Start,
                                                        p2,
                                                        b1,
                                                        gstep,
                                                    ));
                                                },
                                                (
                                                    PluginConfigV::Reboot(
                                                        reboot::ConfigV::Kexec(c),
                                                    ),
                                                    PluginStateV::Reboot(b0),
                                                    PluginStateV::Reboot(b1),
                                                    EnginePhase::Rb(p2),
                                                ) => {
                                                    assert(kexec::kx_next(
                                                        c,
                                                        kexec::Phase::Begin,
                                                        b0,
                                                        Event::Start,
                                                        p2,
                                                        b1,
                                                        gstep,
                                                    ));
                                                },
                                                (
                                                    PluginConfigV::SystemReconfigurator(c),
                                                    PluginStateV::SystemReconfigurator(f0),
                                                    PluginStateV::SystemReconfigurator(f1),
                                                    EnginePhase::Sc(p2),
                                                ) => {
                                                    assert(sysconf::sc_next(
                                                        c,
                                                        sysconf::Phase::Begin,
                                                        f0,
                                                        Event::Start,
                                                        p2,
                                                        f1,
                                                        gstep,
                                                    ));
                                                },
                                                _ => {},
                                            }
                                        };

                                    }
                                },
                                None => {},
                            }
                        }
                    }
                    return (next_phase, EngineStep::Do(a));
                },
                Step::Fail(e) => {
                    proof {
                        if fast {
                            assert(recipe_done(pre_state.states[j as int]));
                            assert(false);
                        }
                        if orig_start {
                            match fr {
                                Some(fj) => {
                                    if !recipe_begin_auto(old(self).state@.states[fj]) {
                                        assert(pre_state == old(self).state@);
                                        assert(engine_first_ready(old(self).state@, scan_pos)
                                            == Some(j as int));
                                        assert(fj == j as int);
                                        assert(gev == Event::Start);
                                        assert(lift_step(gstep, EngineStep::Failed(e)));
                                        assert(recipe_begin_rel(
                                            old(self).state@.states[j as int],
                                            cur_rs,
                                            gstep,
                                        )) by {
                                            let rs0 = old(self).state@.states[j as int];
                                            match (rs0.config, rs0.state, cur_rs.state, gphase) {
                                                (
                                                    PluginConfigV::SystemDeployer(c),
                                                    PluginStateV::SystemDeployer(b0),
                                                    PluginStateV::SystemDeployer(b1),
                                                    EnginePhase::Sd(p2),
                                                ) => {
                                                    assert(sys_deploy::sd_next(
                                                        rs0.global,
                                                        c,
                                                        sys_deploy::Phase::Begin,
                                                        b0,
                                                        Event::Start,
                                                        p2,
                                                        b1,
                                                        gstep,
                                                    ));
                                                },
                                                (
                                                    PluginConfigV::PackageManager(c),
                                                    PluginStateV::PackageManager(b0),
                                                    PluginStateV::PackageManager(b1),
                                                    EnginePhase::Pkg(p2),
                                                ) => {
                                                    assert(pkgmgr::pkg_next(
                                                        rs0.global,
                                                        c,
                                                        pkgmgr::Phase::Begin,
                                                        b0,
                                                        Event::Start,
                                                        p2,
                                                        b1,
                                                        gstep,
                                                    ));
                                                },
                                                (
                                                    PluginConfigV::Reboot(
                                                        reboot::ConfigV::Kexec(c),
                                                    ),
                                                    PluginStateV::Reboot(b0),
                                                    PluginStateV::Reboot(b1),
                                                    EnginePhase::Rb(p2),
                                                ) => {
                                                    assert(kexec::kx_next(
                                                        c,
                                                        kexec::Phase::Begin,
                                                        b0,
                                                        Event::Start,
                                                        p2,
                                                        b1,
                                                        gstep,
                                                    ));
                                                },
                                                (
                                                    PluginConfigV::SystemReconfigurator(c),
                                                    PluginStateV::SystemReconfigurator(f0),
                                                    PluginStateV::SystemReconfigurator(f1),
                                                    EnginePhase::Sc(p2),
                                                ) => {
                                                    assert(sysconf::sc_next(
                                                        c,
                                                        sysconf::Phase::Begin,
                                                        f0,
                                                        Event::Start,
                                                        p2,
                                                        f1,
                                                        gstep,
                                                    ));
                                                },
                                                _ => {},
                                            }
                                        };

                                    }
                                },
                                None => {},
                            }
                        }
                    }
                    return (EnginePhase::Failed, EngineStep::Failed(e));
                },
                Step::Done => {
                    proof {
                        if fast {
                            assert(recipe_done(pre_state.states[j as int]));
                            assert(self.state@.states[j as int] =~~= pre_state.states[j as int]);
                            assert(self.state@.states =~~= pre_state.states);
                            assert(self.state@ =~~= pre_state);
                        }
                        if orig_idle {
                            // a recipe finishes at its fresh start only when
                            // its record says so afterwards
                            if !(gev matches Event::Start) {
                                assert(false);
                            }
                            assert(recipe_done(cur_rs));
                            if orig_start {
                                match fr {
                                    Some(fj) => {
                                        if !recipe_begin_auto(old(self).state@.states[fj]) {
                                            assert(engine_first_ready(
                                                old(self).state@,
                                                scan_pos,
                                            ) == Some(j as int));
                                            assert(recipe_begin_auto(
                                                old(self).state@.states[j as int],
                                            ));
                                            assert(false);
                                        }
                                    },
                                    None => {},
                                }
                            }
                            // lookups survive the update, so earlier recipes
                            // stay recorded done
                            assert forall|i: int|
                                pos0 <= i < self.pos + 1 implies (match spec_find_state(
                                self.state@.states,
                                #[trigger] self.state@.recipes[i],
                            ) {
                                Some(j2) => recipe_done(self.state@.states[j2]),
                                None => true,
                            }) by {
                                lemma_find_state_stable(
                                    pre_state.states,
                                    j as int,
                                    cur_rs,
                                    self.state@.recipes[i],
                                );
                                lemma_find_state_range(pre_state.states, self.state@.recipes[i]);
                                if i < self.pos {
                                    match spec_find_state(
                                        pre_state.states,
                                        self.state@.recipes[i],
                                    ) {
                                        Some(j2) => {
                                            if j2 == j as int {
                                                assert(recipe_done(self.state@.states[j2]));
                                            } else {
                                                assert(self.state@.states[j2]
                                                    == pre_state.states[j2]);
                                            }
                                        },
                                        None => {},
                                    }
                                } else {
                                    assert(spec_find_state(pre_state.states, id@) == Some(
                                        j as int,
                                    ));
                                    assert(self.state@.recipes[i] == id@);
                                }
                            }
                        }
                    }
                    self.pos += 1;
                    cur = EnginePhase::Idle;
                    cur_ev = Event::Start;
                },
            }
        }
    }
}

} // verus!

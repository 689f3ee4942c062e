//! The execution driver: it walks the manifests in dependency order and tries
//! out, or carries out, every action in turn.
//!
//! The driver makes no call to a provider. One step takes the reply to the
//! call that was pending, if any, and says what the host is to do next: make
//! a call and come back with the reply, come back at once, or stop.

use crate::actions::{ActionResult, Actions};
use crate::context::{merged, Platform, VariableContext, VariableContextView};
use crate::errors::{description, ActionError, ActionErrorView, LoadError};
use crate::manifests::{
    first_unknown_at, has_dependency_cycle, is_ordering, resolve, unknown_at, Manifest,
};
use crate::package::{
    binding, install_message, reported, step, InstallRun, InstallRunView, Progress, ProgressView,
    ProviderCall, Reply, ReplyView,
};
use crate::providers::ProviderRegistry;
use vstd::prelude::*;
use vstd::string::StringExecFns;

verus! {

/// Whether the actions are tried out or carried out.
#[derive(Clone, Copy, PartialEq, Eq, Structural, Debug)]
pub enum Mode {
    /// Report what would change, and change nothing.
    DryRun,
    /// Make the changes.
    Apply,
}

/// How a mode is named to the operator.
pub open spec fn mode_label(mode: Mode) -> Seq<char> {
    match mode {
        Mode::DryRun => "dry-run"@,
        Mode::Apply => "run"@,
    }
}

impl Mode {
    /// The name of the mode, as reports show it.
    pub fn label(&self) -> (text: String)
        ensures
            text@ == mode_label(*self),
    {
        match self {
            Mode::DryRun => String::from_str("dry-run"),
            Mode::Apply => String::from_str("run"),
        }
    }
}

/// What the driver does once an action has failed.
#[derive(Clone, Copy, PartialEq, Eq, Structural, Debug)]
pub enum Policy {
    /// Stop, and report what was done so far.
    Abort,
    /// Go on with the next action.
    Continue,
}

impl Default for Policy {
    /// A run stops at the first failure unless it is told to go on.
    fn default() -> (policy: Policy)
        ensures
            policy == Policy::Abort,
    {
        Policy::Abort
    }
}

/// What every manifest of a run shares.
#[derive(Debug)]
pub struct Environment {
    /// The facts about the host.
    pub platform: Platform,
    /// The variables that hold for all manifests.
    pub global: Vec<(String, String)>,
    /// The providers that actions can be bound to.
    pub providers: ProviderRegistry,
}

/// How one action ended.
#[derive(Debug)]
pub struct Record {
    /// The manifest that holds the action, by its index in the set.
    pub manifest: usize,
    /// The index of the action in its manifest.
    pub action: usize,
    /// What the action reported, or why it failed.
    pub outcome: Result<ActionResult, ActionError>,
}

/// A [`Record`] as the contracts see it.
pub ghost struct RecordView {
    pub manifest: int,
    pub action: int,
    pub outcome: Result<Seq<char>, ActionErrorView>,
}

impl View for Record {
    type V = RecordView;

    open spec fn view(&self) -> RecordView {
        RecordView {
            manifest: self.manifest as int,
            action: self.action as int,
            outcome: reported(self.outcome),
        }
    }
}

/// The line that reports how an action ended: the mode of the run, so that
/// nobody takes a dry run for a change, the manifest, and what the action
/// reported or why it failed.
pub open spec fn report_line(
    mode: Mode,
    manifest: Seq<char>,
    outcome: Result<Seq<char>, ActionErrorView>,
) -> Seq<char> {
    "["@ + mode_label(mode) + "] "@ + manifest + ": "@ + match outcome {
        Ok(message) => message,
        Err(e) => "failed: "@ + description(e),
    }
}

/// The views of a list of records.
pub open spec fn record_views(records: Seq<Record>) -> Seq<RecordView> {
    Seq::new(records.len(), |i: int| records[i]@)
}

/// What the host is to do after a step.
#[derive(Clone, Copy, PartialEq, Eq, Structural, Debug)]
pub enum Directive {
    /// Make this call to the provider of the action under way, and step with
    /// its reply.
    Call(ProviderCall),
    /// Step again.
    Proceed,
    /// The run is over.
    Finished,
}

/// A run of a set of manifests.
#[derive(Debug)]
pub struct Driver {
    manifests: Vec<Manifest>,
    order: Vec<usize>,
    mode: Mode,
    policy: Policy,
    slot: usize,
    action: usize,
    active: Option<InstallRun>,
    records: Vec<Record>,
    halted: bool,
}

/// A [`Driver`] as the contracts see it.
pub ghost struct DriverView {
    /// The manifests of the run.
    pub manifests: Seq<Manifest>,
    /// The order in which the manifests run.
    pub order: Seq<usize>,
    pub mode: Mode,
    pub policy: Policy,
    /// The place in `order` of the manifest whose turn it is.
    pub slot: int,
    /// The index, in that manifest, of the action whose turn it is.
    pub action: int,
    /// The installation under way, if a call to a provider is pending.
    pub active: Option<InstallRunView>,
    /// How the actions ended that were tried so far.
    pub records: Seq<RecordView>,
    /// Whether a failure has stopped the run.
    pub halted: bool,
}

impl View for Driver {
    type V = DriverView;

    closed spec fn view(&self) -> DriverView {
        DriverView {
            manifests: self.manifests@,
            order: self.order@,
            mode: self.mode,
            policy: self.policy,
            slot: self.slot as int,
            action: self.action as int,
            active: match self.active {
                Some(run) => Some(run@),
                None => None,
            },
            records: record_views(self.records@),
            halted: self.halted,
        }
    }
}

/// The reply that a step is given, as the contracts see it.
pub open spec fn given(reply: Option<Reply>) -> Option<ReplyView> {
    match reply {
        Some(reply) => Some(reply@),
        None => None,
    }
}

/// The variables that the actions of a manifest see.
pub open spec fn context_of(env: Environment, manifest: Manifest) -> VariableContextView {
    VariableContextView {
        platform: env.platform.os_family@,
        variables: merged(env.platform, env.global@, manifest.variables@),
    }
}

/// The state once the action whose turn it was has ended: its outcome is on
/// record and the next action has its turn, unless the action failed and the
/// policy is to abort.
pub open spec fn settle(d: DriverView, outcome: Result<Seq<char>, ActionErrorView>) -> (
    DriverView,
    Directive,
) {
    let record = RecordView { manifest: d.order[d.slot] as int, action: d.action, outcome };
    let next = DriverView {
        records: d.records.push(record),
        action: d.action + 1,
        active: None,
        ..d
    };
    if outcome is Err && d.policy == Policy::Abort {
        (DriverView { halted: true, ..next }, Directive::Finished)
    } else {
        (next, Directive::Proceed)
    }
}

/// One step of a run: the state after it, and what the host is to do.
///
/// A run that was stopped, or has no manifest left, is over. While an
/// installation is under way, the reply moves it on. Otherwise the action
/// whose turn it is begins: in a dry run it is tried out and ends at once;
/// else it is bound to its provider and the first call is pending. Past the
/// last action of a manifest, the next manifest has its turn.
pub open spec fn transition(d: DriverView, env: Environment, reply: Option<ReplyView>) -> (
    DriverView,
    Directive,
) {
    if d.halted || d.slot >= d.order.len() {
        (d, Directive::Finished)
    } else {
        let manifest = d.manifests[d.order[d.slot] as int];
        match d.active {
            Some(run) => match reply {
                None => (d, Directive::Call(run.pending)),
                Some(reply) => match step(run, reply) {
                    ProgressView::Call(next) => (
                        DriverView { active: Some(next), ..d },
                        Directive::Call(next.pending),
                    ),
                    ProgressView::Done(outcome) => settle(d, outcome),
                },
            },
            None => if d.action >= manifest.actions.len() {
                (DriverView { slot: d.slot + 1, action: 0, ..d }, Directive::Proceed)
            } else {
                let bound = binding(
                    manifest.actions[d.action].package(),
                    context_of(env, manifest),
                    env.providers@,
                );
                match bound {
                    Err(e) => settle(d, Err(e)),
                    Ok(variant) => match d.mode {
                        Mode::DryRun => settle(d, Ok(install_message(variant))),
                        Mode::Apply => (
                            DriverView {
                                active: Some(
                                    InstallRunView { variant, pending: ProviderCall::Available },
                                ),
                                ..d
                            },
                            Directive::Call(ProviderCall::Available),
                        ),
                    },
                }
            },
        }
    }
}

/// The state and the directive after the first step and `more` further ones,
/// as far as the run proceeds by itself: the first step takes `reply`, the
/// others none, and nothing changes once the directive is not `Proceed`.
pub open spec fn steps(d: DriverView, env: Environment, reply: Option<ReplyView>, more: nat) -> (
    DriverView,
    Directive,
)
    decreases more,
{
    if more == 0 {
        transition(d, env, reply)
    } else {
        let before = steps(d, env, reply, (more - 1) as nat);
        if before.1 == Directive::Proceed {
            transition(before.0, env, None)
        } else {
            before
        }
    }
}

/// How many manifests have not had their turn.
pub open spec fn manifests_left(d: DriverView) -> int {
    d.order.len() - d.slot
}

/// How many actions of the manifest whose turn it is have not had theirs.
pub open spec fn actions_left(d: DriverView) -> int {
    if 0 <= d.slot < d.order.len() {
        d.manifests[d.order[d.slot] as int].actions.len() - d.action
    } else {
        0
    }
}

/// A dry run never asks for a call to a provider, and no installation is ever
/// under way in it.
pub proof fn law_dry_run_makes_no_call(d: DriverView, env: Environment, reply: Option<ReplyView>)
    requires
        d.mode == Mode::DryRun,
        d.active is None,
    ensures
        !(transition(d, env, reply).1 is Call),
        transition(d, env, reply).0.active is None,
        transition(d, env, reply).0.mode == Mode::DryRun,
{
}

/// A step changes neither the manifests nor their order, the mode or the
/// policy: a run is a dry run throughout, or never.
pub proof fn law_step_keeps_the_plan(d: DriverView, env: Environment, reply: Option<ReplyView>)
    ensures
        transition(d, env, reply).0.manifests == d.manifests,
        transition(d, env, reply).0.order == d.order,
        transition(d, env, reply).0.mode == d.mode,
        transition(d, env, reply).0.policy == d.policy,
{
}

/// Every action has its turn at most once: a step never moves the turn back,
/// it puts at most one outcome on record, that of the action whose turn it
/// was, and then the turn has moved on. Nothing is tried again.
pub proof fn law_each_action_runs_once(d: DriverView, env: Environment, reply: Option<ReplyView>)
    ensures
        ({
            let after = transition(d, env, reply).0;
            &&& after.slot > d.slot || (after.slot == d.slot && after.action >= d.action)
            &&& after.records == d.records || {
                &&& after.records.len() == d.records.len() + 1
                &&& after.records.drop_last() == d.records
                &&& after.records.last().manifest == d.order[d.slot]
                &&& after.records.last().action == d.action
                &&& after.slot == d.slot
                &&& after.action == d.action + 1
            }
        }),
{
    let after = transition(d, env, reply).0;
    if after.records != d.records {
        assert(after.records.drop_last() =~= d.records);
    }
}

/// Once a failure has stopped a run, or no manifest is left, every step
/// answers `Finished` and changes nothing.
pub proof fn law_finished_run_stays_finished(
    d: DriverView,
    env: Environment,
    reply: Option<ReplyView>,
)
    requires
        d.halted || d.slot >= d.order.len(),
    ensures
        transition(d, env, reply) == (d, Directive::Finished),
{
}

/// Under the policy to abort, the first failure stops the run.
pub proof fn law_abort_stops_at_first_failure(
    d: DriverView,
    env: Environment,
    reply: Option<ReplyView>,
)
    requires
        d.policy == Policy::Abort,
        !d.halted,
    ensures
        ({
            let after = transition(d, env, reply).0;
            after.halted <==> after.records.len() == d.records.len() + 1
                && after.records.last().outcome is Err
        }),
{
}

impl Driver {
    #[verifier::type_invariant]
    spec fn sound(self) -> bool {
        &&& is_ordering(self.manifests@, self.order@)
        &&& self.active is Some ==> self.mode == Mode::Apply && self.action < usize::MAX
        &&& forall|i: int|
            0 <= i < self.records.len() ==> (#[trigger] self.records[i]).manifest
                < self.manifests.len()
    }

    /// Prepares a run: the manifests are put in dependency order. Where they
    /// cannot be, there is no run, and so no action is tried.
    pub fn load(manifests: Vec<Manifest>, mode: Mode, policy: Policy) -> (r: Result<
        Driver,
        LoadError,
    >)
        ensures
            has_dependency_cycle(manifests@) ==> r matches Err(LoadError::DependencyCycle),
            match r {
                Ok(driver) => {
                    &&& !has_dependency_cycle(manifests@)
                    &&& forall|a: int, k: int| !unknown_at(manifests@, a, k)
                    &&& is_ordering(manifests@, driver@.order)
                    &&& driver@ == DriverView {
                        manifests: manifests@,
                        order: driver@.order,
                        mode,
                        policy,
                        slot: 0,
                        action: 0,
                        active: None,
                        records: Seq::empty(),
                        halted: false,
                    }
                },
                Err(LoadError::DependencyCycle) => has_dependency_cycle(manifests@),
                Err(LoadError::UnknownDependency { manifest, dependency }) => {
                    &&& !has_dependency_cycle(manifests@)
                    &&& exists|a: int, k: int|
                        {
                            &&& #[trigger] first_unknown_at(manifests@, a, k)
                            &&& manifest@ == manifests[a].name@
                            &&& dependency@ == manifests[a].depends[k]@
                        }
                },
            },
    {
        match resolve(&manifests) {
            Ok(order) => {
                let driver = Driver {
                    manifests,
                    order,
                    mode,
                    policy,
                    slot: 0,
                    action: 0,
                    active: None,
                    records: Vec::new(),
                    halted: false,
                };
                assert(driver@.records =~= Seq::empty());
                Ok(driver)
            },
            Err(e) => Err(e),
        }
    }

    /// The manifests of the run.
    pub fn manifests(&self) -> (manifests: &Vec<Manifest>)
        ensures
            manifests@ == self@.manifests,
    {
        &self.manifests
    }

    /// The order in which the manifests run: each after all it depends on.
    pub fn order(&self) -> (order: &Vec<usize>)
        ensures
            order@ == self@.order,
            is_ordering(self@.manifests, order@),
    {
        proof {
            use_type_invariant(self);
        }
        &self.order
    }

    /// How the actions ended that were tried so far.
    pub fn records(&self) -> (records: &Vec<Record>)
        ensures
            record_views(records@) == self@.records,
    {
        &self.records
    }

    /// The installation under way, if a call to a provider is pending.
    pub fn active(&self) -> (active: Option<&InstallRun>)
        ensures
            match active {
                Some(run) => self@.active == Some(run@),
                None => self@.active is None,
            },
    {
        self.active.as_ref()
    }

    /// Whether the actions are tried out or carried out.
    pub fn mode(&self) -> (mode: Mode)
        ensures
            mode == self@.mode,
    {
        self.mode
    }

    /// What the run does once an action has failed.
    pub fn policy(&self) -> (policy: Policy)
        ensures
            policy == self@.policy,
    {
        self.policy
    }

    /// Whether the run is over: a failure has stopped it, or no manifest is
    /// left.
    pub fn is_finished(&self) -> (finished: bool)
        ensures
            finished == (self@.halted || self@.slot >= self@.order.len()),
    {
        self.halted || self.slot >= self.order.len()
    }

    /// Takes one step: see [`transition`]. `reply` is the provider's reply to
    /// the call that the step before asked for.
    pub fn step(self, env: &Environment, reply: Option<Reply>) -> (r: (Driver, Directive))
        ensures
            (r.0@, r.1) == transition(self@, *env, given(reply)),
            self@.mode == Mode::DryRun ==> !(r.1 is Call),
    {
        proof {
            use_type_invariant(&self);
        }
        let Driver { manifests, order, mode, policy, slot, action, active, records, halted } = self;
        if halted || slot >= order.len() {
            return (
                Driver { manifests, order, mode, policy, slot, action, active, records, halted },
                Directive::Finished,
            );
        }
        let m = order[slot];
        match active {
            Some(run) => match reply {
                None => {
                    let call = run.pending();
                    (
                        Driver {
                            manifests,
                            order,
                            mode,
                            policy,
                            slot,
                            action,
                            active: Some(run),
                            records,
                            halted,
                        },
                        Directive::Call(call),
                    )
                },
                Some(reply) => match run.advance(reply) {
                    Progress::Call(next) => {
                        let call = next.pending();
                        (
                            Driver {
                                manifests,
                                order,
                                mode,
                                policy,
                                slot,
                                action,
                                active: Some(next),
                                records,
                                halted,
                            },
                            Directive::Call(call),
                        )
                    },
                    Progress::Done(outcome) => Driver::settled(
                        manifests,
                        order,
                        mode,
                        policy,
                        slot,
                        action,
                        records,
                        outcome,
                    ),
                },
            },
            None => {
                if action >= manifests[m].actions.len() {
                    (
                        Driver {
                            manifests,
                            order,
                            mode,
                            policy,
                            slot: slot + 1,
                            action: 0,
                            active: None,
                            records,
                            halted,
                        },
                        Directive::Proceed,
                    )
                } else {
                    let context = VariableContext::new(
                        &env.platform,
                        &env.global,
                        &manifests[m].variables,
                    );
                    assert(context@ == context_of(*env, manifests[m as int]));
                    match mode {
                        Mode::DryRun => {
                            let outcome = manifests[m].actions[action].dry_run(
                                &manifests[m],
                                &context,
                                &env.providers,
                            );
                            Driver::settled(
                                manifests,
                                order,
                                mode,
                                policy,
                                slot,
                                action,
                                records,
                                outcome,
                            )
                        },
                        Mode::Apply => {
                            let begun = manifests[m].actions[action].run(
                                &manifests[m],
                                &context,
                                &env.providers,
                            );
                            match begun {
                                Ok(run) => (
                                    Driver {
                                        manifests,
                                        order,
                                        mode,
                                        policy,
                                        slot,
                                        action,
                                        active: Some(run),
                                        records,
                                        halted,
                                    },
                                    Directive::Call(ProviderCall::Available),
                                ),
                                Err(e) => Driver::settled(
                                    manifests,
                                    order,
                                    mode,
                                    policy,
                                    slot,
                                    action,
                                    records,
                                    Err(e),
                                ),
                            }
                        },
                    }
                }
            },
        }
    }

    /// Reports how every action ended that was tried so far, one line each,
    /// in the order in which they were tried.
    pub fn report(&self) -> (lines: Vec<String>)
        ensures
            lines.len() == self@.records.len(),
            forall|i: int|
                0 <= i < lines.len() ==> 0 <= self@.records[i].manifest < self@.manifests.len()
                    && (#[trigger] lines[i])@ == report_line(
                    self@.mode,
                    self@.manifests[self@.records[i].manifest].name@,
                    self@.records[i].outcome,
                ),
    {
        proof {
            use_type_invariant(self);
        }
        let mut lines: Vec<String> = Vec::new();
        let mut i: usize = 0;
        while i < self.records.len()
            invariant
                i <= self.records.len(),
                lines.len() == i,
                forall|j: int|
                    0 <= j < self.records.len() ==> (#[trigger] self.records[j]).manifest
                        < self.manifests.len(),
                forall|j: int|
                    0 <= j < i ==> (#[trigger] lines[j])@ == report_line(
                        self.mode,
                        self.manifests[self.records[j].manifest as int].name@,
                        reported(self.records[j].outcome),
                    ),
            decreases self.records.len() - i,
        {
            let record = &self.records[i];
            let mut line = String::from_str("[");
            let label = self.mode.label();
            line.append(label.as_str());
            line.append("] ");
            line.append(self.manifests[record.manifest].name.as_str());
            line.append(": ");
            match &record.outcome {
                Ok(result) => {
                    line.append(result.message.as_str());
                },
                Err(error) => {
                    let text = error.message();
                    let mut failure = String::from_str("failed: ");
                    failure.append(text.as_str());
                    line.append(failure.as_str());
                },
            }
            lines.push(line);
            i += 1;
        }
        lines
    }

    /// Steps until the host has something to do: the first step takes
    /// `reply`, and the run goes on by itself while the directive is
    /// `Proceed`. A dry run is over when this returns.
    pub fn advance(self, env: &Environment, reply: Option<Reply>) -> (r: (Driver, Directive))
        ensures
            r.1 != Directive::Proceed,
            exists|more: nat|
                (r.0@, r.1) == #[trigger] steps(self@, *env, given(reply), more),
            self@.mode == Mode::DryRun ==> r.1 == Directive::Finished,
    {
        let ghost start = self@;
        let ghost input = given(reply);
        let first = self.step(env, reply);
        let mut driver = first.0;
        let mut directive = first.1;
        let ghost mut more: nat = 0;
        if directive != Directive::Proceed {
            assert((driver@, directive) == steps(start, *env, input, 0));
            return (driver, directive);
        }
        proof {
            law_step_keeps_the_plan(start, *env, input);
        }
        loop
            invariant
                directive == Directive::Proceed,
                (driver@, directive) == steps(start, *env, input, more),
                driver@.mode == start.mode,
                start == self@,
                input == given(reply),
            decreases manifests_left(driver@), actions_left(driver@),
        {
            let ghost before = driver@;
            proof {
                law_step_keeps_the_plan(before, *env, None);
            }
            let next = driver.step(env, None);
            proof {
                more = more + 1;
                assert((next.0@, next.1) == steps(start, *env, input, more));
            }
            if next.1 != Directive::Proceed {
                return next;
            }
            driver = next.0;
            directive = next.1;
        }
    }

    /// Puts the outcome of the action whose turn it was on record.
    fn settled(
        manifests: Vec<Manifest>,
        order: Vec<usize>,
        mode: Mode,
        policy: Policy,
        slot: usize,
        action: usize,
        records: Vec<Record>,
        outcome: Result<ActionResult, ActionError>,
    ) -> (r: (Driver, Directive))
        requires
            is_ordering(manifests@, order@),
            slot < order.len(),
            action < usize::MAX,
            forall|i: int|
                0 <= i < records.len() ==> (#[trigger] records[i]).manifest < manifests.len(),
        ensures
            (r.0@, r.1) == settle(
                DriverView {
                    manifests: manifests@,
                    order: order@,
                    mode,
                    policy,
                    slot: slot as int,
                    action: action as int,
                    active: None,
                    records: record_views(records@),
                    halted: false,
                },
                reported(outcome),
            ),
            !(r.1 is Call),
    {
        let failed = outcome.is_err();
        let mut records = records;
        let ghost before = records@;
        records.push(Record { manifest: order[slot], action, outcome });
        assert(record_views(records@) =~= record_views(before).push(records@.last()@));
        let halted = failed && policy == Policy::Abort;
        let directive = if halted {
            Directive::Finished
        } else {
            Directive::Proceed
        };
        (
            Driver {
                manifests,
                order,
                mode,
                policy,
                slot,
                action: action + 1,
                active: None,
                records,
                halted,
            },
            directive,
        )
    }
}

} // verus!

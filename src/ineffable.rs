use vstd::prelude::*;

use crate::action::{Continuous, DualAxis, IAWrp, InputAction, Pulse, SingleAxis};
use crate::axis::{
    single_axis_bindings, x_axis_bindings, y_axis_bindings, Direction2D, StatefulDualAxisBinding,
    StatefulSingleAxisBinding,
};
use crate::binary::chord_views;
use crate::bindings::{InputBinding, InputKind};
use crate::config::{config_action_bindings, distinct_action_ids, find_action, GroupBindings, InputConfig};
use crate::continuous::{continuous_bindings, StatefulContinuousBinding};
use crate::input::{BinaryInput, Chord, InputSources};
use crate::meta::{IneffableMetaData, IneffableMetaItem, MetaGroup};
use crate::prefix::{lemma_some_before_step, some_before};
use crate::processor::{collect_inputs, config_chords};
use crate::report::InputConfigReport;
use crate::validate::{config_problems, validate};
use crate::pulse::{pulse_bindings, StatefulPulseBinding};
use crate::settings::{settings_from_timings, IneffableSettings};

verus! {

/// The state of one registered action, of its kind.
#[derive(Debug, Clone)]
pub enum BoundAction {
    SingleAxis(StatefulSingleAxisBinding),
    DualAxis(StatefulDualAxisBinding),
    Continuous(StatefulContinuousBinding),
    Pulse(StatefulPulseBinding),
}

impl BoundAction {
    pub open spec fn wf(&self) -> bool {
        match self {
            BoundAction::SingleAxis(b) => b.wf(),
            BoundAction::DualAxis(b) => b.wf(),
            BoundAction::Continuous(b) => b.wf(),
            BoundAction::Pulse(b) => b.wf(),
        }
    }

    pub open spec fn steps_to(&self, next: Self, sources: InputSources, settings: IneffableSettings) -> bool {
        match self {
            BoundAction::SingleAxis(b) => match next {
                BoundAction::SingleAxis(c) => b.steps_to(c, sources, settings),
                _ => false,
            },
            BoundAction::DualAxis(b) => match next {
                BoundAction::DualAxis(c) => b.steps_to(c, sources, settings),
                _ => false,
            },
            BoundAction::Continuous(b) => match next {
                BoundAction::Continuous(c) => b.steps_to(c, sources, settings),
                _ => false,
            },
            BoundAction::Pulse(b) => match next {
                BoundAction::Pulse(c) => b.steps_to(c, sources, settings),
                _ => false,
            },
        }
    }

    /// Some chord of the action was just pressed.
    pub open spec fn fresh_press(&self) -> bool {
        match self {
            BoundAction::SingleAxis(b) => b.fresh_press(),
            BoundAction::DualAxis(b) => b.x.fresh_press() || b.y.fresh_press(),
            BoundAction::Continuous(b) => b.fresh_press(),
            BoundAction::Pulse(b) => b.fresh_press(),
        }
    }

    /// The action is the fresh state, of kind `kind`, of the bindings of that kind among `data`.
    pub open spec fn built_from(&self, kind: InputKind, data: Seq<InputBinding>, all: Seq<Seq<BinaryInput>>) -> bool {
        match kind {
            InputKind::SingleAxis => match self {
                BoundAction::SingleAxis(b) => b.built_from(single_axis_bindings(data), all),
                _ => false,
            },
            InputKind::DualAxis => match self {
                BoundAction::DualAxis(b) => {
                    &&& b.x.built_from(x_axis_bindings(data), all)
                    &&& b.y.built_from(y_axis_bindings(data), all)
                    &&& b.value == Direction2D { x: 0, y: 0 }
                },
                _ => false,
            },
            InputKind::Continuous => match self {
                BoundAction::Continuous(b) => b.built_from(continuous_bindings(data), all),
                _ => false,
            },
            InputKind::Pulse => match self {
                BoundAction::Pulse(b) => b.built_from(pulse_bindings(data), all),
                _ => false,
            },
        }
    }

    /// The fresh state of the action `meta` with the bindings `data`, with blockers from `all`.
    pub fn new(meta: &IneffableMetaItem, data: &Vec<InputBinding>, all: &Vec<Chord>) -> (r: BoundAction)
        ensures
            r.built_from(meta.kind, data@, chord_views(all@)),
            r.wf(),
    {
        match meta.kind {
            InputKind::SingleAxis => BoundAction::SingleAxis(StatefulSingleAxisBinding::new(data, all)),
            InputKind::DualAxis => BoundAction::DualAxis(StatefulDualAxisBinding::new(data, all)),
            InputKind::Continuous => BoundAction::Continuous(StatefulContinuousBinding::new(data, all)),
            InputKind::Pulse => BoundAction::Pulse(StatefulPulseBinding::new_from_vec(data, all)),
        }
    }

    /// Reads one tick. Returns whether a chord of the action was freshly pressed.
    pub fn update(&mut self, sources: &InputSources, settings: &IneffableSettings) -> (fresh: bool)
        requires
            old(self).wf(),
        ensures
            old(self).steps_to(*final(self), *sources, *settings),
            final(self).wf(),
            fresh == final(self).fresh_press(),
    {
        match self {
            BoundAction::SingleAxis(b) => b.update(sources, settings),
            BoundAction::DualAxis(b) => b.update(sources, settings),
            BoundAction::Continuous(b) => b.update(sources, settings),
            BoundAction::Pulse(b) => b.update(sources, settings),
        }
    }
}

pub open spec fn bound_fresh_pred() -> spec_fn(BoundAction) -> bool {
    |a: BoundAction| a.fresh_press()
}

/// The actions of one group, by index.
#[derive(Debug, Clone)]
pub struct BoundGroup {
    pub group_id: String,
    pub actions: Vec<BoundAction>,
}

/// Some action of the group had a chord freshly pressed.
pub open spec fn group_fresh(g: BoundGroup) -> bool {
    some_before(g.actions@, g.actions@.len() as int, bound_fresh_pred())
}

pub open spec fn group_fresh_pred() -> spec_fn(BoundGroup) -> bool {
    |g: BoundGroup| group_fresh(g)
}

/// `b` is the fresh state of the registered group that `g` binds: one action
/// per registered action, in the registry's order.
pub open spec fn group_installed(b: BoundGroup, meta: IneffableMetaData, g: GroupBindings, all: Seq<Seq<BinaryInput>>) -> bool {
    let m = meta.spec_group(g.group_id@).actions@;
    &&& b.group_id@ == g.group_id@
    &&& b.actions@.len() == m.len()
    &&& forall|k: int|
        0 <= k < m.len() ==> #[trigger] b.actions@[k].built_from(
            m[k].kind,
            config_action_bindings(g, m[k].action_id@),
            all,
        )
}

/// The groups of `groups` that are registered, in order.
pub open spec fn registered_groups(meta: IneffableMetaData, groups: Seq<GroupBindings>) -> Seq<GroupBindings> {
    groups.filter(|g: GroupBindings| meta.spec_group_exists(g.group_id@))
}

/// The input engine: the state of every bound action, and the settings they read.
#[derive(Debug, Clone)]
pub struct Ineffable {
    pub groups: Vec<BoundGroup>,
    pub settings: IneffableSettings,
}

impl Ineffable {
    pub open spec fn wf(&self) -> bool {
        &&& forall|i: int, j: int|
            0 <= i < self.groups@.len() && 0 <= j < self.groups@.len() && i != j
                ==> #[trigger] self.groups@[i].group_id@ != #[trigger] self.groups@[j].group_id@
        &&& forall|i: int, k: int|
            0 <= i < self.groups@.len() && 0 <= k < self.groups@[i].actions@.len()
                ==> #[trigger] self.groups@[i].actions@[k].wf()
        &&& self.settings.wf()
    }

    /// The action at `index` of the group named `group_id`, if there is one.
    pub open spec fn spec_bound(&self, group_id: Seq<char>, index: usize) -> Option<BoundAction> {
        if exists|i: int| 0 <= i < self.groups@.len() && #[trigger] self.groups@[i].group_id@ == group_id {
            let i = choose|i: int| 0 <= i < self.groups@.len() && #[trigger] self.groups@[i].group_id@ == group_id;
            if index < self.groups@[i].actions@.len() {
                Some(self.groups@[i].actions@[index as int])
            } else {
                None
            }
        } else {
            None
        }
    }

    /// An engine with no bound actions and default settings.
    pub fn new() -> (r: Self)
        ensures
            r.groups@.len() == 0,
            r.settings == IneffableSettings::spec_new(),
            r.wf(),
    {
        Ineffable { groups: Vec::new(), settings: IneffableSettings::new() }
    }

    /// The action at `index` of the group named `group_id`, if there is one.
    pub fn bound_action(&self, group_id: &String, index: usize) -> (r: Option<&BoundAction>)
        requires
            self.wf(),
        ensures
            r matches Some(a) ==> self.spec_bound(group_id@, index) == Some(*a),
            r is None ==> self.spec_bound(group_id@, index) is None,
    {
        let mut i: usize = 0;
        while i < self.groups.len()
            invariant
                i <= self.groups@.len(),
                self.wf(),
                forall|k: int| 0 <= k < i ==> self.groups@[k].group_id@ != group_id@,
            decreases self.groups@.len() - i,
        {
            if self.groups[i].group_id == *group_id {
                proof {
                    assert(self.groups@[i as int].group_id@ == group_id@);
                    let c = choose|c: int| 0 <= c < self.groups@.len() && #[trigger] self.groups@[c].group_id@ == group_id@;
                    if c != i as int {
                        assert(self.groups@[c].group_id@ != self.groups@[i as int].group_id@);
                    }
                }
                if index < self.groups[i].actions.len() {
                    return Some(&self.groups[i].actions[index]);
                } else {
                    return None;
                }
            }
            i = i + 1;
        }
        None
    }

    /// Advances every bound action by one tick. The post-acceptance delay
    /// advances first; a fresh press of any chord arms it for the next tick.
    pub fn update(&mut self, sources: &InputSources)
        requires
            old(self).wf(),
        ensures
            final(self).wf(),
            final(self).groups@.len() == old(self).groups@.len(),
            forall|i: int|
                0 <= i < old(self).groups@.len() ==> {
                    &&& (#[trigger] final(self).groups@[i]).group_id == old(self).groups@[i].group_id
                    &&& final(self).groups@[i].actions@.len() == old(self).groups@[i].actions@.len()
                },
            forall|i: int, k: int|
                0 <= i < old(self).groups@.len() && 0 <= k < old(self).groups@[i].actions@.len()
                    ==> #[trigger] old(self).groups@[i].actions@[k].steps_to(
                    final(self).groups@[i].actions@[k],
                    *sources,
                    old(self).settings.spec_tick(sources.delta),
                ),
            final(self).settings == if some_before(final(self).groups@, final(self).groups@.len() as int, group_fresh_pred()) {
                old(self).settings.spec_tick(sources.delta).spec_input_detected()
            } else {
                old(self).settings.spec_tick(sources.delta)
            },
    {
        self.settings.tick(sources.delta);
        let ghost start = self.groups@;
        let ghost ticked = self.settings;
        let mut fresh = false;
        let mut i: usize = 0;
        while i < self.groups.len()
            invariant
                i <= self.groups@.len(),
                self.groups@.len() == start.len(),
                self.settings == ticked,
                ticked.wf(),
                forall|a: int, b: int|
                    0 <= a < start.len() && 0 <= b < start.len() && a != b ==> #[trigger] start[a].group_id@
                        != #[trigger] start[b].group_id@,
                forall|a: int, k: int|
                    0 <= a < start.len() && 0 <= k < start[a].actions@.len() ==> #[trigger] start[a].actions@[k].wf(),
                forall|a: int|
                    0 <= a < start.len() ==> {
                        &&& (#[trigger] self.groups@[a]).group_id == start[a].group_id
                        &&& self.groups@[a].actions@.len() == start[a].actions@.len()
                    },
                forall|a: int, k: int|
                    0 <= a < self.groups@.len() && 0 <= k < self.groups@[a].actions@.len()
                        ==> #[trigger] self.groups@[a].actions@[k].wf(),
                forall|a: int, k: int|
                    0 <= a < i && 0 <= k < start[a].actions@.len() ==> #[trigger] start[a].actions@[k].steps_to(
                        self.groups@[a].actions@[k],
                        *sources,
                        ticked,
                    ),
                forall|a: int| i <= a < self.groups@.len() ==> #[trigger] self.groups@[a] == start[a],
                fresh == some_before(self.groups@, i as int, group_fresh_pred()),
            decreases self.groups@.len() - i,
        {
            let ghost prev = self.groups@;
            let f = update_group(&mut self.groups[i].actions, sources, &self.settings);
            proof {
                lemma_some_before_step(prev, self.groups@, i as int, group_fresh_pred());
            }
            fresh = fresh || f;
            i = i + 1;
        }
        if fresh {
            self.settings.input_detected();
        }
        proof {
            assert forall|a: int, b: int|
                0 <= a < self.groups@.len() && 0 <= b < self.groups@.len() && a != b
                    implies #[trigger] self.groups@[a].group_id@ != #[trigger] self.groups@[b].group_id@ by {
                assert(start[a].group_id@ != start[b].group_id@);
            }
        }
    }

    /// Replaces every bound action and the settings with those of `config`, in
    /// one step. Groups and actions that are not registered are left out; a
    /// registered action without bindings is bound to none.
    pub fn set_config_silent(&mut self, meta: &IneffableMetaData, config: &InputConfig)
        requires
            meta.wf(),
            config.wf(),
        ensures
            final(self).wf(),
            final(self).groups@.len() == registered_groups(*meta, config.bindings@).len(),
            forall|k: int|
                0 <= k < final(self).groups@.len() ==> group_installed(
                    #[trigger] final(self).groups@[k],
                    *meta,
                    registered_groups(*meta, config.bindings@)[k],
                    config_chords(*meta, *config),
                ),
            final(self).settings == settings_from_timings(config.double_click_timing, config.post_acceptance_delay),
    {
        let all = collect_inputs(meta, config);
        let ghost chords = chord_views(all@);
        let mut groups: Vec<BoundGroup> = Vec::new();
        let mut g: usize = 0;
        while g < config.bindings.len()
            invariant
                g <= config.bindings@.len(),
                meta.wf(),
                config.wf(),
                chords == chord_views(all@),
                groups@.len() == registered_groups(*meta, config.bindings@.take(g as int)).len(),
                forall|k: int|
                    0 <= k < groups@.len() ==> group_installed(
                        #[trigger] groups@[k],
                        *meta,
                        registered_groups(*meta, config.bindings@.take(g as int))[k],
                        chords,
                    ),
                forall|k: int|
                    0 <= k < groups@.len() ==> exists|j: int|
                        0 <= j < g && (#[trigger] groups@[k]).group_id@ == config.bindings@[j].group_id@,
                forall|a: int, b: int|
                    0 <= a < groups@.len() && 0 <= b < groups@.len() && a != b ==> #[trigger] groups@[a].group_id@
                        != #[trigger] groups@[b].group_id@,
                forall|a: int, k: int|
                    0 <= a < groups@.len() && 0 <= k < groups@[a].actions@.len() ==> #[trigger] groups@[a].actions@[k].wf(),
            decreases config.bindings@.len() - g,
        {
            let group = &config.bindings[g];
            proof {
                reveal(Seq::filter);
                assert(config.bindings@.take(g + 1).drop_last() =~= config.bindings@.take(g as int));
                assert(config.bindings@.take(g + 1).last() == config.bindings@[g as int]);
            }
            if let Some(mg) = meta.group(&group.group_id) {
                let bound = install_group(mg, group, &all);
                let ghost before = groups@;
                groups.push(bound);
                proof {
                    assert forall|a: int, b: int|
                        0 <= a < groups@.len() && 0 <= b < groups@.len() && a != b
                            implies #[trigger] groups@[a].group_id@ != #[trigger] groups@[b].group_id@ by {
                        if a == before.len() as int || b == before.len() as int {
                            let o = if a == before.len() as int { b } else { a };
                            let j = choose|j: int| 0 <= j < g && (#[trigger] before[o]).group_id@ == config.bindings@[j].group_id@;
                            assert(config.bindings@[j].group_id@ != config.bindings@[g as int].group_id@);
                        }
                    }
                    assert forall|k: int| 0 <= k < groups@.len() implies exists|j: int|
                        0 <= j < g + 1 && (#[trigger] groups@[k]).group_id@ == config.bindings@[j].group_id@ by {
                        if k == before.len() as int {
                            assert(groups@[k].group_id@ == config.bindings@[g as int].group_id@);
                        } else {
                            assert(groups@[k] == before[k]);
                            let j = choose|j: int| 0 <= j < g && (#[trigger] before[k]).group_id@ == config.bindings@[j].group_id@;
                            assert(groups@[k].group_id@ == config.bindings@[j].group_id@);
                        }
                    }
                    assert forall|a: int, k: int|
                        0 <= a < groups@.len() && 0 <= k < groups@[a].actions@.len()
                            implies #[trigger] groups@[a].actions@[k].wf() by {
                        if a < before.len() {
                            assert(groups@[a] == before[a]);
                        }
                    }
                }
            }
            g = g + 1;
        }
        assert(config.bindings@.take(config.bindings@.len() as int) =~= config.bindings@);
        self.groups = groups;
        self.settings.set(config);
    }

    /// Validates `config`, installs it, and returns the report of its problems.
    pub fn set_config(&mut self, meta: &IneffableMetaData, config: &InputConfig) -> (r: InputConfigReport)
        requires
            meta.wf(),
            config.wf(),
        ensures
            r.view() == config_problems(*meta, *config),
            final(self).wf(),
            final(self).groups@.len() == registered_groups(*meta, config.bindings@).len(),
            forall|k: int|
                0 <= k < final(self).groups@.len() ==> group_installed(
                    #[trigger] final(self).groups@[k],
                    *meta,
                    registered_groups(*meta, config.bindings@)[k],
                    config_chords(*meta, *config),
                ),
            final(self).settings == settings_from_timings(config.double_click_timing, config.post_acceptance_delay),
    {
        let report = validate(meta, config);
        self.set_config_silent(meta, config);
        report
    }

    // ===== Queries =====

    pub open spec fn spec_direction_2d(&self, group_id: Seq<char>, index: usize) -> Direction2D {
        match self.spec_bound(group_id, index) {
            Some(BoundAction::DualAxis(b)) => b.value,
            _ => Direction2D { x: 0, y: 0 },
        }
    }

    pub open spec fn spec_direction_1d(&self, group_id: Seq<char>, index: usize) -> i8 {
        match self.spec_bound(group_id, index) {
            Some(BoundAction::SingleAxis(b)) => b.value,
            _ => 0,
        }
    }

    /// The continuous action at the place, if one is bound there.
    pub open spec fn spec_continuous(&self, group_id: Seq<char>, index: usize) -> Option<StatefulContinuousBinding> {
        match self.spec_bound(group_id, index) {
            Some(BoundAction::Continuous(b)) => Some(b),
            _ => None,
        }
    }

    pub open spec fn spec_just_pulsed(&self, group_id: Seq<char>, index: usize) -> bool {
        match self.spec_bound(group_id, index) {
            Some(BoundAction::Pulse(b)) => b.just_pulsed,
            _ => false,
        }
    }

    /// The direction of the dual-axis action at `index` of the group `group_id`;
    /// zero where no dual-axis action is bound.
    pub fn direction_2d_at(&self, group_id: &String, index: usize) -> (r: Direction2D)
        requires
            self.wf(),
        ensures
            r == self.spec_direction_2d(group_id@, index),
    {
        match self.bound_action(group_id, index) {
            Some(BoundAction::DualAxis(b)) => b.value,
            _ => Direction2D { x: 0, y: 0 },
        }
    }

    /// The direction, -1, 0 or 1, of the single-axis action at `index` of the
    /// group `group_id`; zero where no single-axis action is bound.
    pub fn direction_1d_at(&self, group_id: &String, index: usize) -> (r: i8)
        requires
            self.wf(),
        ensures
            r == self.spec_direction_1d(group_id@, index),
    {
        match self.bound_action(group_id, index) {
            Some(BoundAction::SingleAxis(b)) => b.value,
            _ => 0,
        }
    }

    /// Whether the continuous action at `index` of the group `group_id` is active.
    pub fn is_active_at(&self, group_id: &String, index: usize) -> (r: bool)
        requires
            self.wf(),
        ensures
            r == match self.spec_continuous(group_id@, index) {
                Some(b) => b.active,
                None => false,
            },
    {
        match self.bound_action(group_id, index) {
            Some(BoundAction::Continuous(b)) => b.active,
            _ => false,
        }
    }

    /// Whether the continuous action is active now and was not in the previous tick.
    pub fn just_activated_at(&self, group_id: &String, index: usize) -> (r: bool)
        requires
            self.wf(),
        ensures
            r == match self.spec_continuous(group_id@, index) {
                Some(b) => b.active && !b.active_previous_tick,
                None => false,
            },
    {
        match self.bound_action(group_id, index) {
            Some(BoundAction::Continuous(b)) => b.active && !b.active_previous_tick,
            _ => false,
        }
    }

    /// Whether the continuous action was active in the previous tick and is not now.
    pub fn just_deactivated_at(&self, group_id: &String, index: usize) -> (r: bool)
        requires
            self.wf(),
        ensures
            r == match self.spec_continuous(group_id@, index) {
                Some(b) => !b.active && b.active_previous_tick,
                None => false,
            },
    {
        match self.bound_action(group_id, index) {
            Some(BoundAction::Continuous(b)) => !b.active && b.active_previous_tick,
            _ => false,
        }
    }

    /// How long, in nanoseconds, the continuous action has been active; `None` when it is not.
    pub fn charge_time_at(&self, group_id: &String, index: usize) -> (r: Option<u64>)
        requires
            self.wf(),
        ensures
            r == match self.spec_continuous(group_id@, index) {
                Some(b) => if b.time_active == 0 {
                    None
                } else {
                    Some(b.time_active)
                },
                None => None,
            },
    {
        match self.bound_action(group_id, index) {
            Some(BoundAction::Continuous(b)) => b.charging_duration(),
            _ => None,
        }
    }

    /// Whether the pulse action at `index` of the group `group_id` fired in this tick.
    pub fn just_pulsed_at(&self, group_id: &String, index: usize) -> (r: bool)
        requires
            self.wf(),
        ensures
            r == self.spec_just_pulsed(group_id@, index),
    {
        match self.bound_action(group_id, index) {
            Some(BoundAction::Pulse(b)) => b.just_pulsed,
            _ => false,
        }
    }

    /// The direction of a dual-axis action: zero where no dual-axis action is bound.
    pub fn direction_2d<I: InputAction>(&self, action: IAWrp<I, DualAxis>) -> (r: Direction2D)
        requires
            self.wf(),
        ensures
            r == self.spec_direction_2d(I::spec_group_id(), action.0.spec_index()),
    {
        self.direction_2d_at(&I::group_id(), action.0.index())
    }

    /// The direction of a single-axis action: zero where no single-axis action is bound.
    pub fn direction_1d<I: InputAction>(&self, action: IAWrp<I, SingleAxis>) -> (r: i8)
        requires
            self.wf(),
        ensures
            r == self.spec_direction_1d(I::spec_group_id(), action.0.spec_index()),
    {
        self.direction_1d_at(&I::group_id(), action.0.index())
    }

    /// Whether a continuous action is active.
    pub fn is_active<I: InputAction>(&self, action: IAWrp<I, Continuous>) -> (r: bool)
        requires
            self.wf(),
        ensures
            r == match self.spec_continuous(I::spec_group_id(), action.0.spec_index()) {
                Some(b) => b.active,
                None => false,
            },
    {
        self.is_active_at(&I::group_id(), action.0.index())
    }

    /// Whether a continuous action is active now and was not in the previous tick.
    pub fn just_activated<I: InputAction>(&self, action: IAWrp<I, Continuous>) -> (r: bool)
        requires
            self.wf(),
        ensures
            r == match self.spec_continuous(I::spec_group_id(), action.0.spec_index()) {
                Some(b) => b.active && !b.active_previous_tick,
                None => false,
            },
    {
        self.just_activated_at(&I::group_id(), action.0.index())
    }

    /// Whether a continuous action was active in the previous tick and is not now.
    pub fn just_deactivated<I: InputAction>(&self, action: IAWrp<I, Continuous>) -> (r: bool)
        requires
            self.wf(),
        ensures
            r == match self.spec_continuous(I::spec_group_id(), action.0.spec_index()) {
                Some(b) => !b.active && b.active_previous_tick,
                None => false,
            },
    {
        self.just_deactivated_at(&I::group_id(), action.0.index())
    }

    /// How long, in nanoseconds, a continuous action has been active; `None` when it is not.
    pub fn charge_time<I: InputAction>(&self, action: IAWrp<I, Continuous>) -> (r: Option<u64>)
        requires
            self.wf(),
        ensures
            r == match self.spec_continuous(I::spec_group_id(), action.0.spec_index()) {
                Some(b) => if b.time_active == 0 {
                    None
                } else {
                    Some(b.time_active)
                },
                None => None,
            },
    {
        self.charge_time_at(&I::group_id(), action.0.index())
    }

    /// Whether a pulse action fired in this tick.
    pub fn just_pulsed<I: InputAction>(&self, action: IAWrp<I, Pulse>) -> (r: bool)
        requires
            self.wf(),
        ensures
            r == self.spec_just_pulsed(I::spec_group_id(), action.0.spec_index()),
    {
        self.just_pulsed_at(&I::group_id(), action.0.index())
    }
}

/// The fresh state of the registered group `mg`, bound as `group` says.
pub fn install_group(mg: &MetaGroup, group: &GroupBindings, all: &Vec<Chord>) -> (r: BoundGroup)
    requires
        mg.group_id@ == group.group_id@,
        distinct_action_ids(group.actions@),
    ensures
        r.group_id@ == group.group_id@,
        r.actions@.len() == mg.actions@.len(),
        forall|k: int|
            0 <= k < mg.actions@.len() ==> #[trigger] r.actions@[k].built_from(
                mg.actions@[k].kind,
                config_action_bindings(*group, mg.actions@[k].action_id@),
                chord_views(all@),
            ),
        forall|k: int| 0 <= k < r.actions@.len() ==> #[trigger] r.actions@[k].wf(),
{
    let mut actions: Vec<BoundAction> = Vec::new();
    let empty: Vec<InputBinding> = Vec::new();
    let mut k: usize = 0;
    while k < mg.actions.len()
        invariant
            k <= mg.actions@.len(),
            distinct_action_ids(group.actions@),
            empty@.len() == 0,
            actions@.len() == k,
            forall|j: int|
                0 <= j < k ==> #[trigger] actions@[j].built_from(
                    mg.actions@[j].kind,
                    config_action_bindings(*group, mg.actions@[j].action_id@),
                    chord_views(all@),
                ),
            forall|j: int| 0 <= j < k ==> #[trigger] actions@[j].wf(),
        decreases mg.actions@.len() - k,
    {
        let item = &mg.actions[k];
        match find_action(&group.actions, &item.action_id) {
            Some(a) => {
                proof {
                    let c = choose|c: int|
                        0 <= c < group.actions@.len() && #[trigger] group.actions@[c].action_id@ == item.action_id@;
                    if c != a as int {
                        assert(group.actions@[c].action_id@ != group.actions@[a as int].action_id@);
                    }
                }
                actions.push(BoundAction::new(item, &group.actions[a].bindings, all));
            },
            None => {
                assert(empty@ =~= config_action_bindings(*group, item.action_id@));
                actions.push(BoundAction::new(item, &empty, all));
            },
        }
        k = k + 1;
    }
    BoundGroup { group_id: group.group_id.clone(), actions }
}

/// Advances every action of one group by one tick; returns whether a chord of one was freshly pressed.
pub fn update_group(actions: &mut Vec<BoundAction>, sources: &InputSources, settings: &IneffableSettings) -> (fresh: bool)
    requires
        forall|k: int| 0 <= k < old(actions)@.len() ==> #[trigger] old(actions)@[k].wf(),
    ensures
        final(actions)@.len() == old(actions)@.len(),
        forall|k: int| 0 <= k < final(actions)@.len() ==> #[trigger] final(actions)@[k].wf(),
        forall|k: int|
            0 <= k < old(actions)@.len() ==> #[trigger] old(actions)@[k].steps_to(final(actions)@[k], *sources, *settings),
        fresh == some_before(final(actions)@, final(actions)@.len() as int, bound_fresh_pred()),
{
    let ghost start = actions@;
    let mut fresh = false;
    let mut i: usize = 0;
    while i < actions.len()
        invariant
            i <= actions@.len(),
            actions@.len() == start.len(),
            forall|k: int| 0 <= k < actions@.len() ==> #[trigger] actions@[k].wf(),
            forall|k: int| 0 <= k < i ==> #[trigger] start[k].steps_to(actions@[k], *sources, *settings),
            forall|k: int| i <= k < actions@.len() ==> #[trigger] actions@[k] == start[k],
            fresh == some_before(actions@, i as int, bound_fresh_pred()),
        decreases actions@.len() - i,
    {
        let ghost prev = actions@;
        let f = actions[i].update(sources, settings);
        proof {
            lemma_some_before_step(prev, actions@, i as int, bound_fresh_pred());
        }
        fresh = fresh || f;
        i = i + 1;
    }
    fresh
}

} // verus!

use vstd::prelude::*;

use crate::bindings::InputKind;
use crate::meta::{distinct_actions, same_items, IneffableMetaData, IneffableMetaItem, MetaGroup, Registration};

verus! {

/// An abstract action a player can take, such as jumping or moving. The
/// actions of one group are the variants of one enum.
///
/// The spec functions name what the methods return. An implementation that
/// Verus checks gives its own; the placeholders below stand for an
/// implementation written outside Verus, and nothing generic can observe them.
pub trait InputAction: Sized {
    closed spec fn spec_group_id() -> Seq<char> {
        Seq::empty()
    }

    closed spec fn spec_action_id(&self) -> Seq<char> {
        Seq::empty()
    }

    closed spec fn spec_index(&self) -> usize {
        0
    }

    closed spec fn spec_kind(&self) -> InputKind {
        InputKind::Pulse
    }

    closed spec fn spec_variants() -> Seq<Self> {
        Seq::empty()
    }

    /// The name of the group.
    fn group_id() -> (r: String)
        ensures
            r@ == Self::spec_group_id(),
    ;

    /// The name of the action.
    fn action_id(&self) -> (r: String)
        ensures
            r@ == self.spec_action_id(),
    ;

    /// The position of the action in its group.
    fn index(&self) -> (r: usize)
        ensures
            r == self.spec_index(),
    ;

    /// The kind of the action.
    fn kind(&self) -> (r: InputKind)
        ensures
            r == self.spec_kind(),
    ;

    /// Every action of the group, in order.
    fn variants() -> (r: Vec<Self>)
        ensures
            r@ == Self::spec_variants(),
    ;
}

/// `items` are the registry entries of the actions of `I`: one per action, in order.
pub open spec fn describes_variants<I: InputAction>(items: Seq<IneffableMetaItem>) -> bool {
    &&& items.len() == I::spec_variants().len()
    &&& forall|k: int|
        0 <= k < items.len() ==> {
            &&& (#[trigger] items[k]).group_id@ == I::spec_group_id()
            &&& items[k].action_id@ == I::spec_variants()[k].spec_action_id()
            &&& items[k].kind == I::spec_variants()[k].spec_kind()
            &&& items[k].index == I::spec_variants()[k].spec_index()
        }
}

/// Marks an action handle or binding as single-axis.
#[derive(Debug, Clone, Copy, PartialEq, Eq, Structural, Default)]
pub struct SingleAxis;

/// Marks an action handle or binding as dual-axis.
#[derive(Debug, Clone, Copy, PartialEq, Eq, Structural, Default)]
pub struct DualAxis;

/// Marks an action handle or binding as continuous.
#[derive(Debug, Clone, Copy, PartialEq, Eq, Structural, Default)]
pub struct Continuous;

/// Marks an action handle or binding as a pulse.
#[derive(Debug, Clone, Copy, PartialEq, Eq, Structural, Default)]
pub struct Pulse;

/// An action together with the kind it is read as, so that each query takes
/// only actions of its own kind.
#[derive(Debug)]
pub struct IAWrp<I: InputAction, Kind>(pub I, pub core::marker::PhantomData<Kind>);

/// The registry entries of every action of the group `I`, in order.
pub fn construct_variants_meta_data<I: InputAction>() -> (r: Vec<IneffableMetaItem>)
    ensures
        describes_variants::<I>(r@),
{
    let variants = I::variants();
    let mut r: Vec<IneffableMetaItem> = Vec::new();
    let mut i: usize = 0;
    while i < variants.len()
        invariant
            i <= variants@.len(),
            variants@ == I::spec_variants(),
            r@.len() == i,
            forall|k: int|
                0 <= k < i ==> {
                    &&& (#[trigger] r@[k]).group_id@ == I::spec_group_id()
                    &&& r@[k].action_id@ == variants@[k].spec_action_id()
                    &&& r@[k].kind == variants@[k].spec_kind()
                    &&& r@[k].index == variants@[k].spec_index()
                },
        decreases variants@.len() - i,
    {
        let action = &variants[i];
        r.push(
            IneffableMetaItem {
                group_id: I::group_id(),
                action_id: action.action_id(),
                kind: action.kind(),
                index: action.index(),
            },
        );
        i = i + 1;
    }
    r
}

/// Whether the action ids of `items` are distinct.
pub fn action_ids_distinct(items: &Vec<IneffableMetaItem>) -> (r: bool)
    ensures
        r == distinct_actions(items@),
{
    let mut i: usize = 0;
    while i < items.len()
        invariant
            i <= items@.len(),
            forall|a: int, b: int|
                0 <= a < i && 0 <= b < items@.len() && a != b ==> #[trigger] items@[a].action_id@
                    != #[trigger] items@[b].action_id@,
        decreases items@.len() - i,
    {
        let mut j: usize = 0;
        while j < items.len()
            invariant
                i < items@.len(),
                j <= items@.len(),
                forall|a: int, b: int|
                    0 <= a < i && 0 <= b < items@.len() && a != b ==> #[trigger] items@[a].action_id@
                        != #[trigger] items@[b].action_id@,
                forall|b: int| 0 <= b < j && b != i ==> items@[i as int].action_id@ != #[trigger] items@[b].action_id@,
            decreases items@.len() - j,
        {
            if j != i && items[i].action_id == items[j].action_id {
                return false;
            }
            j = j + 1;
        }
        i = i + 1;
    }
    true
}

/// Registers groups of actions.
pub trait InputActionRegistrar: Sized {
    spec fn registry_wf(&self) -> bool;

    /// `self` is what registering the group `group_id` with the actions
    /// `items` made of `before`, with the outcome `r`.
    spec fn registered(&self, before: Self, group_id: Seq<char>, items: Seq<IneffableMetaItem>, r: Registration) -> bool;

    /// Registers the actions of `I`. A group registered before stays as it
    /// was, and so does everything when two actions of `I` share a name.
    fn register_input_action<I: InputAction>(&mut self) -> (r: Registration)
        requires
            old(self).registry_wf(),
        ensures
            final(self).registry_wf(),
            exists|items: Seq<IneffableMetaItem>|
                describes_variants::<I>(items) && #[trigger] final(self).registered(
                    *old(self),
                    I::spec_group_id(),
                    items,
                    r,
                ),
    ;
}

impl IneffableMetaData {
    /// Registers a group of actions whose names may repeat: such a group is refused.
    pub fn register_checked(&mut self, group_id: String, actions: Vec<IneffableMetaItem>) -> (r: Registration)
        requires
            old(self).wf(),
        ensures
            final(self).wf(),
            !distinct_actions(actions@) ==> r == Registration::DuplicateActions && *final(self) == *old(self),
            distinct_actions(actions@) ==> r != Registration::DuplicateActions,
            distinct_actions(actions@) && !old(self).spec_group_exists(group_id@) ==> {
                &&& r == Registration::Registered
                &&& final(self).groups@ == old(self).groups@.push(MetaGroup { group_id, actions })
            },
            old(self).spec_group_exists(group_id@) ==> *final(self) == *old(self) && r != Registration::Registered,
            distinct_actions(actions@) && old(self).spec_group_exists(group_id@) ==> (r == Registration::Redundant
                <==> same_items(old(self).spec_group(group_id@).actions@, actions@)),
    {
        if !action_ids_distinct(&actions) {
            return Registration::DuplicateActions;
        }
        self.register(group_id, actions)
    }
}

impl InputActionRegistrar for IneffableMetaData {
    open spec fn registry_wf(&self) -> bool {
        self.wf()
    }

    /// A group whose actions share a name is refused; a group of a known name
    /// changes nothing; any other group is appended.
    open spec fn registered(&self, before: Self, group_id: Seq<char>, items: Seq<IneffableMetaItem>, r: Registration) -> bool {
        if !distinct_actions(items) {
            r == Registration::DuplicateActions && *self == before
        } else if before.spec_group_exists(group_id) {
            *self == before && (r == Registration::Redundant <==> same_items(
                before.spec_group(group_id).actions@,
                items,
            )) && (r == Registration::Redundant || r == Registration::Conflict)
        } else {
            &&& r == Registration::Registered
            &&& self.groups@.len() == before.groups@.len() + 1
            &&& self.groups@.drop_last() == before.groups@
            &&& self.groups@.last().group_id@ == group_id
            &&& self.groups@.last().actions@ == items
        }
    }

    fn register_input_action<I: InputAction>(&mut self) -> (r: Registration) {
        let items = construct_variants_meta_data::<I>();
        let ghost seen = items@;
        let r = self.register_checked(I::group_id(), items);
        proof {
            if distinct_actions(seen) && !old(self).spec_group_exists(I::spec_group_id()) {
                assert(self.groups@.drop_last() =~= old(self).groups@);
            }
            assert(self.registered(*old(self), I::spec_group_id(), seen, r));
        }
        r
    }
}

} // verus!

use vstd::prelude::*;

use crate::bindings::InputKind;

verus! {

/// What is registered of one action: its group, name, kind, and index within its group.
#[derive(Debug, Clone)]
pub struct IneffableMetaItem {
    pub group_id: String,
    pub action_id: String,
    pub kind: InputKind,
    /// The action's position in its group.
    pub index: usize,
}

/// The registered actions of one group, in order of their index.
#[derive(Debug, Clone)]
pub struct MetaGroup {
    pub group_id: String,
    pub actions: Vec<IneffableMetaItem>,
}

/// The registry of every action group.
#[derive(Debug, Clone)]
pub struct IneffableMetaData {
    pub groups: Vec<MetaGroup>,
}

/// The outcome of registering a group of actions.
#[derive(Debug, Clone, Copy, PartialEq, Eq, Structural)]
pub enum Registration {
    /// The group was new and is now registered.
    Registered,
    /// The same group was registered before; nothing changed.
    Redundant,
    /// A different group of the same name was registered before; nothing changed.
    Conflict,
    /// Two actions of the group share a name; nothing changed.
    DuplicateActions,
}

/// The action ids of `actions` are distinct.
pub open spec fn distinct_actions(actions: Seq<IneffableMetaItem>) -> bool {
    forall|i: int, j: int|
        0 <= i < actions.len() && 0 <= j < actions.len() && i != j ==> #[trigger] actions[i].action_id@
            != #[trigger] actions[j].action_id@
}

/// Two lists of actions hold the same names, kinds and indices.
pub open spec fn same_items(a: Seq<IneffableMetaItem>, b: Seq<IneffableMetaItem>) -> bool {
    &&& a.len() == b.len()
    &&& forall|k: int|
        0 <= k < a.len() ==> {
            &&& (#[trigger] a[k]).group_id@ == b[k].group_id@
            &&& a[k].action_id@ == b[k].action_id@
            &&& a[k].kind == b[k].kind
            &&& a[k].index == b[k].index
        }
}

impl IneffableMetaData {
    pub open spec fn wf(&self) -> bool {
        &&& forall|i: int, j: int|
            0 <= i < self.groups@.len() && 0 <= j < self.groups@.len() && i != j
                ==> #[trigger] self.groups@[i].group_id@ != #[trigger] self.groups@[j].group_id@
        &&& forall|i: int| 0 <= i < self.groups@.len() ==> distinct_actions(#[trigger] self.groups@[i].actions@)
    }

    pub open spec fn spec_group_exists(&self, group_id: Seq<char>) -> bool {
        exists|i: int| 0 <= i < self.groups@.len() && #[trigger] self.groups@[i].group_id@ == group_id
    }

    /// The registered group named `group_id`.
    pub open spec fn spec_group(&self, group_id: Seq<char>) -> MetaGroup
        recommends
            self.spec_group_exists(group_id),
    {
        let i = choose|i: int| 0 <= i < self.groups@.len() && #[trigger] self.groups@[i].group_id@ == group_id;
        self.groups@[i]
    }

    pub open spec fn spec_action_exists(&self, group_id: Seq<char>, action_id: Seq<char>) -> bool {
        &&& self.spec_group_exists(group_id)
        &&& exists|k: int|
            0 <= k < self.spec_group(group_id).actions@.len()
                && #[trigger] self.spec_group(group_id).actions@[k].action_id@ == action_id
    }

    /// The registered action named `action_id` in the group `group_id`.
    pub open spec fn spec_action(&self, group_id: Seq<char>, action_id: Seq<char>) -> IneffableMetaItem
        recommends
            self.spec_action_exists(group_id, action_id),
    {
        let actions = self.spec_group(group_id).actions@;
        let k = choose|k: int| 0 <= k < actions.len() && #[trigger] actions[k].action_id@ == action_id;
        actions[k]
    }

    /// The names of the registered groups, in order.
    pub open spec fn spec_group_ids(&self) -> Seq<Seq<char>> {
        self.groups@.map_values(|g: MetaGroup| g.group_id@)
    }

    /// The names of the actions of the group `group_id`, in order; none for an unknown group.
    pub open spec fn spec_action_ids(&self, group_id: Seq<char>) -> Seq<Seq<char>> {
        if self.spec_group_exists(group_id) {
            self.spec_group(group_id).actions@.map_values(|a: IneffableMetaItem| a.action_id@)
        } else {
            Seq::empty()
        }
    }

    /// An empty registry.
    pub fn new() -> (r: Self)
        ensures
            r.groups@.len() == 0,
            r.wf(),
    {
        IneffableMetaData { groups: Vec::new() }
    }

    /// The position of the group named `group_id`.
    pub fn find_group(&self, group_id: &String) -> (r: Option<usize>)
        requires
            self.wf(),
        ensures
            r is None <==> !self.spec_group_exists(group_id@),
            r matches Some(i) ==> i < self.groups@.len() && self.groups@[i as int] == self.spec_group(group_id@),
    {
        let mut i: usize = 0;
        while i < self.groups.len()
            invariant
                i <= self.groups@.len(),
                self.wf(),
                forall|k: int| 0 <= k < i ==> self.groups@[k].group_id@ != group_id@,
            decreases self.groups@.len() - i,
        {
            if self.groups[i].group_id == *group_id {
                proof {
                    assert(self.groups@[i as int].group_id@ == group_id@);
                    let c = choose|c: int| 0 <= c < self.groups@.len() && #[trigger] self.groups@[c].group_id@ == group_id@;
                    if c != i as int {
                        assert(self.groups@[c].group_id@ != self.groups@[i as int].group_id@);
                    }
                }
                return Some(i);
            }
            i = i + 1;
        }
        None
    }

    pub fn group_exists(&self, group_id: &String) -> (r: bool)
        requires
            self.wf(),
        ensures
            r == self.spec_group_exists(group_id@),
    {
        self.find_group(group_id).is_some()
    }

    /// The actions of the group named `group_id`, if it is registered.
    pub fn group(&self, group_id: &String) -> (r: Option<&MetaGroup>)
        requires
            self.wf(),
        ensures
            r is None <==> !self.spec_group_exists(group_id@),
            r matches Some(g) ==> *g == self.spec_group(group_id@),
    {
        match self.find_group(group_id) {
            Some(i) => Some(&self.groups[i]),
            None => None,
        }
    }

    /// The registered action named `action_id` in the group `group_id`.
    pub fn action(&self, group_id: &String, action_id: &String) -> (r: Option<&IneffableMetaItem>)
        requires
            self.wf(),
        ensures
            r is None <==> !self.spec_action_exists(group_id@, action_id@),
            r matches Some(a) ==> *a == self.spec_action(group_id@, action_id@),
    {
        match self.find_group(group_id) {
            None => None,
            Some(g) => {
                let actions = &self.groups[g].actions;
                let mut k: usize = 0;
                while k < actions.len()
                    invariant
                        k <= actions@.len(),
                        self.wf(),
                        g < self.groups@.len(),
                        self.spec_group_exists(group_id@),
                        self.groups@[g as int] == self.spec_group(group_id@),
                        actions@ == self.groups@[g as int].actions@,
                        forall|j: int| 0 <= j < k ==> actions@[j].action_id@ != action_id@,
                    decreases actions@.len() - k,
                {
                    if actions[k].action_id == *action_id {
                        proof {
                            let grp = self.groups@[g as int];
                            assert(distinct_actions(grp.actions@));
                            assert(actions@ == self.spec_group(group_id@).actions@);
                            assert(actions@[k as int].action_id@ == action_id@);
                            let c = choose|c: int| 0 <= c < actions@.len() && #[trigger] actions@[c].action_id@ == action_id@;
                            if c != k as int {
                                assert(actions@[c].action_id@ != actions@[k as int].action_id@);
                            }
                        }
                        return Some(&actions[k]);
                    }
                    k = k + 1;
                }
                None
            },
        }
    }

    /// The actions of the registered group named `group_id`.
    pub fn actions(&self, group_id: &String) -> (r: &Vec<IneffableMetaItem>)
        requires
            self.wf(),
            self.spec_group_exists(group_id@),
        ensures
            *r == self.spec_group(group_id@).actions,
    {
        match self.find_group(group_id) {
            Some(i) => &self.groups[i].actions,
            None => {
                assert(false);
                &self.groups[0].actions
            },
        }
    }

    /// The names of all registered groups.
    pub fn group_ids(&self) -> (r: Vec<String>)
        ensures
            crate::report::string_views(r@) == self.spec_group_ids(),
    {
        let mut r: Vec<String> = Vec::new();
        let mut i: usize = 0;
        while i < self.groups.len()
            invariant
                i <= self.groups@.len(),
                r@.len() == i,
                forall|k: int| 0 <= k < i ==> #[trigger] r@[k]@ == self.groups@[k].group_id@,
            decreases self.groups@.len() - i,
        {
            r.push(self.groups[i].group_id.clone());
            i = i + 1;
        }
        assert(crate::report::string_views(r@) =~= self.spec_group_ids());
        r
    }

    /// The names of the actions of the group named `group_id`; empty for an unknown group.
    pub fn action_ids(&self, group_id: &String) -> (r: Vec<String>)
        requires
            self.wf(),
        ensures
            crate::report::string_views(r@) == self.spec_action_ids(group_id@),
    {
        let mut r: Vec<String> = Vec::new();
        if let Some(g) = self.find_group(group_id) {
            let actions = &self.groups[g].actions;
            let mut i: usize = 0;
            while i < actions.len()
                invariant
                    i <= actions@.len(),
                    r@.len() == i,
                    forall|k: int| 0 <= k < i ==> #[trigger] r@[k]@ == actions@[k].action_id@,
                decreases actions@.len() - i,
            {
                r.push(actions[i].action_id.clone());
                i = i + 1;
            }
            assert(crate::report::string_views(r@) =~= self.spec_action_ids(group_id@));
        } else {
            assert(crate::report::string_views(r@) =~= self.spec_action_ids(group_id@));
        }
        r
    }

    /// Registers a group of actions. A group of a name that is registered
    /// already is left as it was: redundantly when it holds the same actions,
    /// in conflict when not.
    pub fn register(&mut self, group_id: String, actions: Vec<IneffableMetaItem>) -> (r: Registration)
        requires
            old(self).wf(),
            distinct_actions(actions@),
        ensures
            final(self).wf(),
            old(self).spec_group_exists(group_id@) ==> *final(self) == *old(self),
            old(self).spec_group_exists(group_id@) ==> (r == Registration::Redundant <==> same_items(
                old(self).spec_group(group_id@).actions@,
                actions@,
            )),
            old(self).spec_group_exists(group_id@) ==> r != Registration::Registered,
            r != Registration::DuplicateActions,
            !old(self).spec_group_exists(group_id@) ==> {
                &&& r == Registration::Registered
                &&& final(self).groups@ == old(self).groups@.push(MetaGroup { group_id, actions })
            },
    {
        match self.find_group(&group_id) {
            Some(g) => {
                if items_equal(&self.groups[g].actions, &actions) {
                    Registration::Redundant
                } else {
                    Registration::Conflict
                }
            },
            None => {
                let ghost before = self.groups@;
                self.groups.push(MetaGroup { group_id, actions });
                assert forall|i: int, j: int|
                    0 <= i < self.groups@.len() && 0 <= j < self.groups@.len() && i != j
                        implies #[trigger] self.groups@[i].group_id@ != #[trigger] self.groups@[j].group_id@ by {
                    if i == before.len() as int {
                        assert(before[j].group_id@ != group_id@);
                    } else if j == before.len() as int {
                        assert(before[i].group_id@ != group_id@);
                    }
                }
                assert forall|i: int| 0 <= i < self.groups@.len() implies distinct_actions(
                    #[trigger] self.groups@[i].actions@,
                ) by {
                    if i < before.len() {
                        assert(self.groups@[i] == before[i]);
                    }
                }
                Registration::Registered
            },
        }
    }
}

/// Whether two lists of actions hold the same names, kinds and indices.
pub fn items_equal(a: &Vec<IneffableMetaItem>, b: &Vec<IneffableMetaItem>) -> (r: bool)
    ensures
        r == same_items(a@, b@),
{
    if a.len() != b.len() {
        return false;
    }
    let mut i: usize = 0;
    while i < a.len()
        invariant
            i <= a@.len(),
            a@.len() == b@.len(),
            forall|k: int|
                0 <= k < i ==> {
                    &&& (#[trigger] a@[k]).group_id@ == b@[k].group_id@
                    &&& a@[k].action_id@ == b@[k].action_id@
                    &&& a@[k].kind == b@[k].kind
                    &&& a@[k].index == b@[k].index
                },
        decreases a@.len() - i,
    {
        if !(a[i].group_id == b[i].group_id && a[i].action_id == b[i].action_id && a[i].kind == b[i].kind
            && a[i].index == b[i].index) {
            return false;
        }
        i = i + 1;
    }
    true
}

} // verus!

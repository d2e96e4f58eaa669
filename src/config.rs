use vstd::prelude::*;

use crate::bindings::InputBinding;

verus! {

/// The bindings of one action: any of them can trigger it.
#[derive(Debug, Clone)]
pub struct ActionBindings {
    pub action_id: String,
    pub bindings: Vec<InputBinding>,
}

/// The bound actions of one group.
#[derive(Debug, Clone)]
pub struct GroupBindings {
    pub group_id: String,
    pub actions: Vec<ActionBindings>,
}

/// A configuration: bindings per group and action, and optional timings in milliseconds.
#[derive(Debug, Clone)]
pub struct InputConfig {
    pub double_click_timing: Option<u64>,
    pub post_acceptance_delay: Option<u64>,
    pub bindings: Vec<GroupBindings>,
}

/// The action ids of `actions` are distinct.
pub open spec fn distinct_action_ids(actions: Seq<ActionBindings>) -> bool {
    forall|i: int, j: int|
        0 <= i < actions.len() && 0 <= j < actions.len() && i != j ==> #[trigger] actions[i].action_id@
            != #[trigger] actions[j].action_id@
}

/// Each group appears once, and each action once within its group.
pub open spec fn groups_wf(groups: Seq<GroupBindings>) -> bool {
    &&& forall|i: int, j: int|
        0 <= i < groups.len() && 0 <= j < groups.len() && i != j ==> #[trigger] groups[i].group_id@
            != #[trigger] groups[j].group_id@
    &&& forall|i: int| 0 <= i < groups.len() ==> distinct_action_ids(#[trigger] groups[i].actions@)
}

/// The bindings of the action `action_id` in `group`; none when it has none.
pub open spec fn config_action_bindings(group: GroupBindings, action_id: Seq<char>) -> Seq<InputBinding> {
    if exists|k: int| 0 <= k < group.actions@.len() && #[trigger] group.actions@[k].action_id@ == action_id {
        let k = choose|k: int| 0 <= k < group.actions@.len() && #[trigger] group.actions@[k].action_id@ == action_id;
        group.actions@[k].bindings@
    } else {
        Seq::empty()
    }
}

/// The group has an entry for the action `action_id`.
pub open spec fn group_has_action(group: GroupBindings, action_id: Seq<char>) -> bool {
    exists|k: int| 0 <= k < group.actions@.len() && #[trigger] group.actions@[k].action_id@ == action_id
}

/// The bindings of the action `action_id` of the group `group_id`; none when there are none.
pub open spec fn bindings_in(groups: Seq<GroupBindings>, group_id: Seq<char>, action_id: Seq<char>) -> Seq<InputBinding> {
    if exists|i: int| 0 <= i < groups.len() && #[trigger] groups[i].group_id@ == group_id {
        let i = choose|i: int| 0 <= i < groups.len() && #[trigger] groups[i].group_id@ == group_id;
        config_action_bindings(groups[i], action_id)
    } else {
        Seq::empty()
    }
}

/// There is an entry for the action `action_id` of the group `group_id`.
pub open spec fn has_entry(groups: Seq<GroupBindings>, group_id: Seq<char>, action_id: Seq<char>) -> bool {
    exists|i: int| 0 <= i < groups.len() && #[trigger] groups[i].group_id@ == group_id && group_has_action(groups[i], action_id)
}

/// The bindings of one entry after bindings are added to it: appended, or in
/// place of those it had.
pub open spec fn added(before: Seq<InputBinding>, more: Seq<InputBinding>, replace: bool) -> Seq<InputBinding> {
    if replace {
        more
    } else {
        before + more
    }
}

impl InputConfig {
    /// Each group appears once, and each action once within its group.
    pub open spec fn wf(&self) -> bool {
        groups_wf(self.bindings@)
    }

    /// Whether each group appears once, and each action once within its group.
    pub fn is_well_formed(&self) -> (r: bool)
        ensures
            r == self.wf(),
    {
        let groups = &self.bindings;
        let mut i: usize = 0;
        while i < groups.len()
            invariant
                i <= groups@.len(),
                groups@ == self.bindings@,
                forall|a: int, b: int|
                    0 <= a < i && 0 <= b < groups@.len() && a != b ==> #[trigger] groups@[a].group_id@
                        != #[trigger] groups@[b].group_id@,
                forall|a: int| 0 <= a < i ==> distinct_action_ids(#[trigger] groups@[a].actions@),
            decreases groups@.len() - i,
        {
            let mut j: usize = 0;
            while j < groups.len()
                invariant
                    i < groups@.len(),
                    groups@ == self.bindings@,
                    j <= groups@.len(),
                    forall|b: int| 0 <= b < j && b != i ==> groups@[i as int].group_id@ != #[trigger] groups@[b].group_id@,
                decreases groups@.len() - j,
            {
                if j != i && groups[i].group_id == groups[j].group_id {
                    assert(groups@[i as int].group_id@ == groups@[j as int].group_id@);
                    return false;
                }
                j = j + 1;
            }
            let actions = &groups[i].actions;
            let mut a: usize = 0;
            while a < actions.len()
                invariant
                    a <= actions@.len(),
                    i < groups@.len(),
                    groups@ == self.bindings@,
                    actions@ == groups@[i as int].actions@,
                    forall|x: int, y: int|
                        0 <= x < a && 0 <= y < actions@.len() && x != y ==> #[trigger] actions@[x].action_id@
                            != #[trigger] actions@[y].action_id@,
                decreases actions@.len() - a,
            {
                let mut b: usize = 0;
                while b < actions.len()
                    invariant
                        a < actions@.len(),
                        i < groups@.len(),
                        groups@ == self.bindings@,
                        actions@ == groups@[i as int].actions@,
                        b <= actions@.len(),
                        forall|y: int| 0 <= y < b && y != a ==> actions@[a as int].action_id@ != #[trigger] actions@[y].action_id@,
                    decreases actions@.len() - b,
                {
                    if b != a && actions[a].action_id == actions[b].action_id {
                        assert(actions@[a as int].action_id@ == actions@[b as int].action_id@);
                        assert(!distinct_action_ids(self.bindings@[i as int].actions@));
                        return false;
                    }
                    b = b + 1;
                }
                a = a + 1;
            }
            i = i + 1;
        }
        true
    }

    /// A configuration with no bindings and no timings.
    pub fn new() -> (r: Self)
        ensures
            r.double_click_timing is None,
            r.post_acceptance_delay is None,
            r.bindings@.len() == 0,
            r.wf(),
    {
        InputConfig { double_click_timing: None, post_acceptance_delay: None, bindings: Vec::new() }
    }
}

/// The position of the action named `action_id` among `actions`.
pub fn find_action(actions: &Vec<ActionBindings>, action_id: &String) -> (r: Option<usize>)
    ensures
        r is None <==> forall|k: int| 0 <= k < actions@.len() ==> #[trigger] actions@[k].action_id@ != action_id@,
        r matches Some(i) ==> i < actions@.len() && actions@[i as int].action_id@ == action_id@,
{
    let mut i: usize = 0;
    while i < actions.len()
        invariant
            i <= actions@.len(),
            forall|k: int| 0 <= k < i ==> #[trigger] actions@[k].action_id@ != action_id@,
        decreases actions@.len() - i,
    {
        if actions[i].action_id == *action_id {
            return Some(i);
        }
        i = i + 1;
    }
    None
}

/// The position of the group named `group_id` in `groups`.
pub fn find_group(groups: &Vec<GroupBindings>, group_id: &String) -> (r: Option<usize>)
    ensures
        r is None <==> forall|k: int| 0 <= k < groups@.len() ==> #[trigger] groups@[k].group_id@ != group_id@,
        r matches Some(i) ==> i < groups@.len() && groups@[i as int].group_id@ == group_id@,
{
    let mut i: usize = 0;
    while i < groups.len()
        invariant
            i <= groups@.len(),
            forall|k: int| 0 <= k < i ==> #[trigger] groups@[k].group_id@ != group_id@,
        decreases groups@.len() - i,
    {
        if groups[i].group_id == *group_id {
            return Some(i);
        }
        i = i + 1;
    }
    None
}

/// In a group whose actions have distinct ids, the bindings of an action are
/// those of its entry.
pub proof fn lemma_action_bindings_at(group: GroupBindings, k: int, action_id: Seq<char>)
    requires
        distinct_action_ids(group.actions@),
        0 <= k < group.actions@.len(),
        group.actions@[k].action_id@ == action_id,
    ensures
        config_action_bindings(group, action_id) == group.actions@[k].bindings@,
        group_has_action(group, action_id),
{
    let c = choose|c: int| 0 <= c < group.actions@.len() && #[trigger] group.actions@[c].action_id@ == action_id;
    if c != k {
        assert(group.actions@[c].action_id@ != group.actions@[k].action_id@);
    }
}

/// In well-formed groups, the bindings of an action are those of its group's entry.
pub proof fn lemma_bindings_in_at(groups: Seq<GroupBindings>, i: int, group_id: Seq<char>, action_id: Seq<char>)
    requires
        groups_wf(groups),
        0 <= i < groups.len(),
        groups[i].group_id@ == group_id,
    ensures
        bindings_in(groups, group_id, action_id) == config_action_bindings(groups[i], action_id),
        has_entry(groups, group_id, action_id) == group_has_action(groups[i], action_id),
{
    let c = choose|c: int| 0 <= c < groups.len() && #[trigger] groups[c].group_id@ == group_id;
    if c != i {
        assert(groups[c].group_id@ != groups[i].group_id@);
    }
    if has_entry(groups, group_id, action_id) {
        let j = choose|j: int|
            0 <= j < groups.len() && #[trigger] groups[j].group_id@ == group_id && group_has_action(groups[j], action_id);
        if j != i {
            assert(groups[j].group_id@ != groups[i].group_id@);
        }
    }
}

/// Adds `bindings` to the action `action_id` of `group`, making an entry for
/// it where there is none; `replace` drops the bindings it had.
pub fn add_to_group(group: &mut GroupBindings, action_id: String, bindings: Vec<InputBinding>, replace: bool)
    requires
        distinct_action_ids(old(group).actions@),
    ensures
        final(group).group_id == old(group).group_id,
        distinct_action_ids(final(group).actions@),
        forall|a: Seq<char>|
            #[trigger] config_action_bindings(*final(group), a) == if a == action_id@ {
                added(config_action_bindings(*old(group), a), bindings@, replace)
            } else {
                config_action_bindings(*old(group), a)
            },
        forall|a: Seq<char>|
            #[trigger] group_has_action(*final(group), a) == (group_has_action(*old(group), a) || a == action_id@),
{
    let ghost before = *group;
    let ai = match find_action(&group.actions, &action_id) {
        Some(k) => k,
        None => {
            group.actions.push(ActionBindings { action_id: action_id.clone(), bindings: Vec::new() });
            (group.actions.len() - 1) as usize
        },
    };
    let ghost padded = *group;
    proof {
        assert forall|i: int, j: int|
            0 <= i < padded.actions@.len() && 0 <= j < padded.actions@.len() && i != j implies #[trigger] padded.actions@[i].action_id@
                != #[trigger] padded.actions@[j].action_id@ by {
            if i < before.actions@.len() && j < before.actions@.len() {
                assert(before.actions@[i].action_id@ != before.actions@[j].action_id@);
            }
        }
        assert forall|a: Seq<char>|
            #![trigger config_action_bindings(padded, a)]
            #![trigger group_has_action(padded, a)]
            config_action_bindings(padded, a) == config_action_bindings(before, a) && group_has_action(padded, a) == (group_has_action(before, a) || a == action_id@) by {
            if group_has_action(before, a) {
                let k = choose|k: int| 0 <= k < before.actions@.len() && #[trigger] before.actions@[k].action_id@ == a;
                lemma_action_bindings_at(before, k, a);
                assert(padded.actions@[k] == before.actions@[k]);
                lemma_action_bindings_at(padded, k, a);
            } else if a == action_id@ {
                lemma_action_bindings_at(padded, ai as int, a);
            } else {
                assert forall|k: int| 0 <= k < padded.actions@.len() implies #[trigger] padded.actions@[k].action_id@ != a by {
                    if k < before.actions@.len() {
                        assert(padded.actions@[k] == before.actions@[k]);
                    }
                }
            }
        }
        lemma_action_bindings_at(padded, ai as int, action_id@);
    }
    let mut entry = ActionBindings { action_id: String::new(), bindings: Vec::new() };
    group.actions.set_and_swap(ai, &mut entry);
    let ghost entry_before = entry;
    if replace {
        entry.bindings.clear();
    }
    let mut more = bindings;
    entry.bindings.append(&mut more);
    assert(entry.bindings@ =~= added(entry_before.bindings@, bindings@, replace));
    group.actions.set(ai, entry);
    proof {
        let fin = *group;
        assert(fin.actions@ == padded.actions@.update(ai as int, entry));
        assert forall|i: int, j: int|
            0 <= i < fin.actions@.len() && 0 <= j < fin.actions@.len() && i != j implies #[trigger] fin.actions@[i].action_id@
                != #[trigger] fin.actions@[j].action_id@ by {
            assert(padded.actions@[i].action_id@ != padded.actions@[j].action_id@);
        }
        assert forall|a: Seq<char>|
            #![trigger config_action_bindings(fin, a)]
            #![trigger group_has_action(fin, a)]
            config_action_bindings(fin, a) == (if a == action_id@ {
                added(config_action_bindings(before, a), bindings@, replace)
            } else {
                config_action_bindings(before, a)
            }) && group_has_action(fin, a) == (group_has_action(before, a) || a == action_id@) by {
            assert(config_action_bindings(padded, a) == config_action_bindings(before, a));
            assert(group_has_action(padded, a) == (group_has_action(before, a) || a == action_id@));
            if a == action_id@ {
                lemma_action_bindings_at(padded, ai as int, a);
                lemma_action_bindings_at(fin, ai as int, a);
            } else if group_has_action(padded, a) {
                let k = choose|k: int| 0 <= k < padded.actions@.len() && #[trigger] padded.actions@[k].action_id@ == a;
                assert(k != ai as int);
                lemma_action_bindings_at(padded, k, a);
                lemma_action_bindings_at(fin, k, a);
            } else {
                assert forall|k: int| 0 <= k < fin.actions@.len() implies #[trigger] fin.actions@[k].action_id@ != a by {
                    assert(fin.actions@[k].action_id@ == padded.actions@[k].action_id@);
                }
            }
        }
    }
}

/// Adds `bindings` to the action `action_id` of the group `group_id`, making
/// entries for them where there are none; `replace` drops the bindings the
/// action had. Every other action keeps its bindings.
pub fn add_bindings(
    groups: &mut Vec<GroupBindings>,
    group_id: String,
    action_id: String,
    bindings: Vec<InputBinding>,
    replace: bool,
)
    requires
        groups_wf(old(groups)@),
    ensures
        groups_wf(final(groups)@),
        forall|g: Seq<char>, a: Seq<char>|
            #[trigger] bindings_in(final(groups)@, g, a) == if g == group_id@ && a == action_id@ {
                added(bindings_in(old(groups)@, g, a), bindings@, replace)
            } else {
                bindings_in(old(groups)@, g, a)
            },
        forall|g: Seq<char>, a: Seq<char>|
            #[trigger] has_entry(final(groups)@, g, a) == (has_entry(old(groups)@, g, a) || (g == group_id@ && a
                == action_id@)),
{
    let ghost start = groups@;
    let gi = match find_group(groups, &group_id) {
        Some(i) => i,
        None => {
            groups.push(GroupBindings { group_id: group_id.clone(), actions: Vec::new() });
            (groups.len() - 1) as usize
        },
    };
    let ghost mid = groups@;
    proof {
        assert forall|i: int, j: int|
            0 <= i < mid.len() && 0 <= j < mid.len() && i != j implies #[trigger] mid[i].group_id@
                != #[trigger] mid[j].group_id@ by {
            if i < start.len() && j < start.len() {
                assert(start[i].group_id@ != start[j].group_id@);
            }
        }
        assert forall|i: int| 0 <= i < mid.len() implies distinct_action_ids(#[trigger] mid[i].actions@) by {
            if i < start.len() {
                assert(mid[i] == start[i]);
            }
        }
        assert forall|g: Seq<char>, a: Seq<char>|
            #![trigger bindings_in(mid, g, a)]
            #![trigger has_entry(mid, g, a)]
            bindings_in(mid, g, a) == bindings_in(start, g, a) && has_entry(mid, g, a) == has_entry(start, g, a) by {
            if exists|i: int| 0 <= i < start.len() && #[trigger] start[i].group_id@ == g {
                let i = choose|i: int| 0 <= i < start.len() && #[trigger] start[i].group_id@ == g;
                lemma_bindings_in_at(start, i, g, a);
                assert(mid[i] == start[i]);
                lemma_bindings_in_at(mid, i, g, a);
            } else if g == group_id@ {
                lemma_bindings_in_at(mid, gi as int, g, a);
                assert(!has_entry(start, g, a));
            } else {
                assert forall|i: int| 0 <= i < mid.len() implies #[trigger] mid[i].group_id@ != g by {
                    if i < start.len() {
                        assert(mid[i] == start[i]);
                    }
                }
            }
        }
    }
    let mut group = GroupBindings { group_id: String::new(), actions: Vec::new() };
    groups.set_and_swap(gi, &mut group);
    let ghost group_before = group;
    add_to_group(&mut group, action_id, bindings, replace);
    groups.set(gi, group);
    proof {
        let fin = groups@;
        assert(fin == mid.update(gi as int, group));
        assert forall|i: int, j: int|
            0 <= i < fin.len() && 0 <= j < fin.len() && i != j implies #[trigger] fin[i].group_id@
                != #[trigger] fin[j].group_id@ by {
            assert(mid[i].group_id@ != mid[j].group_id@);
        }
        assert forall|i: int| 0 <= i < fin.len() implies distinct_action_ids(#[trigger] fin[i].actions@) by {
            if i != gi as int {
                assert(fin[i] == mid[i]);
            }
        }
        assert forall|g: Seq<char>, a: Seq<char>|
            #![trigger bindings_in(fin, g, a)]
            #![trigger has_entry(fin, g, a)]
            bindings_in(fin, g, a) == (if g == group_id@ && a == action_id@ {
                added(bindings_in(mid, g, a), bindings@, replace)
            } else {
                bindings_in(mid, g, a)
            }) && has_entry(fin, g, a) == (has_entry(mid, g, a) || (g == group_id@ && a == action_id@)) by {
            if g == group_id@ {
                lemma_bindings_in_at(mid, gi as int, g, a);
                lemma_bindings_in_at(fin, gi as int, g, a);
            } else if exists|i: int| 0 <= i < mid.len() && #[trigger] mid[i].group_id@ == g {
                let i = choose|i: int| 0 <= i < mid.len() && #[trigger] mid[i].group_id@ == g;
                lemma_bindings_in_at(mid, i, g, a);
                assert(fin[i] == mid[i]);
                lemma_bindings_in_at(fin, i, g, a);
            } else {
                assert forall|i: int| 0 <= i < fin.len() implies #[trigger] fin[i].group_id@ != g by {
                    assert(fin[i].group_id@ == mid[i].group_id@);
                }
            }
        }
    }
}

/// How a loaded configuration is combined with those loaded before it.
#[derive(Debug, Clone, Copy, PartialEq, Eq, Structural, Hash)]
pub enum MergeMode {
    /// Start over from this configuration.
    Base,
    /// Add its bindings to those of each action.
    Append,
    /// Its bindings replace those of each action it binds.
    Replace,
}

/// The bindings of an entry after merging `b` into `a`: an action that `b`
/// binds gets `b`'s bindings, after `a`'s when appending; any other keeps `a`'s.
pub open spec fn merged_bindings(
    a: Seq<GroupBindings>,
    b: Seq<GroupBindings>,
    group_id: Seq<char>,
    action_id: Seq<char>,
    append: bool,
) -> Seq<InputBinding> {
    if has_entry(b, group_id, action_id) {
        added(bindings_in(a, group_id, action_id), bindings_in(b, group_id, action_id), !append)
    } else {
        bindings_in(a, group_id, action_id)
    }
}

/// Some group of `groups` is named `group_id`.
pub open spec fn has_group(groups: Seq<GroupBindings>, group_id: Seq<char>) -> bool {
    exists|i: int| 0 <= i < groups.len() && #[trigger] groups[i].group_id@ == group_id
}

/// Merges the actions of `group` into `value`, taking them one by one.
fn merge_group(value: &mut Vec<GroupBindings>, group: GroupBindings, append: bool)
    requires
        groups_wf(old(value)@),
        distinct_action_ids(group.actions@),
    ensures
        groups_wf(final(value)@),
        forall|g: Seq<char>, a: Seq<char>|
            #![trigger bindings_in(final(value)@, g, a)]
            #![trigger has_entry(final(value)@, g, a)]
            {
                &&& bindings_in(final(value)@, g, a) == if g == group.group_id@ && group_has_action(group, a) {
                    added(bindings_in(old(value)@, g, a), config_action_bindings(group, a), !append)
                } else {
                    bindings_in(old(value)@, g, a)
                }
                &&& has_entry(final(value)@, g, a) == (has_entry(old(value)@, g, a) || (g == group.group_id@
                    && group_has_action(group, a)))
            },
{
    let ghost start = value@;
    let ghost all = group.actions@;
    let group_id = group.group_id;
    let mut actions = group.actions;
    while actions.len() > 0
        invariant
            groups_wf(value@),
            all == group.actions@,
            distinct_action_ids(all),
            actions@.len() <= all.len(),
            actions@ == all.take(actions@.len() as int),
            group_id == group.group_id,
            forall|g: Seq<char>, a: Seq<char>|
                #![trigger bindings_in(value@, g, a)]
                #![trigger has_entry(value@, g, a)]
                {
                    let done = g == group_id@ && group_has_action(group, a) && !(exists|k: int|
                        0 <= k < actions@.len() && #[trigger] actions@[k].action_id@ == a);
                    &&& bindings_in(value@, g, a) == if done {
                        added(bindings_in(start, g, a), config_action_bindings(group, a), !append)
                    } else {
                        bindings_in(start, g, a)
                    }
                    &&& has_entry(value@, g, a) == (has_entry(start, g, a) || done)
                },
        decreases actions@.len(),
    {
        let ghost before = value@;
        let ghost rest = actions@;
        let n = actions.len() - 1;
        let action = actions.pop().unwrap();
        let ghost act = action;
        assert(act == all[n as int]);
        assert(actions@ =~= all.take(n as int));
        proof {
            lemma_action_bindings_at(group, n as int, act.action_id@);
        }
        add_bindings(value, group_id.clone(), action.action_id, action.bindings, !append);
        proof {
            assert forall|g: Seq<char>, a: Seq<char>|
                #![trigger bindings_in(value@, g, a)]
                #![trigger has_entry(value@, g, a)]
                {
                    let done = g == group_id@ && group_has_action(group, a) && !(exists|k: int|
                        0 <= k < actions@.len() && #[trigger] actions@[k].action_id@ == a);
                    &&& bindings_in(value@, g, a) == if done {
                        added(bindings_in(start, g, a), config_action_bindings(group, a), !append)
                    } else {
                        bindings_in(start, g, a)
                    }
                    &&& has_entry(value@, g, a) == (has_entry(start, g, a) || done)
                } by {
                assert(bindings_in(before, g, a) == bindings_in(before, g, a));
                assert(has_entry(before, g, a) == has_entry(before, g, a));
                if a == act.action_id@ {
                    assert(rest[n as int].action_id@ == a);
                    assert forall|k: int| 0 <= k < actions@.len() implies #[trigger] actions@[k].action_id@ != a by {
                        assert(all[k].action_id@ != all[n as int].action_id@);
                    }
                } else {
                    if exists|k: int| 0 <= k < rest.len() && #[trigger] rest[k].action_id@ == a {
                        let k = choose|k: int| 0 <= k < rest.len() && #[trigger] rest[k].action_id@ == a;
                        assert(k != n as int);
                        assert(actions@[k].action_id@ == a);
                    }
                    if exists|k: int| 0 <= k < actions@.len() && #[trigger] actions@[k].action_id@ == a {
                        let k = choose|k: int| 0 <= k < actions@.len() && #[trigger] actions@[k].action_id@ == a;
                        assert(rest[k].action_id@ == a);
                    }
                }
            }
        }
    }
    proof {
        assert forall|g: Seq<char>, a: Seq<char>|
            #![trigger bindings_in(value@, g, a)]
            #![trigger has_entry(value@, g, a)]
            !(exists|k: int| 0 <= k < actions@.len() && #[trigger] actions@[k].action_id@ == a) by {}
    }
}

impl InputConfig {
    /// `other` merged into `self`: an action that `other` binds gets `other`'s
    /// bindings, after `self`'s when appending, in place of them otherwise; the
    /// timings `other` sets replace those of `self`.
    pub fn merge_inner(self, other: InputConfig, append: bool) -> (r: InputConfig)
        requires
            self.wf(),
            other.wf(),
        ensures
            r.wf(),
            forall|g: Seq<char>, a: Seq<char>|
                #[trigger] bindings_in(r.bindings@, g, a) == merged_bindings(
                    self.bindings@,
                    other.bindings@,
                    g,
                    a,
                    append,
                ),
            forall|g: Seq<char>, a: Seq<char>|
                #[trigger] has_entry(r.bindings@, g, a) == (has_entry(self.bindings@, g, a) || has_entry(
                    other.bindings@,
                    g,
                    a,
                )),
            r.double_click_timing == if other.double_click_timing is Some {
                other.double_click_timing
            } else {
                self.double_click_timing
            },
            r.post_acceptance_delay == if other.post_acceptance_delay is Some {
                other.post_acceptance_delay
            } else {
                self.post_acceptance_delay
            },
    {
        let ghost start = self.bindings@;
        let ghost all = other.bindings@;
        let mut value = self.bindings;
        let mut groups = other.bindings;
        while groups.len() > 0
            invariant
                groups_wf(value@),
                groups_wf(all),
                groups@.len() <= all.len(),
                groups@ == all.take(groups@.len() as int),
                forall|g: Seq<char>, a: Seq<char>|
                    #![trigger bindings_in(value@, g, a)]
                    #![trigger has_entry(value@, g, a)]
                    {
                        let done = !has_group(groups@, g);
                        &&& bindings_in(value@, g, a) == if done {
                            merged_bindings(start, all, g, a, append)
                        } else {
                            bindings_in(start, g, a)
                        }
                        &&& has_entry(value@, g, a) == (has_entry(start, g, a) || (done && has_entry(all, g, a)))
                    },
            decreases groups@.len(),
        {
            let ghost before = value@;
            let ghost rest = groups@;
            let n = groups.len() - 1;
            let group = groups.pop().unwrap();
            let ghost og = group;
            assert(og == all[n as int]);
            assert(groups@ =~= all.take(n as int));
            merge_group(&mut value, group, append);
            proof {
                assert forall|g: Seq<char>, a: Seq<char>|
                    #![trigger bindings_in(value@, g, a)]
                    #![trigger has_entry(value@, g, a)]
                    {
                        let done = !has_group(groups@, g);
                        &&& bindings_in(value@, g, a) == if done {
                            merged_bindings(start, all, g, a, append)
                        } else {
                            bindings_in(start, g, a)
                        }
                        &&& has_entry(value@, g, a) == (has_entry(start, g, a) || (done && has_entry(all, g, a)))
                    } by {
                    assert(bindings_in(before, g, a) == bindings_in(before, g, a));
                    assert(has_entry(before, g, a) == has_entry(before, g, a));
                    if g == og.group_id@ {
                        lemma_bindings_in_at(all, n as int, g, a);
                        assert(rest[n as int].group_id@ == g);
                        assert forall|i: int| 0 <= i < groups@.len() implies #[trigger] groups@[i].group_id@ != g by {
                            assert(all[i].group_id@ != all[n as int].group_id@);
                        }
                    } else {
                        if has_group(rest, g) {
                            let i = choose|i: int| 0 <= i < rest.len() && #[trigger] rest[i].group_id@ == g;
                            assert(i != n as int);
                            assert(groups@[i].group_id@ == g);
                        }
                        if has_group(groups@, g) {
                            let i = choose|i: int| 0 <= i < groups@.len() && #[trigger] groups@[i].group_id@ == g;
                            assert(rest[i].group_id@ == g);
                        }
                    }
                }
            }
        }
        proof {
            assert forall|g: Seq<char>| !has_group(groups@, g) by {}
        }
        InputConfig {
            double_click_timing: if other.double_click_timing.is_some() {
                other.double_click_timing
            } else {
                self.double_click_timing
            },
            post_acceptance_delay: if other.post_acceptance_delay.is_some() {
                other.post_acceptance_delay
            } else {
                self.post_acceptance_delay
            },
            bindings: value,
        }
    }
}

impl InputConfig {
    /// `other` merged into `self`, its bindings replacing those of each action it binds.
    pub fn merge_replace(self, other: InputConfig) -> (r: InputConfig)
        requires
            self.wf(),
            other.wf(),
        ensures
            r.wf(),
            forall|g: Seq<char>, a: Seq<char>|
                #[trigger] bindings_in(r.bindings@, g, a) == merged_bindings(self.bindings@, other.bindings@, g, a, false),
            forall|g: Seq<char>, a: Seq<char>|
                #[trigger] has_entry(r.bindings@, g, a) == (has_entry(self.bindings@, g, a) || has_entry(other.bindings@, g, a)),
            r.double_click_timing == if other.double_click_timing is Some {
                other.double_click_timing
            } else {
                self.double_click_timing
            },
            r.post_acceptance_delay == if other.post_acceptance_delay is Some {
                other.post_acceptance_delay
            } else {
                self.post_acceptance_delay
            },
    {
        self.merge_inner(other, false)
    }

    /// `other` merged into `self`, its bindings added after those of each action it binds.
    pub fn merge_append(self, other: InputConfig) -> (r: InputConfig)
        requires
            self.wf(),
            other.wf(),
        ensures
            r.wf(),
            forall|g: Seq<char>, a: Seq<char>|
                #[trigger] bindings_in(r.bindings@, g, a) == merged_bindings(self.bindings@, other.bindings@, g, a, true),
            forall|g: Seq<char>, a: Seq<char>|
                #[trigger] has_entry(r.bindings@, g, a) == (has_entry(self.bindings@, g, a) || has_entry(other.bindings@, g, a)),
            r.double_click_timing == if other.double_click_timing is Some {
                other.double_click_timing
            } else {
                self.double_click_timing
            },
            r.post_acceptance_delay == if other.post_acceptance_delay is Some {
                other.post_acceptance_delay
            } else {
                self.post_acceptance_delay
            },
    {
        self.merge_inner(other, true)
    }

    /// The same as `merge_replace`.
    pub fn merge(self, other: InputConfig) -> (r: InputConfig)
        requires
            self.wf(),
            other.wf(),
        ensures
            r.wf(),
            forall|g: Seq<char>, a: Seq<char>|
                #[trigger] bindings_in(r.bindings@, g, a) == merged_bindings(self.bindings@, other.bindings@, g, a, false),
            forall|g: Seq<char>, a: Seq<char>|
                #[trigger] has_entry(r.bindings@, g, a) == (has_entry(self.bindings@, g, a) || has_entry(other.bindings@, g, a)),
            r.double_click_timing == if other.double_click_timing is Some {
                other.double_click_timing
            } else {
                self.double_click_timing
            },
            r.post_acceptance_delay == if other.post_acceptance_delay is Some {
                other.post_acceptance_delay
            } else {
                self.post_acceptance_delay
            },
    {
        self.merge_replace(other)
    }
}

/// A configuration as loaded, with how it is to be combined with those before it.
#[derive(Debug, Clone)]
pub struct LoadedConfig {
    pub mode: MergeMode,
    pub config: InputConfig,
}

/// A timing after combining the configurations of `loaded` in order (the
/// double-click timing, or else the post-acceptance delay): a base
/// configuration sets it outright, any other only where it sets one.
pub open spec fn combined_timing(loaded: Seq<LoadedConfig>, double_click: bool) -> Option<u64>
    decreases loaded.len(),
{
    if loaded.len() == 0 {
        None
    } else {
        let next = loaded.last();
        let own = if double_click {
            next.config.double_click_timing
        } else {
            next.config.post_acceptance_delay
        };
        if next.mode == MergeMode::Base || own is Some {
            own
        } else {
            combined_timing(loaded.drop_last(), double_click)
        }
    }
}

/// The bindings of one entry after combining the configurations of `loaded` in order.
pub open spec fn combined_bindings(loaded: Seq<LoadedConfig>, group_id: Seq<char>, action_id: Seq<char>) -> Seq<InputBinding>
    decreases loaded.len(),
{
    if loaded.len() == 0 {
        Seq::empty()
    } else {
        let next = loaded.last();
        let prev = combined_bindings(loaded.drop_last(), group_id, action_id);
        let own = bindings_in(next.config.bindings@, group_id, action_id);
        let bound = has_entry(next.config.bindings@, group_id, action_id);
        match next.mode {
            MergeMode::Base => own,
            MergeMode::Append => if bound { prev + own } else { prev },
            MergeMode::Replace => if bound { own } else { prev },
        }
    }
}

/// Combines loaded configurations in order: a base one starts over, the others
/// are merged in as their mode says.
pub fn merge_configs(loaded: Vec<LoadedConfig>) -> (r: InputConfig)
    requires
        forall|k: int| 0 <= k < loaded@.len() ==> (#[trigger] loaded@[k]).config.wf(),
    ensures
        r.wf(),
        forall|g: Seq<char>, a: Seq<char>|
            #[trigger] bindings_in(r.bindings@, g, a) == combined_bindings(loaded@, g, a),
        r.double_click_timing == combined_timing(loaded@, true),
        r.post_acceptance_delay == combined_timing(loaded@, false),
{
    let ghost all = loaded@;
    let total = loaded.len();
    let mut rest = loaded;
    let mut acc = InputConfig::new();
    let mut i: usize = 0;
    assert forall|g: Seq<char>, a: Seq<char>| #[trigger] bindings_in(acc.bindings@, g, a) == combined_bindings(all.take(0), g, a) by {}
    while rest.len() > 0
        invariant
            i + rest@.len() == all.len(),
            all.len() == total,
            rest@ == all.skip(i as int),
            acc.wf(),
            forall|k: int| 0 <= k < all.len() ==> (#[trigger] all[k]).config.wf(),
            forall|g: Seq<char>, a: Seq<char>|
                #[trigger] bindings_in(acc.bindings@, g, a) == combined_bindings(all.take(i as int), g, a),
            acc.double_click_timing == combined_timing(all.take(i as int), true),
            acc.post_acceptance_delay == combined_timing(all.take(i as int), false),
        decreases rest@.len(),
    {
        let next = rest.remove(0);
        assert(next == all[i as int]);
        assert(rest@ =~= all.skip(i + 1));
        assert(all.take(i + 1).drop_last() =~= all.take(i as int));
        assert(all.take(i + 1).last() == all[i as int]);
        let ghost prev = acc.bindings@;
        acc = match next.mode {
            MergeMode::Base => next.config,
            MergeMode::Append => acc.merge_append(next.config),
            MergeMode::Replace => acc.merge_replace(next.config),
        };
        i = i + 1;
        assert forall|g: Seq<char>, a: Seq<char>|
            #[trigger] bindings_in(acc.bindings@, g, a) == combined_bindings(all.take(i as int), g, a) by {
            assert(bindings_in(prev, g, a) == combined_bindings(all.take(i - 1), g, a));
        }
    }
    assert(all.take(i as int) =~= all);
    acc
}

/// Reads configurations from files with the extension `input.ron`.
#[derive(Debug, Clone, Copy, PartialEq, Eq, Structural, Hash, Default)]
pub struct InputConfigRonLoader;

impl InputConfigRonLoader {
    /// The file extensions read.
    pub fn extensions(&self) -> (r: Vec<&'static str>)
        ensures
            r@.len() == 1,
            r@[0]@ == "input.ron"@,
    {
        vec!["input.ron"]
    }
}

} // verus!

//! The workshop planning screen: the state of each policy card, the copy
//! on its status banner and lock panel, the themed card groups, the
//! selection summary and when the Ready button asks for confirmation.
use vstd::prelude::*;
use crate::deck::{is_passed, Feedstock, Group, Output, PlanChange, Process, Project, ProjectType, SessionState, Status};
use crate::order::{entries_sorted, insert_entry_sorted, insert_name_sorted, names_sorted};
use crate::text::{
    decimal_text, join, join_text, lex_le, push_decimal, push_signed, signed_text, texts,
};
use crate::workshop::{
    plan_consistent, theme_of_name, theme_order, toggle_outcome, workshop_theme,
    WorkshopLockReason, WorkshopTheme, WORKSHOP_PC_BUDGET,
};

verus! {

/// The six states in which a workshop card can be shown.
#[derive(Debug, Clone, Copy, PartialEq, Eq, Structural)]
pub enum WorkshopCardState {
    Available,
    SelectedThisCycle,
    ActiveFromEarlierCycle,
    RepealedThisCycle,
    OverBudget,
    Locked,
}

/// The state of a card, by precedence: locked; passed this cycle;
/// repealed this cycle; passed in an earlier cycle; too costly for the
/// remaining budget; available.
pub open spec fn card_state_of(p: Project, change: Option<PlanChange>, remaining_pc: int) -> WorkshopCardState {
    if p.locked {
        WorkshopCardState::Locked
    } else if change matches Some(c) && c.passed {
        WorkshopCardState::SelectedThisCycle
    } else if change matches Some(c) && c.withdrawn {
        WorkshopCardState::RepealedThisCycle
    } else if is_passed(p) {
        WorkshopCardState::ActiveFromEarlierCycle
    } else if p.cost > remaining_pc {
        WorkshopCardState::OverBudget
    } else {
        WorkshopCardState::Available
    }
}

/// The state in which a card is shown.
pub fn workshop_card_state(
    project: &Project,
    change: Option<&PlanChange>,
    remaining_pc: isize,
) -> (s: WorkshopCardState)
    requires
        project.cost <= isize::MAX,
    ensures
        s == card_state_of(
            *project,
            match change {
                Some(c) => Some(*c),
                None => None,
            },
            remaining_pc as int,
        ),
{
    if project.locked {
        WorkshopCardState::Locked
    } else if change.is_some() && change.unwrap().passed {
        WorkshopCardState::SelectedThisCycle
    } else if change.is_some() && change.unwrap().withdrawn {
        WorkshopCardState::RepealedThisCycle
    } else if project.is_building() || project.is_online() {
        WorkshopCardState::ActiveFromEarlierCycle
    } else if remaining_pc < 0 || project.cost > remaining_pc as usize {
        WorkshopCardState::OverBudget
    } else {
        WorkshopCardState::Available
    }
}

/// A list read out with "or": `a`, `a or b`, `a, b, or c`.
pub open spec fn or_list_text(items: Seq<Seq<char>>) -> Seq<char> {
    if items.len() == 0 {
        Seq::empty()
    } else if items.len() == 1 {
        items[0]
    } else if items.len() == 2 {
        items[0] + " or "@ + items[1]
    } else {
        join_text(items.drop_last(), ", "@) + ", or "@ + items.last()
    }
}

/// Read a list of names out with "or".
pub fn format_or_list(items: &[String]) -> (s: String)
    ensures
        s@ == or_list_text(texts(items@)),
{
    let n = items.len();
    if n == 0 {
        String::new()
    } else if n == 1 {
        items[0].clone()
    } else if n == 2 {
        let mut s = items[0].clone();
        s.append(" or ");
        s.append(items[1].as_str());
        s
    } else {
        let initial = slice_prefix(items, n - 1);
        let mut s = join(initial.as_slice(), ", ");
        s.append(", or ");
        s.append(items[n - 1].as_str());
        proof {
            assert(texts(initial@) =~= texts(items@).drop_last());
        }
        s
    }
}

/// The first `k` strings of a list.
fn slice_prefix(items: &[String], k: usize) -> (v: Vec<String>)
    requires
        k <= items@.len(),
    ensures
        v@ == items@.take(k as int),
{
    let mut v: Vec<String> = Vec::new();
    let mut i: usize = 0;
    while i < k
        invariant
            k <= items@.len(),
            i <= k,
            v@ == items@.take(i as int),
        decreases k - i,
    {
        let item = items[i].clone();
        v.push(item);
        proof {
            assert(items@.take(i + 1) =~= items@.take(i as int).push(items@[i as int]));
        }
        i = i + 1;
    }
    v
}

/// The text of a card's lock panel.
pub open spec fn lock_copy_text(reason: Option<(Seq<Seq<char>>, bool)>) -> Seq<char> {
    match reason {
        Some((prerequisites, available_next_cycle)) => if available_next_cycle
            && prerequisites.len() == 1 {
            "Requirement met: "@ + prerequisites[0] + ". Available next cycle."@
        } else if available_next_cycle {
            "Requirement met (OR: "@ + or_list_text(prerequisites) + "). Available next cycle."@
        } else if prerequisites.len() == 1 {
            "Requires "@ + prerequisites[0] + ". Pass it first; available next cycle."@
        } else {
            "Requires any one (OR): "@ + or_list_text(prerequisites)
                + ". Pass one first; available next cycle."@
        },
        None => "Locked for this workshop."@,
    }
}

/// The lock reason as plain texts.
pub open spec fn reason_texts(reason: Option<&WorkshopLockReason>) -> Option<(Seq<Seq<char>>, bool)> {
    match reason {
        Some(r) => Some((texts(r.prerequisites@), r.available_next_cycle)),
        None => None,
    }
}

/// The text shown on a locked card: its prerequisites (an OR rule when
/// there are several) and when it becomes available.
pub fn workshop_lock_copy(reason: Option<&WorkshopLockReason>) -> (s: String)
    ensures
        s@ == lock_copy_text(reason_texts(reason)),
{
    match reason {
        Some(reason) => {
            let mut s = String::new();
            if reason.available_next_cycle && reason.prerequisites.len() == 1 {
                s.append("Requirement met: ");
                s.append(reason.prerequisites[0].as_str());
                s.append(". Available next cycle.");
            } else if reason.available_next_cycle {
                s.append("Requirement met (OR: ");
                let list = format_or_list(reason.prerequisites.as_slice());
                s.append(list.as_str());
                s.append("). Available next cycle.");
            } else if reason.prerequisites.len() == 1 {
                s.append("Requires ");
                s.append(reason.prerequisites[0].as_str());
                s.append(". Pass it first; available next cycle.");
            } else {
                s.append("Requires any one (OR): ");
                let list = format_or_list(reason.prerequisites.as_slice());
                s.append(list.as_str());
                s.append(". Pass one first; available next cycle.");
            }
            s
        },
        None => String::from_str("Locked for this workshop."),
    }
}

/// The lock panel tells the moderator whether the requirement is met:
/// whenever a prerequisite is already passed it reads "Requirement met
/// ... Available next cycle.", whatever the number of prerequisites;
/// otherwise it reads "Requires ... available next cycle.". A card that no
/// card unlocks is "Locked for this workshop.".
pub proof fn lemma_lock_copy_tells_whether_requirement_met(prerequisites: Seq<Seq<char>>, available_next_cycle: bool)
    ensures
        available_next_cycle ==> "Requirement met"@.is_prefix_of(
            lock_copy_text(Some((prerequisites, available_next_cycle))),
        ),
        available_next_cycle ==> ". Available next cycle."@.is_suffix_of(
            lock_copy_text(Some((prerequisites, available_next_cycle))),
        ),
        !available_next_cycle ==> "Requires "@.is_prefix_of(
            lock_copy_text(Some((prerequisites, available_next_cycle))),
        ),
        !available_next_cycle ==> " first; available next cycle."@.is_suffix_of(
            lock_copy_text(Some((prerequisites, available_next_cycle))),
        ),
        lock_copy_text(None) == "Locked for this workshop."@,
{
    let t = lock_copy_text(Some((prerequisites, available_next_cycle)));
    reveal_strlit("Requirement met");
    reveal_strlit("Requirement met: ");
    reveal_strlit("Requirement met (OR: ");
    reveal_strlit(". Available next cycle.");
    reveal_strlit("). Available next cycle.");
    reveal_strlit("Requires ");
    reveal_strlit("Requires any one (OR): ");
    reveal_strlit(". Pass it first; available next cycle.");
    reveal_strlit(". Pass one first; available next cycle.");
    reveal_strlit(" first; available next cycle.");
    if available_next_cycle {
        assert(t.subrange(0, 15) =~= "Requirement met"@);
        let suffix = if prerequisites.len() == 1 {
            ". Available next cycle."@
        } else {
            "). Available next cycle."@
        };
        assert(t.subrange(t.len() - suffix.len(), t.len() as int) =~= suffix);
        assert(t.subrange(t.len() - 23, t.len() as int) =~= ". Available next cycle."@);
    } else {
        assert(t.subrange(0, 9) =~= "Requires "@);
        let suffix = if prerequisites.len() == 1 {
            ". Pass it first; available next cycle."@
        } else {
            ". Pass one first; available next cycle."@
        };
        assert(t.subrange(t.len() - suffix.len(), t.len() as int) =~= suffix);
        assert(t.subrange(t.len() - 29, t.len() as int) =~= " first; available next cycle."@);
    }
}

/// The text of a card's status banner.
pub open spec fn card_state_copy_text(s: WorkshopCardState, cost: nat, remaining_pc: int) -> Seq<char> {
    match s {
        WorkshopCardState::Available => "AVAILABLE · Select to pass · "@ + decimal_text(cost)
            + " PC"@,
        WorkshopCardState::SelectedThisCycle => "SELECTED THIS CYCLE · Select again to undo"@,
        WorkshopCardState::ActiveFromEarlierCycle => "ACTIVE FROM EARLIER CYCLE · Select to repeal"@,
        WorkshopCardState::RepealedThisCycle => "REPEALED THIS CYCLE · Select again to restore"@,
        WorkshopCardState::OverBudget => "OVER BUDGET · Requires "@ + decimal_text(cost)
            + " PC · Remaining: "@ + signed_text(remaining_pc) + " PC"@,
        WorkshopCardState::Locked => "LOCKED · prerequisite required"@,
    }
}

/// The status banner of a card: what selecting it does, or why it
/// cannot be selected.
pub fn workshop_card_state_copy(
    card_state: WorkshopCardState,
    project: &Project,
    remaining_pc: isize,
) -> (s: String)
    ensures
        s@ == card_state_copy_text(card_state, project.cost as nat, remaining_pc as int),
{
    let mut s = String::new();
    match card_state {
        WorkshopCardState::Available => {
            s.append("AVAILABLE · Select to pass · ");
            push_decimal(&mut s, project.cost as u64);
            s.append(" PC");
        },
        WorkshopCardState::SelectedThisCycle => {
            s.append("SELECTED THIS CYCLE · Select again to undo");
        },
        WorkshopCardState::ActiveFromEarlierCycle => {
            s.append("ACTIVE FROM EARLIER CYCLE · Select to repeal");
        },
        WorkshopCardState::RepealedThisCycle => {
            s.append("REPEALED THIS CYCLE · Select again to restore");
        },
        WorkshopCardState::OverBudget => {
            s.append("OVER BUDGET · Requires ");
            push_decimal(&mut s, project.cost as u64);
            s.append(" PC · Remaining: ");
            push_signed(&mut s, remaining_pc as i64);
            s.append(" PC");
        },
        WorkshopCardState::Locked => {
            s.append("LOCKED · prerequisite required");
        },
    }
    s
}

/// Whether any card was passed or repealed this cycle.
pub open spec fn has_plan_changes(changes: Seq<PlanChange>) -> bool {
    exists|i: int| 0 <= i < changes.len() && ((#[trigger] changes[i]).passed || changes[i].withdrawn)
}

/// The Ready button asks for confirmation when nothing was changed this
/// cycle or the whole budget is still unspent.
pub fn workshop_ready_needs_confirmation_for(
    plan_changes: &Vec<PlanChange>,
    remaining_pc: isize,
) -> (r: bool)
    ensures
        r == (!has_plan_changes(plan_changes@) || remaining_pc == WORKSHOP_PC_BUDGET),
{
    let mut has_changes = false;
    let mut i: usize = 0;
    while i < plan_changes.len()
        invariant
            i <= plan_changes@.len(),
            has_changes == exists|k: int|
                0 <= k < i && ((#[trigger] plan_changes@[k]).passed || plan_changes@[k].withdrawn),
        decreases plan_changes@.len() - i,
    {
        if plan_changes[i].passed || plan_changes[i].withdrawn {
            has_changes = true;
        }
        i = i + 1;
    }
    !has_changes || remaining_pc == WORKSHOP_PC_BUDGET
}

/// Whether the Ready button of this session asks for confirmation.
pub fn workshop_ready_needs_confirmation(state: &SessionState, plan_changes: &Vec<PlanChange>) -> (r: bool)
    ensures
        r == (!has_plan_changes(plan_changes@) || state.political_capital == WORKSHOP_PC_BUDGET),
{
    workshop_ready_needs_confirmation_for(plan_changes, state.political_capital)
}

/// The lowercase form of a text, as `str::to_lowercase` gives it.
pub uninterp spec fn lowercase(s: Seq<char>) -> Seq<char>;

/// Calls `str::to_lowercase`, which returns the lowercase equivalent of
/// the text; the result is named `lowercase` of the text, and nothing
/// more is claimed of it.
#[verifier::external_body]
fn to_lowercase(s: &str) -> (r: String)
    ensures
        r@ == lowercase(s@),
{
    s.to_lowercase()
}

/// The names of the cards of a deck.
pub open spec fn names_of(projects: Seq<Project>) -> Seq<String> {
    projects.map_values(|p: Project| p.name)
}

/// The order in which cards are listed: by lowercase name, ties in deck
/// order.
pub open spec fn card_le(names: Seq<String>, i: int, j: int) -> bool {
    let ki = lowercase(names[i]@);
    let kj = lowercase(names[j]@);
    if ki == kj {
        i <= j
    } else {
        lex_le(ki, kj)
    }
}

/// The cards picked by `mask`, in card order: each picked card once,
/// and no other card.
pub open spec fn name_ordered(names: Seq<String>, mask: Seq<bool>, ids: Seq<usize>) -> bool {
    &&& forall|a: int, b: int|
        0 <= a < b < ids.len() ==> #[trigger] ids[a] != #[trigger] ids[b] && card_le(
            names,
            ids[a] as int,
            ids[b] as int,
        )
    &&& forall|x: usize| #[trigger] ids.contains(x) <==> (x < names.len() && x < mask.len() && mask[x as int])
}

/// Which cards of the deck belong to `theme`.
pub open spec fn theme_mask(projects: Seq<Project>, theme: WorkshopTheme) -> Seq<bool> {
    Seq::new(projects.len(), |i: int| theme_of_name(projects[i].name@) == Some(theme))
}

/// The cards of one theme, in card order.
pub open spec fn theme_cards(projects: Seq<Project>, theme: WorkshopTheme, ids: Seq<usize>) -> bool {
    name_ordered(names_of(projects), theme_mask(projects, theme), ids)
}

/// The sorted entries of the picked cards among the first `i` cards.
spec fn picked_entries_inv(
    ps: Seq<String>,
    mask: Seq<bool>,
    entries: Seq<(String, usize)>,
    i: int,
) -> bool {
    &&& forall|k: int|
        0 <= k < entries.len() ==> {
            let e = #[trigger] entries[k];
            &&& e.1 < i
            &&& mask[e.1 as int]
            &&& e.0@ == lowercase(ps[e.1 as int]@)
        }
    &&& forall|x: usize|
        x < i && mask[x as int] ==> exists|k: int| 0 <= k < entries.len() && (#[trigger] entries[k]).1 == x
    &&& forall|a: int, b: int|
        0 <= a < b < entries.len() ==> (#[trigger] entries[a]).1 != (#[trigger] entries[b]).1
}

proof fn lemma_picked_insert(
    ps: Seq<String>,
    mask: Seq<bool>,
    old_entries: Seq<(String, usize)>,
    entries: Seq<(String, usize)>,
    e: (String, usize),
    i: int,
)
    requires
        0 <= i < ps.len(),
        mask.len() == ps.len(),
        e.1 == i,
        e.0@ == lowercase(ps[i]@),
        mask[i],
        picked_entries_inv(ps, mask, old_entries, i),
        exists|pos: int| 0 <= pos <= old_entries.len() && entries == old_entries.insert(pos, e),
    ensures
        picked_entries_inv(ps, mask, entries, i + 1),
{
    let pos = choose|pos: int| 0 <= pos <= old_entries.len() && entries == old_entries.insert(pos, e);
    assert forall|k: int| 0 <= k < entries.len() implies {
        let f = #[trigger] entries[k];
        &&& f.1 < i + 1
        &&& mask[f.1 as int]
        &&& f.0@ == lowercase(ps[f.1 as int]@)
    } by {
        if k < pos {
            assert(entries[k] == old_entries[k]);
        } else if k > pos {
            assert(entries[k] == old_entries[k - 1]);
        }
    }
    assert forall|x: usize| x < i + 1 && mask[x as int] implies exists|k: int|
        0 <= k < entries.len() && (#[trigger] entries[k]).1 == x by {
        if x == i {
            assert(entries[pos].1 == x);
        } else {
            let k0 = choose|k: int| 0 <= k < old_entries.len() && (#[trigger] old_entries[k]).1 == x;
            if k0 < pos {
                assert(entries[k0].1 == x);
            } else {
                assert(entries[k0 + 1].1 == x);
            }
        }
    }
    assert forall|a: int, b: int| 0 <= a < b < entries.len() implies (#[trigger] entries[a]).1 != (
    #[trigger] entries[b]).1 by {
        if a < pos && b < pos {
            assert(entries[a] == old_entries[a]);
            assert(entries[b] == old_entries[b]);
        } else if a < pos && b == pos {
            assert(entries[a] == old_entries[a]);
        } else if a < pos && b > pos {
            assert(entries[a] == old_entries[a]);
            assert(entries[b] == old_entries[b - 1]);
        } else if a == pos {
            assert(entries[b] == old_entries[b - 1]);
        } else {
            assert(entries[a] == old_entries[a - 1]);
            assert(entries[b] == old_entries[b - 1]);
        }
    }
}

/// The indices of the names picked by `mask`, ordered by lowercase name
/// (ties in list order), as a stable sort by lowercase name gives them.
pub fn indices_in_name_order(names: &Vec<String>, mask: &Vec<bool>) -> (ids: Vec<usize>)
    requires
        mask@.len() == names@.len(),
    ensures
        name_ordered(names@, mask@, ids@),
{
    let n = names.len();
    let ghost ps = names@;
    let mut entries: Vec<(String, usize)> = Vec::new();
    let mut i: usize = 0;
    while i < n
        invariant
            n == ps.len(),
            ps == names@,
            mask@.len() == n,
            i <= n,
            entries_sorted(entries@),
            picked_entries_inv(ps, mask@, entries@, i as int),
        decreases n - i,
    {
        if mask[i] {
            let key = to_lowercase(names[i].as_str());
            let ghost old_entries = entries@;
            insert_entry_sorted(&mut entries, (key, i));
            proof {
                lemma_picked_insert(ps, mask@, old_entries, entries@, (key, i), i as int);
            }
        }
        i = i + 1;
    }
    let mut ids: Vec<usize> = Vec::new();
    let m = entries.len();
    let mut j: usize = 0;
    while j < m
        invariant
            m == entries@.len(),
            j <= m,
            ids@.len() == j,
            forall|k: int| 0 <= k < j ==> #[trigger] ids@[k] == entries@[k].1,
        decreases m - j,
    {
        ids.push(entries[j].1);
        j = j + 1;
    }
    proof {
        assert forall|a: int, b: int| 0 <= a < b < ids@.len() implies #[trigger] ids@[a] != #[trigger] ids@[b]
            && card_le(ps, ids@[a] as int, ids@[b] as int) by {
            let ea = entries@[a];
            let eb = entries@[b];
            assert(crate::order::entry_le(ea, eb));
        }
        assert forall|x: usize| #[trigger] ids@.contains(x) <==> (x < ps.len() && x < mask@.len()
            && mask@[x as int]) by {
            if ids@.contains(x) {
                let k = choose|k: int| 0 <= k < ids@.len() && ids@[k] == x;
                assert(entries@[k].1 == x);
            }
            if x < ps.len() && mask@[x as int] {
                let k = choose|k: int| 0 <= k < entries@.len() && (#[trigger] entries@[k]).1 == x;
                assert(ids@[k] == x);
            }
        }
    }
    ids
}

/// The names of the cards of a deck.
pub fn project_names(projects: &Vec<Project>) -> (names: Vec<String>)
    ensures
        names@ == names_of(projects@),
{
    let mut names: Vec<String> = Vec::new();
    let mut i: usize = 0;
    while i < projects.len()
        invariant
            i <= projects@.len(),
            names@ == names_of(projects@).take(i as int),
        decreases projects@.len() - i,
    {
        let name = projects[i].name.clone();
        names.push(name);
        proof {
            assert(names_of(projects@).take(i + 1) =~= names_of(projects@).take(i as int).push(projects@[i as int].name));
        }
        i = i + 1;
    }
    assert(names_of(projects@).take(projects@.len() as int) =~= names_of(projects@));
    names
}

fn theme_card_ids(state: &SessionState, theme: WorkshopTheme) -> (ids: Vec<usize>)
    ensures
        theme_cards(state.projects@, theme, ids@),
{
    let n = state.projects.len();
    let mut mask: Vec<bool> = Vec::new();
    let mut i: usize = 0;
    while i < n
        invariant
            n == state.projects@.len(),
            i <= n,
            mask@.len() == i,
            forall|k: int| 0 <= k < i ==> #[trigger] mask@[k] == (theme_of_name(state.projects@[k].name@) == Some(theme)),
        decreases n - i,
    {
        let t = workshop_theme(&state.projects[i]);
        mask.push(t == Some(theme));
        i = i + 1;
    }
    assert(mask@ =~= theme_mask(state.projects@, theme));
    let names = project_names(&state.projects);
    indices_in_name_order(&names, &mask)
}

/// The accepted deck grouped by its five presentation themes, in theme
/// order; within a theme the cards are in order of their lowercase names
/// (ties in deck order). Each card is given by its index in the deck.
pub fn workshop_card_groups(state: &SessionState) -> (groups: Vec<(WorkshopTheme, Vec<usize>)>)
    ensures
        groups@.len() == 5,
        forall|t: int|
            0 <= t < 5 ==> (#[trigger] groups@[t]).0 == theme_order()[t] && theme_cards(
                state.projects@,
                groups@[t].0,
                groups@[t].1@,
            ),
{
    let themes = WorkshopTheme::all();
    let mut groups: Vec<(WorkshopTheme, Vec<usize>)> = Vec::new();
    let mut t: usize = 0;
    while t < 5
        invariant
            themes@ == theme_order(),
            t <= 5,
            groups@.len() == t,
            forall|k: int|
                0 <= k < t ==> (#[trigger] groups@[k]).0 == theme_order()[k] && theme_cards(
                    state.projects@,
                    groups@[k].0,
                    groups@[k].1@,
                ),
        decreases 5 - t,
    {
        let theme = themes[t];
        let ids = theme_card_ids(state, theme);
        groups.push((theme, ids));
        t = t + 1;
    }
    groups
}

/// The themed groups cover the workshop deck exactly once: a card is in
/// the group of its theme and in no other, and a card outside the
/// workshop deck is in no group.
pub proof fn lemma_card_groups_partition_deck(
    projects: Seq<Project>,
    groups: Seq<(WorkshopTheme, Seq<usize>)>,
)
    requires
        groups.len() == 5,
        forall|t: int|
            0 <= t < 5 ==> (#[trigger] groups[t]).0 == theme_order()[t] && theme_cards(
                projects,
                groups[t].0,
                groups[t].1,
            ),
    ensures
        forall|i: usize, t: int|
            0 <= t < 5 && i < projects.len() ==> (#[trigger] groups[t].1.contains(i) <==> theme_of_name(
                projects[i as int].name@,
            ) == Some(groups[t].0)),
        forall|i: usize|
            #![trigger projects[i as int]]
            i < projects.len() ==> (theme_of_name(projects[i as int].name@) is Some <==> exists|t: int|
                0 <= t < 5 && #[trigger] groups[t].1.contains(i)),
        forall|i: usize, t: int, u: int|
            0 <= t < 5 && 0 <= u < 5 && #[trigger] groups[t].1.contains(i) && #[trigger] groups[
                u
            ].1.contains(i) ==> t == u,
{
    assert forall|i: usize, t: int|
        0 <= t < 5 && i < projects.len() implies (#[trigger] groups[t].1.contains(i) <==> theme_of_name(
            projects[i as int].name@,
        ) == Some(groups[t].0)) by {
        assert(names_of(projects).len() == projects.len());
        assert(theme_mask(projects, groups[t].0)[i as int] == (theme_of_name(projects[i as int].name@)
            == Some(groups[t].0)));
    }
    assert forall|i: usize|
        #![trigger projects[i as int]]
        i < projects.len() implies (theme_of_name(projects[i as int].name@) is Some <==> exists|
            t: int,
        | 0 <= t < 5 && #[trigger] groups[t].1.contains(i)) by {
        if let Some(th) = theme_of_name(projects[i as int].name@) {
            let t: int = match th {
                WorkshopTheme::Energy => 0,
                WorkshopTheme::FoodAndAgriculture => 1,
                WorkshopTheme::LandAndBiodiversity => 2,
                WorkshopTheme::IndustryTransportAndGeoengineering => 3,
                WorkshopTheme::SocietyAndEconomy => 4,
            };
            assert(groups[t].0 == th);
            assert(groups[t].1.contains(i));
        }
    }
    assert forall|i: usize, t: int, u: int|
        0 <= t < 5 && 0 <= u < 5 && #[trigger] groups[t].1.contains(i) && #[trigger] groups[
            u
        ].1.contains(i) implies t == u by {
        let ids = groups[t].1;
        let k = choose|k: int| 0 <= k < ids.len() && ids[k] == i;
        assert(ids.contains(ids[k]));
        assert(i < names_of(projects).len());
        assert(i < projects.len());
        assert(groups[t].0 == groups[u].0);
    }
}

/// The names of the first `n` cards passed this cycle (`passing`) or
/// repealed this cycle (otherwise), in deck order.
pub open spec fn changed_card_names(
    projects: Seq<Project>,
    changes: Seq<PlanChange>,
    passing: bool,
    n: int,
) -> Seq<String>
    decreases n,
{
    if n <= 0 {
        Seq::empty()
    } else {
        let rest = changed_card_names(projects, changes, passing, n - 1);
        if (if passing {
            changes[n - 1].passed
        } else {
            changes[n - 1].withdrawn
        }) {
            rest.push(projects[n - 1].name)
        } else {
            rest
        }
    }
}

/// The names of the cards passed this cycle (`passing`) or repealed this
/// cycle (otherwise), in code-point order.
pub fn workshop_changed_names(
    state: &SessionState,
    plan_changes: &Vec<PlanChange>,
    passing: bool,
) -> (names: Vec<String>)
    requires
        plan_changes@.len() == state.projects@.len(),
    ensures
        names_sorted(names@),
        names@.to_multiset() == changed_card_names(
            state.projects@,
            plan_changes@,
            passing,
            plan_changes@.len() as int,
        ).to_multiset(),
{
    let mut names: Vec<String> = Vec::new();
    let n = plan_changes.len();
    let mut i: usize = 0;
    while i < n
        invariant
            n == plan_changes@.len(),
            n == state.projects@.len(),
            i <= n,
            names_sorted(names@),
            names@.to_multiset() == changed_card_names(
                state.projects@,
                plan_changes@,
                passing,
                i as int,
            ).to_multiset(),
        decreases n - i,
    {
        let change = plan_changes[i];
        let selected = if passing {
            change.passed
        } else {
            change.withdrawn
        };
        if selected {
            let name = state.projects[i].name.clone();
            let ghost prev = changed_card_names(state.projects@, plan_changes@, passing, i as int);
            insert_name_sorted(&mut names, name);
            proof {
                vstd::seq_lib::to_multiset_build(prev, state.projects@[i as int].name);
                assert(names@.to_multiset() =~= prev.push(state.projects@[i as int].name).to_multiset());
            }
        }
        i = i + 1;
    }
    names
}

/// The selection summary shown beside the Ready button.
pub open spec fn selection_summary_text(passing: Seq<Seq<char>>, repealing: Seq<Seq<char>>) -> Seq<char> {
    if passing.len() == 0 && repealing.len() == 0 {
        "Choices this cycle: No changes selected."@
    } else if repealing.len() == 0 {
        "Choices this cycle · Passing: "@ + join_text(passing, ", "@)
    } else if passing.len() == 0 {
        "Choices this cycle · Repealing: "@ + join_text(repealing, ", "@)
    } else {
        "Choices this cycle · Passing: "@ + join_text(passing, ", "@) + " · Repealing: "@
            + join_text(repealing, ", "@)
    }
}

/// Summarize the cards being passed and repealed this cycle.
pub fn workshop_selection_summary(passing: &[String], repealing: &[String]) -> (s: String)
    ensures
        s@ == selection_summary_text(texts(passing@), texts(repealing@)),
{
    let mut s = String::new();
    if passing.len() == 0 && repealing.len() == 0 {
        s.append("Choices this cycle: No changes selected.");
    } else if repealing.len() == 0 {
        s.append("Choices this cycle · Passing: ");
        let p = join(passing, ", ");
        s.append(p.as_str());
    } else if passing.len() == 0 {
        s.append("Choices this cycle · Repealing: ");
        let r = join(repealing, ", ");
        s.append(r.as_str());
    } else {
        s.append("Choices this cycle · Passing: ");
        let p = join(passing, ", ");
        s.append(p.as_str());
        s.append(" · Repealing: ");
        let r = join(repealing, ", ");
        s.append(r.as_str());
    }
    s
}

/// Whether a card in this state reacts to a click: every card but a
/// locked one and one the remaining budget cannot cover.
pub open spec fn accepts_clicks(s: WorkshopCardState) -> bool {
    s != WorkshopCardState::Locked && s != WorkshopCardState::OverBudget
}

/// Whether a card shown in this state reacts to a click.
pub fn workshop_card_accepts_clicks(card_state: WorkshopCardState) -> (r: bool)
    ensures
        r == accepts_clicks(card_state),
{
    card_state != WorkshopCardState::Locked && card_state != WorkshopCardState::OverBudget
}

/// The state shown for card `id`.
pub open spec fn shown_state(pc: int, projects: Seq<Project>, changes: Seq<PlanChange>, id: int) -> WorkshopCardState {
    card_state_of(projects[id], Some(changes[id]), pc)
}

/// What a policy card shows is what a click on it does: a click changes
/// something exactly when the card's shown state accepts clicks, and it
/// moves the card between shown states as the banners promise: an
/// available card becomes selected, a card selected this cycle becomes
/// available again, a card active from an earlier cycle becomes repealed,
/// and a card repealed this cycle becomes active again.
pub proof fn lemma_shown_state_matches_click(
    pc: int,
    projects: Seq<Project>,
    changes: Seq<PlanChange>,
    id: int,
)
    requires
        0 <= id < projects.len(),
        plan_consistent(projects, changes),
        projects[id].kind == ProjectType::Policy,
        pc >= 0,
    ensures
        ({
            let (pc2, ps, cs, changed) = toggle_outcome(pc, projects, changes, id);
            let before = shown_state(pc, projects, changes, id);
            let after = shown_state(pc2, ps, cs, id);
            &&& changed == accepts_clicks(before)
            &&& before == WorkshopCardState::Available ==> after
                == WorkshopCardState::SelectedThisCycle
            &&& before == WorkshopCardState::SelectedThisCycle ==> after
                == WorkshopCardState::Available
            &&& before == WorkshopCardState::ActiveFromEarlierCycle ==> after
                == WorkshopCardState::RepealedThisCycle
            &&& before == WorkshopCardState::RepealedThisCycle ==> after
                == WorkshopCardState::ActiveFromEarlierCycle
            &&& !changed ==> after == before
        }),
{
    let ch = changes[id];
    assert(ch == changes[id]);
    assert(ch.passed ==> is_passed(projects[id]));
    assert(ch.withdrawn ==> !is_passed(projects[id]));
}

/// The project group whose colours a theme's header borrows.
pub open spec fn header_group_of(theme: WorkshopTheme) -> Group {
    match theme {
        WorkshopTheme::Energy => Group::Energy,
        WorkshopTheme::FoodAndAgriculture => Group::Food,
        WorkshopTheme::LandAndBiodiversity => Group::Restoration,
        WorkshopTheme::IndustryTransportAndGeoengineering => Group::Geoengineering,
        WorkshopTheme::SocietyAndEconomy => Group::Limits,
    }
}

/// The project group whose colours a theme's header borrows.
pub fn workshop_header_group(theme: WorkshopTheme) -> (g: Group)
    ensures
        g == header_group_of(theme),
{
    match theme {
        WorkshopTheme::Energy => Group::Energy,
        WorkshopTheme::FoodAndAgriculture => Group::Food,
        WorkshopTheme::LandAndBiodiversity => Group::Restoration,
        WorkshopTheme::IndustryTransportAndGeoengineering => Group::Geoengineering,
        WorkshopTheme::SocietyAndEconomy => Group::Limits,
    }
}

/// The planning header's cycle line.
pub open spec fn cycle_heading_text(cycle: nat, start_year: nat, end_year: nat) -> Seq<char> {
    "Cycle "@ + decimal_text(cycle) + " of 6 · "@ + decimal_text(start_year) + "–"@
        + decimal_text(end_year)
}

/// The planning header's cycle line: `Cycle <n> of 6 · <start>–<end>`.
pub fn workshop_cycle_heading(cycle: usize, start_year: usize, end_year: usize) -> (s: String)
    ensures
        s@ == cycle_heading_text(cycle as nat, start_year as nat, end_year as nat),
{
    let mut s = String::from_str("Cycle ");
    push_decimal(&mut s, cycle as u64);
    s.append(" of 6 · ");
    push_decimal(&mut s, start_year as u64);
    s.append("–");
    push_decimal(&mut s, end_year as u64);
    s
}

/// The planning header's budget line.
pub open spec fn budget_line_text(pc: int) -> Seq<char> {
    signed_text(pc) + "/"@ + signed_text(WORKSHOP_PC_BUDGET as int) + " PC this cycle"@
}

/// The planning header's budget line: `<remaining>/30 PC this cycle`.
pub fn workshop_budget_line(political_capital: isize) -> (s: String)
    ensures
        s@ == budget_line_text(political_capital as int),
{
    let mut s = String::new();
    push_signed(&mut s, political_capital as i64);
    s.append("/");
    push_signed(&mut s, WORKSHOP_PC_BUDGET as i64);
    s.append(" PC this cycle");
    s
}

/// How badly an output falls short of demand.
#[derive(Debug, Clone, Copy, PartialEq, Eq, Structural)]
pub enum Severity {
    Mild,
    Alarming,
    Severe,
    Critical,
}

/// The sentence that announces a single shortage of this severity.
pub open spec fn severity_desc_text(s: Severity) -> Seq<char> {
    match s {
        Severity::Mild => "There is a mild production shortage"@,
        Severity::Alarming => "There is a alarming production shortage"@,
        Severity::Severe => "There is a severe production shortage"@,
        Severity::Critical => "There is a critical production shortage"@,
    }
}

/// The word for this severity.
pub open spec fn severity_label_text(s: Severity) -> Seq<char> {
    match s {
        Severity::Mild => "mild"@,
        Severity::Alarming => "alarming"@,
        Severity::Severe => "severe"@,
        Severity::Critical => "critical"@,
    }
}

impl Severity {
    /// The sentence that announces a single shortage of this severity.
    pub fn desc(&self) -> (s: &'static str)
        ensures
            s@ == severity_desc_text(*self),
    {
        match self {
            Severity::Mild => "There is a mild production shortage",
            Severity::Alarming => "There is a alarming production shortage",
            Severity::Severe => "There is a severe production shortage",
            Severity::Critical => "There is a critical production shortage",
        }
    }

    /// The word for this severity.
    pub fn label(&self) -> (s: &'static str)
        ensures
            s@ == severity_label_text(*self),
    {
        match self {
            Severity::Mild => "mild",
            Severity::Alarming => "alarming",
            Severity::Severe => "severe",
            Severity::Critical => "critical",
        }
    }
}

/// One output in short supply, by its title, as a list entry.
pub open spec fn shortage_entry_text(title: Seq<char>, s: Severity) -> Seq<char> {
    title + " ("@ + severity_label_text(s) + ")"@
}

/// The entries of the shortage list.
pub open spec fn shortage_entries(problems: Seq<(String, Severity)>) -> Seq<Seq<char>> {
    problems.map_values(|p: (String, Severity)| shortage_entry_text(p.0@, p.1))
}

/// The production-shortage tooltip: none without shortages; a single
/// shortage is announced with its severity; several are listed, one per
/// line.
pub open spec fn production_shortage_text(problems: Seq<(String, Severity)>) -> Option<Seq<char>> {
    if problems.len() == 0 {
        None
    } else if problems.len() == 1 {
        Some(severity_desc_text(problems[0].1) + ": "@ + problems[0].0@)
    } else {
        Some("There are multiple production shortages: "@ + join_text(shortage_entries(problems), "\n"@))
    }
}

/// Describe the outputs in short supply, each given by its title and the
/// severity of its shortage.
pub fn production_shortages(problems: &[(String, Severity)]) -> (s: Option<String>)
    ensures
        match s {
            Some(t) => production_shortage_text(problems@) == Some(t@),
            None => production_shortage_text(problems@) is None,
        },
{
    let n = problems.len();
    if n == 0 {
        None
    } else if n == 1 {
        let mut s = String::from_str(problems[0].1.desc());
        s.append(": ");
        s.append(problems[0].0.as_str());
        Some(s)
    } else {
        let mut s = String::from_str("There are multiple production shortages: ");
        let ghost all = shortage_entries(problems@);
        let ghost prefix = s@;
        let mut i: usize = 0;
        while i < n
            invariant
                n == problems@.len(),
                all == shortage_entries(problems@),
                i <= n,
                s@ == prefix + join_text(all.take(i as int), "\n"@),
            decreases n - i,
        {
            proof {
                assert(all.take(i + 1).drop_last() =~= all.take(i as int));
            }
            if i != 0 {
                s.append("\n");
            } else {
                assert(all.take(0) =~= Seq::<Seq<char>>::empty());
            }
            s.append(problems[i].0.as_str());
            s.append(" (");
            s.append(problems[i].1.label());
            s.append(")");
            proof {
                assert(s@ =~= prefix + join_text(all.take(i + 1), "\n"@));
            }
            i = i + 1;
        }
        assert(all.take(n as int) =~= all);
        Some(s)
    }
}

/// The input-shortage tooltip: none without shortages; otherwise the
/// resources and feedstocks in short supply and what to do about it.
pub open spec fn input_shortage_text(names: Seq<Seq<char>>) -> Option<Seq<char>> {
    if names.len() == 0 {
        None
    } else {
        Some(
            "There is not enough "@ + join_text(names, ", "@)
                + ". You should change your production mixes to use less of these or reduce demand elsewhere."@,
        )
    }
}

/// Describe the resources and feedstocks in short supply, given by
/// their titles.
pub fn input_shortages(names: &[String]) -> (s: Option<String>)
    ensures
        match s {
            Some(t) => input_shortage_text(texts(names@)) == Some(t@),
            None => input_shortage_text(texts(names@)) is None,
        },
{
    if names.len() == 0 {
        None
    } else {
        let mut s = String::from_str("There is not enough ");
        let list = join(names, ", ");
        s.append(list.as_str());
        s.append(
            ". You should change your production mixes to use less of these or reduce demand elsewhere.",
        );
        Some(s)
    }
}

/// The titles of the resources short of supply, in order.
pub open spec fn short_resources(resources: Seq<(String, bool)>) -> Seq<String>
    decreases resources.len(),
{
    if resources.len() == 0 {
        Seq::empty()
    } else {
        let rest = short_resources(resources.drop_last());
        if resources.last().1 {
            rest.push(resources.last().0)
        } else {
            rest
        }
    }
}

/// Whether the input-shortage tooltip names a feedstock: it is short of
/// supply and is neither `Other` nor `Soil`.
pub open spec fn feedstock_listed(f: (Feedstock, String, bool)) -> bool {
    f.2 && f.0 != Feedstock::Other && f.0 != Feedstock::Soil
}

/// The titles of the feedstocks the input-shortage tooltip names, in order.
pub open spec fn short_feedstocks(feedstocks: Seq<(Feedstock, String, bool)>) -> Seq<String>
    decreases feedstocks.len(),
{
    if feedstocks.len() == 0 {
        Seq::empty()
    } else {
        let rest = short_feedstocks(feedstocks.drop_last());
        if feedstock_listed(feedstocks.last()) {
            rest.push(feedstocks.last().1)
        } else {
            rest
        }
    }
}

/// The titles of the inputs in short supply, as the input-shortage
/// tooltip lists them: the resources short of supply, then the
/// feedstocks short of supply except `Other` and `Soil`. `resources`
/// gives each resource's title and whether it is short; `feedstocks`
/// each feedstock, its title and whether it is short.
pub fn input_shortage_titles(
    resources: &Vec<(String, bool)>,
    feedstocks: &Vec<(Feedstock, String, bool)>,
) -> (titles: Vec<String>)
    ensures
        titles@ == short_resources(resources@) + short_feedstocks(feedstocks@),
{
    let mut titles: Vec<String> = Vec::new();
    let mut i: usize = 0;
    while i < resources.len()
        invariant
            i <= resources@.len(),
            titles@ == short_resources(resources@.take(i as int)),
        decreases resources@.len() - i,
    {
        proof {
            assert(resources@.take(i + 1).drop_last() =~= resources@.take(i as int));
        }
        if resources[i].1 {
            titles.push(resources[i].0.clone());
        }
        i = i + 1;
    }
    assert(resources@.take(resources@.len() as int) =~= resources@);
    let ghost head = titles@;
    let mut j: usize = 0;
    while j < feedstocks.len()
        invariant
            j <= feedstocks@.len(),
            head == short_resources(resources@),
            titles@ == head + short_feedstocks(feedstocks@.take(j as int)),
        decreases feedstocks@.len() - j,
    {
        proof {
            assert(feedstocks@.take(j + 1).drop_last() =~= feedstocks@.take(j as int));
        }
        let f = &feedstocks[j];
        if f.2 && f.0 != Feedstock::Other && f.0 != Feedstock::Soil {
            titles.push(f.1.clone());
            proof {
                assert(titles@ =~= head + short_feedstocks(feedstocks@.take(j + 1)));
            }
        }
        j = j + 1;
    }
    assert(feedstocks@.take(feedstocks@.len() as int) =~= feedstocks@);
    titles
}

/// How each entry shapes the input-shortage titles: with no entries
/// there are none; a resource adds its title exactly when it is short; a
/// feedstock adds its title exactly when it is short and is neither
/// `Other` nor `Soil`; every other entry adds nothing. Titles keep the
/// order of the entries.
pub proof fn lemma_shortage_titles_by_entry(
    resources: Seq<(String, bool)>,
    feedstocks: Seq<(Feedstock, String, bool)>,
    r: (String, bool),
    f: (Feedstock, String, bool),
)
    ensures
        short_resources(Seq::empty()) == Seq::<String>::empty(),
        short_feedstocks(Seq::empty()) == Seq::<String>::empty(),
        r.1 ==> short_resources(resources.push(r)) == short_resources(resources).push(r.0),
        !r.1 ==> short_resources(resources.push(r)) == short_resources(resources),
        f.2 && f.0 != Feedstock::Other && f.0 != Feedstock::Soil ==> short_feedstocks(
            feedstocks.push(f),
        ) == short_feedstocks(feedstocks).push(f.1),
        !f.2 || f.0 == Feedstock::Other || f.0 == Feedstock::Soil ==> short_feedstocks(
            feedstocks.push(f),
        ) == short_feedstocks(feedstocks),
{
    assert(resources.push(r).drop_last() =~= resources);
    assert(feedstocks.push(f).drop_last() =~= feedstocks);
}

/// Every feedstock in short supply other than `Other` and `Soil` is named
/// by the input-shortage titles, and so is every resource in short supply.
pub proof fn lemma_short_inputs_are_named(
    resources: Seq<(String, bool)>,
    feedstocks: Seq<(Feedstock, String, bool)>,
)
    ensures
        forall|j: int|
            0 <= j < feedstocks.len() && (#[trigger] feedstocks[j]).2 && feedstocks[j].0
                != Feedstock::Other && feedstocks[j].0 != Feedstock::Soil ==> short_feedstocks(
                feedstocks,
            ).contains(feedstocks[j].1),
        forall|j: int|
            0 <= j < resources.len() && (#[trigger] resources[j]).1 ==> short_resources(
                resources,
            ).contains(resources[j].0),
    decreases resources.len() + feedstocks.len(),
{
    if feedstocks.len() > 0 {
        let d = feedstocks.drop_last();
        lemma_short_inputs_are_named(resources, d);
        assert forall|j: int|
            0 <= j < feedstocks.len() && (#[trigger] feedstocks[j]).2 && feedstocks[j].0
                != Feedstock::Other && feedstocks[j].0 != Feedstock::Soil implies short_feedstocks(
            feedstocks,
        ).contains(feedstocks[j].1) by {
            let prev = short_feedstocks(d);
            if j < d.len() {
                assert(d[j] == feedstocks[j]);
                assert(prev.contains(d[j].1));
                let k = choose|k: int| 0 <= k < prev.len() && prev[k] == d[j].1;
                if feedstock_listed(feedstocks.last()) {
                    assert(short_feedstocks(feedstocks)[k] == prev[k]);
                } else {
                    assert(short_feedstocks(feedstocks) == prev);
                }
            } else {
                assert(short_feedstocks(feedstocks) == prev.push(feedstocks[j].1));
                assert(short_feedstocks(feedstocks)[prev.len() as int] == feedstocks[j].1);
            }
        }
    }
    if resources.len() > 0 {
        let d = resources.drop_last();
        lemma_short_inputs_are_named(d, feedstocks);
        assert forall|j: int|
            0 <= j < resources.len() && (#[trigger] resources[j]).1 implies short_resources(
            resources,
        ).contains(resources[j].0) by {
            let prev = short_resources(d);
            if j < d.len() {
                assert(d[j] == resources[j]);
                assert(prev.contains(d[j].0));
                let k = choose|k: int| 0 <= k < prev.len() && prev[k] == d[j].0;
                if resources.last().1 {
                    assert(short_resources(resources)[k] == prev[k]);
                } else {
                    assert(short_resources(resources) == prev);
                }
            } else {
                assert(short_resources(resources)[prev.len() as int] == resources[j].0);
            }
        }
    }
}

/// The process of `output` with the largest mix share (the last of
/// several with the same share) is process `k`.
pub open spec fn is_top_process(processes: Seq<Process>, output: Output, k: int) -> bool {
    &&& 0 <= k < processes.len()
    &&& processes[k].output == output
    &&& forall|j: int|
        0 <= j < processes.len() && (#[trigger] processes[j]).output == output ==> processes[j].mix_share
            < processes[k].mix_share || (processes[j].mix_share == processes[k].mix_share && j <= k)
}

/// The process that the overview shows for `output`: the one with the
/// largest mix share, the last of several with the same share.
pub fn top_process(processes: &Vec<Process>, output: Output) -> (k: usize)
    requires
        exists|j: int| 0 <= j < processes@.len() && (#[trigger] processes@[j]).output == output,
    ensures
        is_top_process(processes@, output, k as int),
{
    let mut best: Option<usize> = None;
    let mut i: usize = 0;
    while i < processes.len()
        invariant
            i <= processes@.len(),
            match best {
                None => forall|j: int| 0 <= j < i ==> (#[trigger] processes@[j]).output != output,
                Some(k) => k < i && processes@[k as int].output == output && forall|j: int|
                    0 <= j < i && (#[trigger] processes@[j]).output == output ==> processes@[j].mix_share
                        < processes@[k as int].mix_share || (processes@[j].mix_share
                        == processes@[k as int].mix_share && j <= k),
            },
        decreases processes@.len() - i,
    {
        if processes[i].output == output {
            match best {
                None => {
                    best = Some(i);
                },
                Some(k) => {
                    if processes[i].mix_share >= processes[k].mix_share {
                        best = Some(i);
                    }
                },
            }
        }
        i = i + 1;
    }
    match best {
        Some(k) => k,
        None => {
            proof {
                let j = choose|j: int| 0 <= j < processes@.len() && (#[trigger] processes@[j]).output == output;
                assert(processes@[j].output != output);
            }
            0
        },
    }
}

/// The phases of the event pool that the planning, report and ending
/// screens trigger.
#[derive(Debug, Clone, Copy, PartialEq, Eq, Structural)]
pub enum EventPhase {
    ReportStart,
    BreakStart,
    EndStart,
    PlanningPlan,
    PlanningAdd,
    PlanningResearch,
    PlanningPolicies,
    PlanningInitiatives,
    PlanningProcesses,
}

/// What the planning screen asks of the session.
pub enum PlanAction {
    /// Leave planning and simulate the cycle.
    EnterWorld,
    /// Another page opened; roll the events of these phases.
    PageChanged(Vec<EventPhase>),
    /// The plan changed.
    PlanChanged,
}

/// The pages of the normal planning screen.
#[derive(Debug, Clone, Copy, PartialEq, Eq, Structural)]
pub enum PageKind {
    Overview,
    Processes,
    Projects,
    All,
}

/// The event phases rolled when a page opens.
pub open spec fn page_phases_of(page: PageKind) -> Seq<EventPhase> {
    match page {
        PageKind::Overview => seq![EventPhase::PlanningPlan],
        PageKind::Projects => seq![EventPhase::PlanningAdd, EventPhase::PlanningResearch],
        PageKind::Processes => seq![EventPhase::PlanningProcesses],
        PageKind::All => seq![EventPhase::PlanningPlan],
    }
}

/// The event phases rolled when a page opens.
pub fn page_phases(page: PageKind) -> (phases: Vec<EventPhase>)
    ensures
        phases@ == page_phases_of(page),
{
    let mut phases: Vec<EventPhase> = Vec::new();
    match page {
        PageKind::Overview => phases.push(EventPhase::PlanningPlan),
        PageKind::Projects => {
            phases.push(EventPhase::PlanningAdd);
            phases.push(EventPhase::PlanningResearch);
        },
        PageKind::Processes => phases.push(EventPhase::PlanningProcesses),
        PageKind::All => phases.push(EventPhase::PlanningPlan),
    }
    assert(phases@ =~= page_phases_of(page));
    phases
}

/// What a frame of the normal planning screen reports once its page has
/// been drawn: when the frame moved to another page, that the page changed
/// with the phases of the page now open; otherwise what the page itself
/// reported.
pub fn plan_page_action(
    before: PageKind,
    after: PageKind,
    action: Option<PlanAction>,
) -> (r: Option<PlanAction>)
    ensures
        before != after ==> (r matches Some(PlanAction::PageChanged(phases)) && phases@
            == page_phases_of(after)),
        before == after ==> r == action,
{
    if before != after {
        Some(PlanAction::PageChanged(page_phases(after)))
    } else {
        action
    }
}

/// The event phase rolled when the projects page switches to a kind.
pub open spec fn kind_phase_of(kind: ProjectType) -> EventPhase {
    match kind {
        ProjectType::Policy => EventPhase::PlanningPolicies,
        ProjectType::Research => EventPhase::PlanningResearch,
        ProjectType::Initiative => EventPhase::PlanningInitiatives,
    }
}

/// The event phases rolled when the projects page switches to a kind.
pub fn kind_phases(kind: ProjectType) -> (phases: Vec<EventPhase>)
    ensures
        phases@ == seq![kind_phase_of(kind)],
{
    let mut phases: Vec<EventPhase> = Vec::new();
    let phase = match kind {
        ProjectType::Policy => EventPhase::PlanningPolicies,
        ProjectType::Research => EventPhase::PlanningResearch,
        ProjectType::Initiative => EventPhase::PlanningInitiatives,
    };
    phases.push(phase);
    assert(phases@ =~= seq![kind_phase_of(kind)]);
    phases
}

/// What one frame of the workshop planning screen does with the Ready
/// button and the cards: the first Ready click only arms a confirmation
/// when the plan needs one (nothing changed, or the whole budget unused);
/// otherwise Ready leaves planning. A card click that changed the plan
/// disarms the confirmation and reports the change.
/// The result is whether the confirmation is armed afterwards, and the
/// action: 0 none, 1 leave planning, 2 plan changed.
pub open spec fn plan_step(needs_confirmation: bool, armed: bool, ready_clicked: bool, card_changed: bool) -> (bool, int) {
    let (armed1, action1) = if ready_clicked {
        if needs_confirmation && !armed {
            (true, 0int)
        } else {
            (false, 1int)
        }
    } else {
        (armed, 0int)
    };
    if card_changed {
        (false, 2int)
    } else {
        (armed1, action1)
    }
}

/// The number by which `plan_step` names an action.
pub open spec fn action_code(a: Option<PlanAction>) -> int {
    match a {
        None => 0,
        Some(PlanAction::EnterWorld) => 1,
        Some(PlanAction::PlanChanged) => 2,
        Some(PlanAction::PageChanged(_)) => 3,
    }
}

/// One frame of the workshop planning screen: the confirmation state
/// afterwards and the action for the session.
pub fn workshop_plan_step(
    needs_confirmation: bool,
    armed: bool,
    ready_clicked: bool,
    card_changed: bool,
) -> (r: (bool, Option<PlanAction>))
    ensures
        (r.0, action_code(r.1)) == plan_step(needs_confirmation, armed, ready_clicked, card_changed),
{
    let mut armed = armed;
    let mut action: Option<PlanAction> = None;
    if ready_clicked {
        if needs_confirmation && !armed {
            armed = true;
        } else {
            armed = false;
            action = Some(PlanAction::EnterWorld);
        }
    }
    if card_changed {
        armed = false;
        action = Some(PlanAction::PlanChanged);
    }
    (armed, action)
}

/// The Ready button never leaves planning unconfirmed when the plan
/// needs a confirmation, and a second Ready click in a row always does.
pub proof fn lemma_ready_needs_two_clicks_when_confirming(needs_confirmation: bool, armed: bool)
    ensures
        needs_confirmation && !armed ==> plan_step(needs_confirmation, armed, true, false).1 != 1,
        ({
            let (armed1, _) = plan_step(needs_confirmation, armed, true, false);
            plan_step(needs_confirmation, armed1, true, false).1 == 1 || plan_step(
                needs_confirmation,
                armed,
                true,
                false,
            ).1 == 1
        }),
        !needs_confirmation ==> plan_step(needs_confirmation, armed, true, false).1 == 1,
{
}

/// Whether the projects page of the normal game lists card `i` under
/// `kind`: a card of that kind, unlocked (unless all cards are shown),
/// not finished unless it has upgrades, not active unless it was touched
/// this session or has upgrades, and not excluded by an active,
/// building or finished card that it is mutually exclusive with.
pub open spec fn project_listed(
    projects: Seq<Project>,
    kind: ProjectType,
    in_plan_changes: Seq<bool>,
    lockers: Seq<Option<usize>>,
    show_all: bool,
    i: int,
) -> bool {
    let p = projects[i];
    &&& p.kind == kind
    &&& !p.locked || show_all
    &&& p.status != Status::Finished || p.has_upgrades
    &&& p.status != Status::Active || in_plan_changes[i] || p.has_upgrades
    &&& match lockers[i] {
        Some(l) => !(projects[l as int].status == Status::Building || projects[l as int].status
            == Status::Active || projects[l as int].status == Status::Finished),
        None => true,
    }
}

/// The cards the projects page lists.
pub open spec fn listed_mask(
    projects: Seq<Project>,
    kind: ProjectType,
    in_plan_changes: Seq<bool>,
    lockers: Seq<Option<usize>>,
    show_all: bool,
) -> Seq<bool> {
    Seq::new(
        projects.len(),
        |i: int| project_listed(projects, kind, in_plan_changes, lockers, show_all, i),
    )
}

/// The cards that the projects page of the normal game lists under
/// `kind`, ordered by lowercase name (ties in deck order).
/// `in_plan_changes[i]` tells whether card `i` was touched this session;
/// `lockers[i]` names the card that card `i` is mutually exclusive with.
pub fn get_projects(
    state: &SessionState,
    kind: ProjectType,
    in_plan_changes: &Vec<bool>,
    lockers: &Vec<Option<usize>>,
    show_all: bool,
) -> (ids: Vec<usize>)
    requires
        in_plan_changes@.len() == state.projects@.len(),
        lockers@.len() == state.projects@.len(),
        forall|i: int|
            0 <= i < lockers@.len() ==> (#[trigger] lockers@[i] matches Some(l) ==> l
                < state.projects@.len()),
    ensures
        name_ordered(
            names_of(state.projects@),
            listed_mask(state.projects@, kind, in_plan_changes@, lockers@, show_all),
            ids@,
        ),
{
    let n = state.projects.len();
    let mut mask: Vec<bool> = Vec::new();
    let mut i: usize = 0;
    while i < n
        invariant
            n == state.projects@.len(),
            in_plan_changes@.len() == n,
            lockers@.len() == n,
            forall|k: int|
                0 <= k < lockers@.len() ==> (#[trigger] lockers@[k] matches Some(l) ==> l < n),
            i <= n,
            mask@.len() == i,
            forall|k: int|
                0 <= k < i ==> #[trigger] mask@[k] == project_listed(
                    state.projects@,
                    kind,
                    in_plan_changes@,
                    lockers@,
                    show_all,
                    k,
                ),
        decreases n - i,
    {
        let p = &state.projects[i];
        let unlocked_ok = !p.locked || show_all;
        let finished_ok = p.status != Status::Finished || p.has_upgrades;
        let active_ok = p.status != Status::Active || in_plan_changes[i] || p.has_upgrades;
        let locker_ok = match lockers[i] {
            Some(l) => {
                let status = state.projects[l].status;
                !(status == Status::Building || status == Status::Active || status
                    == Status::Finished)
            },
            None => true,
        };
        mask.push(p.kind == kind && unlocked_ok && finished_ok && active_ok && locker_ok);
        i = i + 1;
    }
    assert(mask@ =~= listed_mask(state.projects@, kind, in_plan_changes@, lockers@, show_all));
    let names = project_names(&state.projects);
    indices_in_name_order(&names, &mask)
}

/// Whether the process page lists process `p` under `output`: a process
/// of that sector, unlocked unless all processes are shown.
pub open spec fn process_listed(p: Process, output: Output, show_all: bool) -> bool {
    p.output == output && (!p.locked || show_all)
}

/// The names of a list of processes.
pub open spec fn process_names_of(processes: Seq<Process>) -> Seq<String> {
    processes.map_values(|p: Process| p.name)
}

/// The processes that the process page lists under `output`, ordered by
/// lowercase name (ties in world order), as indices into `processes`.
pub fn get_processes(processes: &Vec<Process>, output: Output, show_all: bool) -> (ids: Vec<usize>)
    ensures
        name_ordered(
            process_names_of(processes@),
            Seq::new(processes@.len(), |i: int| process_listed(processes@[i], output, show_all)),
            ids@,
        ),
{
    let n = processes.len();
    let mut mask: Vec<bool> = Vec::new();
    let mut names: Vec<String> = Vec::new();
    let mut i: usize = 0;
    while i < n
        invariant
            n == processes@.len(),
            i <= n,
            mask@.len() == i,
            forall|k: int|
                0 <= k < i ==> #[trigger] mask@[k] == process_listed(processes@[k], output, show_all),
            names@ == process_names_of(processes@).take(i as int),
        decreases n - i,
    {
        let p = &processes[i];
        mask.push(p.output == output && (!p.locked || show_all));
        names.push(p.name.clone());
        proof {
            assert(process_names_of(processes@).take(i + 1) =~= process_names_of(processes@).take(
                i as int,
            ).push(processes@[i as int].name));
        }
        i = i + 1;
    }
    assert(process_names_of(processes@).take(n as int) =~= process_names_of(processes@));
    assert(mask@ =~= Seq::new(n as nat, |k: int| process_listed(processes@[k], output, show_all)));
    indices_in_name_order(&names, &mask)
}

/// What the process page asks of the planning screen.
#[derive(Debug, Clone, Copy, PartialEq, Eq, Structural)]
pub enum ProcessesAction {
    /// The production mix changed.
    Changed,
    /// Go back to the overview.
    Back,
}

/// One frame of the process page. `points` are the production points
/// left unassigned at the start of the frame, `process_points` what is
/// left after the cards were drawn. Leaving (Back, or another sector's
/// tab) is allowed only while no point is left unassigned; a Back click
/// is ignored otherwise. A card change reports that the mix changed once
/// every point is assigned again and changes are pending, and then takes
/// precedence over Back.
/// The result: whether leaving was allowed, the points left afterwards
/// (never negative), and the action.
pub fn processes_step(
    points: usize,
    back_clicked: bool,
    process_points: isize,
    changed: bool,
    has_changes: bool,
) -> (r: (bool, usize, Option<ProcessesAction>))
    ensures
        r.0 == (points == 0),
        r.1 == if process_points < 0 {
            0
        } else {
            process_points as int
        },
        r.2 == if changed && has_changes && r.1 == 0 {
            Some(ProcessesAction::Changed)
        } else if back_clicked && points == 0 {
            Some(ProcessesAction::Back)
        } else {
            None
        },
{
    let allow_back = points == 0;
    let mut action: Option<ProcessesAction> = None;
    if back_clicked && allow_back {
        action = Some(ProcessesAction::Back);
    }
    let left: usize = if process_points < 0 {
        0
    } else {
        process_points as usize
    };
    if changed && has_changes && left == 0 {
        action = Some(ProcessesAction::Changed);
    }
    (allow_back, left, action)
}

/// What the process page lists under a sector: only processes of that
/// sector, and locked ones only when all processes are shown; every
/// unlocked process of the sector is listed, and so is every locked one
/// when all are shown.
pub proof fn lemma_process_page_listing(
    processes: Seq<Process>,
    output: Output,
    show_all: bool,
    ids: Seq<usize>,
)
    requires
        name_ordered(
            process_names_of(processes),
            Seq::new(processes.len(), |i: int| process_listed(processes[i], output, show_all)),
            ids,
        ),
    ensures
        forall|x: usize|
            #[trigger] ids.contains(x) ==> x < processes.len() && processes[x as int].output == output
                && (!processes[x as int].locked || show_all),
        forall|x: usize|
            x < processes.len() && (#[trigger] processes[x as int]).output == output && (
            !processes[x as int].locked || show_all) ==> ids.contains(x),
{
    let mask = Seq::new(processes.len(), |i: int| process_listed(processes[i], output, show_all));
    assert(process_names_of(processes).len() == processes.len());
    assert forall|x: usize| #[trigger] ids.contains(x) implies x < processes.len()
        && processes[x as int].output == output && (!processes[x as int].locked || show_all) by {
        assert(mask[x as int]);
    }
    assert forall|x: usize|
        x < processes.len() && (#[trigger] processes[x as int]).output == output && (
        !processes[x as int].locked || show_all) implies ids.contains(x) by {
        assert(mask[x as int]);
    }
}

/// The notice under the process page while mix changes are pending.
pub open spec fn change_notice_text(cycles: nat) -> Seq<char> {
    "These changes will take "@ + decimal_text(cycles) + " planning cycle"@ + (if cycles > 1 {
        "s"@
    } else {
        ""@
    }) + " to take effect."@
}

/// The notice under the process page while mix changes are pending:
/// `These changes will take <n> planning cycle(s) to take effect.`, with
/// the plural for more than one cycle.
pub fn process_change_notice(cycles: usize) -> (s: String)
    ensures
        s@ == change_notice_text(cycles as nat),
{
    let mut s = String::from_str("These changes will take ");
    push_decimal(&mut s, cycles as u64);
    s.append(" planning cycle");
    let ghost head = s@;
    if cycles > 1 {
        s.append("s");
        s.append(" to take effect.");
        assert(s@ =~= head + "s"@ + " to take effect."@);
    } else {
        s.append(" to take effect.");
        proof {
            reveal_strlit("");
        }
        assert(s@ =~= head + ""@ + " to take effect."@);
    }
    s
}

/// What the projects page lists: only cards of the requested kind,
/// unlocked unless all cards are shown, never a finished card without
/// upgrades, never an active card that was not touched this session and
/// has no upgrades, and never a card whose mutually exclusive card is
/// building, active or finished. Every unlocked, inactive card of the kind
/// with no mutually exclusive card is listed.
pub proof fn lemma_projects_page_listing(
    projects: Seq<Project>,
    kind: ProjectType,
    in_plan_changes: Seq<bool>,
    lockers: Seq<Option<usize>>,
    show_all: bool,
    ids: Seq<usize>,
)
    requires
        in_plan_changes.len() == projects.len(),
        lockers.len() == projects.len(),
        forall|i: int| 0 <= i < lockers.len() ==> (#[trigger] lockers[i] matches Some(l) ==> l < projects.len()),
        name_ordered(
            names_of(projects),
            listed_mask(projects, kind, in_plan_changes, lockers, show_all),
            ids,
        ),
    ensures
        forall|x: usize|
            #[trigger] ids.contains(x) ==> {
                &&& x < projects.len()
                &&& projects[x as int].kind == kind
                &&& !projects[x as int].locked || show_all
                &&& !(projects[x as int].status == Status::Finished && !projects[x as int].has_upgrades)
                &&& !(projects[x as int].status == Status::Active && !in_plan_changes[x as int]
                    && !projects[x as int].has_upgrades)
                &&& (lockers[x as int] matches Some(l) ==> !(projects[l as int].status
                    == Status::Building || projects[l as int].status == Status::Active
                    || projects[l as int].status == Status::Finished))
            },
        forall|x: usize|
            x < projects.len() && (#[trigger] projects[x as int]).kind == kind && !projects[x as int].locked
                && projects[x as int].status == Status::Inactive && lockers[x as int] is None
                ==> ids.contains(x),
{
    assert forall|x: usize| #[trigger] ids.contains(x) implies {
        &&& x < projects.len()
        &&& projects[x as int].kind == kind
        &&& !projects[x as int].locked || show_all
        &&& !(projects[x as int].status == Status::Finished && !projects[x as int].has_upgrades)
        &&& !(projects[x as int].status == Status::Active && !in_plan_changes[x as int]
            && !projects[x as int].has_upgrades)
        &&& (lockers[x as int] matches Some(l) ==> !(projects[l as int].status == Status::Building
            || projects[l as int].status == Status::Active || projects[l as int].status
            == Status::Finished))
    } by {
        assert(listed_mask(projects, kind, in_plan_changes, lockers, show_all)[x as int]);
    }
    assert forall|x: usize|
        x < projects.len() && (#[trigger] projects[x as int]).kind == kind && !projects[x as int].locked
            && projects[x as int].status == Status::Inactive && lockers[x as int] is None implies ids.contains(
        x,
    ) by {
        assert(listed_mask(projects, kind, in_plan_changes, lockers, show_all)[x as int]);
        assert(names_of(projects).len() == projects.len());
    }
}

/// The slots of the plan preview: as many of the active cards as fit
/// (one slot is kept for "View All" when they do not all fit), then empty
/// slots, split into a top and a bottom row at half the slot count; and
/// whether "View All" is shown.
pub open spec fn preview_layout(active: Seq<usize>, slots: int) -> (Seq<Option<usize>>, Seq<Option<usize>>, bool) {
    let n_active = active.len() as int;
    let n_projects = if n_active > slots {
        slots - 1
    } else {
        n_active
    };
    let placeholders = if slots - n_active > 0 {
        slots - n_active
    } else {
        0
    };
    let items = Seq::new(n_projects as nat, |i: int| Some(active[i])) + Seq::new(
        placeholders as nat,
        |i: int| None::<usize>,
    );
    let split_at = slots / 2;
    (items.take(split_at), items.skip(split_at), n_active > slots)
}

/// Lay out the plan preview of the normal game from the active cards and
/// the number of slots that fit on screen.
pub fn plan_preview_layout(active: &Vec<usize>, slots: usize) -> (r: (Vec<Option<usize>>, Vec<Option<usize>>, bool))
    requires
        active@.len() > slots ==> slots >= 1,
    ensures
        (r.0@, r.1@, r.2) == preview_layout(active@, slots as int),
{
    let n_active = active.len();
    let n_projects = if n_active > slots {
        slots - 1
    } else {
        n_active
    };
    let placeholders = if slots > n_active {
        slots - n_active
    } else {
        0
    };
    let split_at = slots / 2;
    let ghost items = preview_layout(active@, slots as int);
    let ghost all = Seq::new(n_projects as nat, |i: int| Some(active@[i])) + Seq::new(
        placeholders as nat,
        |i: int| None::<usize>,
    );
    let mut top: Vec<Option<usize>> = Vec::new();
    let mut bottom: Vec<Option<usize>> = Vec::new();
    let total = n_projects + placeholders;
    let mut i: usize = 0;
    while i < total
        invariant
            total == n_projects + placeholders,
            all.len() == total,
            n_projects <= active@.len(),
            all == Seq::new(n_projects as nat, |i: int| Some(active@[i])) + Seq::new(
                placeholders as nat,
                |i: int| None::<usize>,
            ),
            i <= total,
            top@ == all.take(if i < split_at { i as int } else { split_at as int }),
            i <= split_at ==> bottom@.len() == 0,
            i > split_at ==> bottom@ == all.subrange(split_at as int, i as int),
        decreases total - i,
    {
        let item = if i < n_projects {
            Some(active[i])
        } else {
            None
        };
        assert(item == all[i as int]);
        if i < split_at {
            top.push(item);
            assert(all.take(i + 1) =~= all.take(i as int).push(all[i as int]));
        } else {
            bottom.push(item);
            if i == split_at {
                assert(bottom@ =~= all.subrange(split_at as int, i + 1));
            } else {
                assert(bottom@ =~= all.subrange(split_at as int, i + 1));
            }
        }
        i = i + 1;
    }
    proof {
        if total <= split_at {
            assert(top@ =~= all.take(split_at as int));
            assert(bottom@ =~= all.skip(split_at as int));
        } else {
            assert(bottom@ =~= all.skip(split_at as int));
        }
    }
    (top, bottom, n_active > slots)
}

} // verus!

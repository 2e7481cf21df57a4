//! The cycle report: the choices made during a planning cycle, the
//! policy history that the final debrief reads, and the political
//! capital awarded at the end of a cycle of the normal game.
use vstd::prelude::*;
use crate::deck::{PlanChange, Project, SessionState};
use crate::plan::changed_card_names;
use crate::text::{decimal_text, join, join_text, push_decimal, texts};

verus! {

/// Years after a cycle's start during which the post-revolution bonus
/// is awarded.
pub const HONEYMOON_YEARS: usize = 10;

/// The post-revolution bonus, in political capital.
pub const HONEYMOON_PC: isize = 15;

/// Political capital awarded for each project completed during a cycle.
pub const PC_PER_COMPLETED_PROJECT: usize = 5;

/// What happened to a card during a cycle.
#[derive(Debug, Clone, Copy, PartialEq, Eq, Structural)]
pub enum WorkshopPolicyAction {
    Passed,
    Repealed,
}

/// One card passed or repealed during a cycle.
#[derive(Debug, Clone, PartialEq, Eq)]
pub struct WorkshopPolicyChoice {
    pub name: String,
    pub action: WorkshopPolicyAction,
}

/// One planning cycle of the workshop: its number, its years and the
/// choices made in it.
#[derive(Debug, Clone, PartialEq, Eq)]
pub struct WorkshopCycleRecord {
    pub cycle: usize,
    pub start_year: usize,
    pub end_year: usize,
    pub choices: Vec<WorkshopPolicyChoice>,
}

/// Whether a card was passed or repealed this cycle.
pub open spec fn is_changed(c: PlanChange) -> bool {
    c.passed || c.withdrawn
}

/// How a card changed this cycle is recorded: passed if it was passed,
/// repealed otherwise.
pub open spec fn choice_of(p: Project, c: PlanChange) -> WorkshopPolicyChoice {
    WorkshopPolicyChoice {
        name: p.name,
        action: if c.passed {
            WorkshopPolicyAction::Passed
        } else {
            WorkshopPolicyAction::Repealed
        },
    }
}

/// The order of the plan's entries: by card identifier, ties in deck
/// order.
pub open spec fn key_le(projects: Seq<Project>, i: int, j: int) -> bool {
    projects[i].id < projects[j].id || (projects[i].id == projects[j].id && i <= j)
}

/// `order` lists the cards changed this cycle, each once, in the order of
/// the plan's entries.
pub open spec fn key_ordered(projects: Seq<Project>, changes: Seq<PlanChange>, order: Seq<usize>) -> bool {
    &&& forall|a: int, b: int|
        0 <= a < b < order.len() ==> #[trigger] order[a] != #[trigger] order[b] && key_le(
            projects,
            order[a] as int,
            order[b] as int,
        )
    &&& forall|x: usize| #[trigger] order.contains(x) <==> (x < changes.len() && is_changed(changes[x as int]))
}

/// The choices recorded for the cards listed in `order`.
pub open spec fn choices_in_order(
    projects: Seq<Project>,
    changes: Seq<PlanChange>,
    order: Seq<usize>,
) -> Seq<WorkshopPolicyChoice> {
    order.map_values(|k: usize| choice_of(projects[k as int], changes[k as int]))
}

/// The cards passed or repealed this cycle, in the order of the plan's
/// entries: by card identifier, ties in deck order.
pub fn changed_cards_in_key_order(projects: &Vec<Project>, changes: &Vec<PlanChange>) -> (order: Vec<usize>)
    requires
        changes@.len() == projects@.len(),
    ensures
        key_ordered(projects@, changes@, order@),
{
    let n = changes.len();
    let mut order: Vec<usize> = Vec::new();
    let mut i: usize = 0;
    while i < n
        invariant
            n == changes@.len(),
            n == projects@.len(),
            i <= n,
            forall|a: int, b: int|
                0 <= a < b < order@.len() ==> #[trigger] order@[a] != #[trigger] order@[b]
                    && key_le(projects@, order@[a] as int, order@[b] as int),
            forall|k: int| 0 <= k < order@.len() ==> #[trigger] order@[k] < i,
            forall|x: usize|
                #[trigger] order@.contains(x) <==> (x < i && is_changed(changes@[x as int])),
        decreases n - i,
    {
        if changes[i].passed || changes[i].withdrawn {
            let id = projects[i].id;
            let mut p: usize = 0;
            while p < order.len() && projects[order[p]].id <= id
                invariant
                    n == projects@.len(),
                    p <= order@.len(),
                    forall|k: int| 0 <= k < order@.len() ==> #[trigger] order@[k] < i,
                    i < n,
                    id == projects@[i as int].id,
                    forall|k: int| 0 <= k < p ==> projects@[(#[trigger] order@[k]) as int].id <= id,
                decreases order@.len() - p,
            {
                p = p + 1;
            }
            proof {
                assert forall|k: int| p <= k < order@.len() implies projects@[(
                #[trigger] order@[k]) as int].id > id by {
                    if k > p {
                        assert(key_le(projects@, order@[p as int] as int, order@[k] as int));
                    }
                }
            }
            let ghost old_order = order@;
            order.insert(p, i);
            proof {
                assert(order@ == old_order.insert(p as int, i));
                assert forall|a: int, b: int| 0 <= a < b < order@.len() implies #[trigger] order@[a]
                    != #[trigger] order@[b] && key_le(
                    projects@,
                    order@[a] as int,
                    order@[b] as int,
                ) by {
                    if b < p {
                        assert(order@[a] == old_order[a] && order@[b] == old_order[b]);
                    } else if b == p {
                        assert(order@[a] == old_order[a]);
                    } else if a < p {
                        assert(order@[a] == old_order[a] && order@[b] == old_order[b - 1]);
                    } else if a == p {
                        assert(order@[b] == old_order[b - 1]);
                    } else {
                        assert(order@[a] == old_order[a - 1] && order@[b] == old_order[b - 1]);
                    }
                }
                assert forall|x: usize| #[trigger] order@.contains(x) <==> (x < i + 1 && is_changed(
                    changes@[x as int],
                )) by {
                    if order@.contains(x) {
                        let k = choose|k: int| 0 <= k < order@.len() && order@[k] == x;
                        if k < p {
                            assert(old_order[k] == x);
                            assert(old_order.contains(x));
                        } else if k > p {
                            assert(old_order[k - 1] == x);
                            assert(old_order.contains(x));
                        } else {
                            assert(x == i);
                            assert(is_changed(changes@[i as int]));
                        }
                    }
                    if x < i + 1 && is_changed(changes@[x as int]) {
                        if x == i {
                            assert(order@[p as int] == x);
                        } else {
                            assert(old_order.contains(x));
                            let k = choose|k: int| 0 <= k < old_order.len() && old_order[k] == x;
                            if k < p {
                                assert(order@[k] == x);
                            } else {
                                assert(order@[k + 1] == x);
                            }
                        }
                    }
                }
                assert forall|k: int| 0 <= k < order@.len() implies #[trigger] order@[k] < i + 1 by {
                    if k < p {
                        assert(order@[k] == old_order[k]);
                    } else if k > p {
                        assert(order@[k] == old_order[k - 1]);
                    }
                }
            }
        }
        i = i + 1;
    }
    order
}

fn copy_choice(c: &WorkshopPolicyChoice) -> (r: WorkshopPolicyChoice)
    ensures
        r == *c,
{
    WorkshopPolicyChoice { name: c.name.clone(), action: c.action }
}

fn copy_choices(v: &Vec<WorkshopPolicyChoice>) -> (r: Vec<WorkshopPolicyChoice>)
    ensures
        r@ == v@,
{
    let mut r: Vec<WorkshopPolicyChoice> = Vec::new();
    let mut i: usize = 0;
    while i < v.len()
        invariant
            i <= v@.len(),
            r@ == v@.take(i as int),
        decreases v@.len() - i,
    {
        let c = copy_choice(&v[i]);
        r.push(c);
        proof {
            assert(v@.take(i + 1) =~= v@.take(i as int).push(v@[i as int]));
        }
        i = i + 1;
    }
    assert(v@.take(v@.len() as int) =~= v@);
    r
}

/// A copy of a cycle record.
pub fn copy_record(r: &WorkshopCycleRecord) -> (c: WorkshopCycleRecord)
    ensures
        c.cycle == r.cycle,
        c.start_year == r.start_year,
        c.end_year == r.end_year,
        c.choices@ == r.choices@,
{
    WorkshopCycleRecord {
        cycle: r.cycle,
        start_year: r.start_year,
        end_year: r.end_year,
        choices: copy_choices(&r.choices),
    }
}

/// Record a finished cycle in the history: it is numbered after the
/// cycles already recorded. Returns the new record.
pub fn record_workshop_cycle(
    history: &mut Vec<WorkshopCycleRecord>,
    start_year: usize,
    end_year: usize,
    choices: Vec<WorkshopPolicyChoice>,
) -> (record: WorkshopCycleRecord)
    requires
        old(history)@.len() < usize::MAX,
    ensures
        record.cycle == old(history)@.len() + 1,
        record.start_year == start_year,
        record.end_year == end_year,
        record.choices@ == choices@,
        final(history)@.len() == old(history)@.len() + 1,
        forall|i: int| 0 <= i < old(history)@.len() ==> #[trigger] final(history)@[i] == old(history)@[i],
        final(history)@.last().cycle == record.cycle,
        final(history)@.last().start_year == start_year,
        final(history)@.last().end_year == end_year,
        final(history)@.last().choices@ == choices@,
{
    let record = WorkshopCycleRecord {
        cycle: history.len() + 1,
        start_year,
        end_year,
        choices,
    };
    let copy = copy_record(&record);
    history.push(record);
    copy
}

/// Collect the choices made this cycle, in the order of the plan's
/// entries (by card identifier), record the cycle in the history, and
/// return the record the cycle report is built around.
pub fn build_workshop_report_data(
    state: &SessionState,
    plan_changes: &Vec<PlanChange>,
    history: &mut Vec<WorkshopCycleRecord>,
    start_year: usize,
    end_year: usize,
) -> (record: WorkshopCycleRecord)
    requires
        plan_changes@.len() == state.projects@.len(),
        old(history)@.len() < usize::MAX,
    ensures
        record.cycle == old(history)@.len() + 1,
        record.start_year == start_year,
        record.end_year == end_year,
        exists|order: Seq<usize>|
            #[trigger] key_ordered(state.projects@, plan_changes@, order) && record.choices@
                == choices_in_order(state.projects@, plan_changes@, order),
        final(history)@.len() == old(history)@.len() + 1,
        forall|i: int| 0 <= i < old(history)@.len() ==> #[trigger] final(history)@[i] == old(history)@[i],
        final(history)@.last().cycle == record.cycle,
        final(history)@.last().start_year == start_year,
        final(history)@.last().end_year == end_year,
        final(history)@.last().choices@ == record.choices@,
{
    let order = changed_cards_in_key_order(&state.projects, plan_changes);
    let mut choices: Vec<WorkshopPolicyChoice> = Vec::new();
    let n = order.len();
    let mut i: usize = 0;
    while i < n
        invariant
            n == order@.len(),
            plan_changes@.len() == state.projects@.len(),
            key_ordered(state.projects@, plan_changes@, order@),
            i <= n,
            choices@ == choices_in_order(state.projects@, plan_changes@, order@.take(i as int)),
        decreases n - i,
    {
        let k = order[i];
        assert(order@.contains(k));
        let action = if plan_changes[k].passed {
            WorkshopPolicyAction::Passed
        } else {
            WorkshopPolicyAction::Repealed
        };
        choices.push(WorkshopPolicyChoice { name: state.projects[k].name.clone(), action });
        proof {
            assert(order@.take(i + 1) =~= order@.take(i as int).push(k));
            assert(choices_in_order(state.projects@, plan_changes@, order@.take(i + 1))
                =~= choices_in_order(state.projects@, plan_changes@, order@.take(i as int)).push(
                choice_of(state.projects@[k as int], plan_changes@[k as int]),
            ));
        }
        i = i + 1;
    }
    assert(order@.take(n as int) =~= order@);
    record_workshop_cycle(history, start_year, end_year, choices)
}

/// The label of one choice: `Passed: <card>` or `Repealed: <card>`.
pub open spec fn choice_text(c: WorkshopPolicyChoice) -> Seq<char> {
    match c.action {
        WorkshopPolicyAction::Passed => "Passed: "@ + c.name@,
        WorkshopPolicyAction::Repealed => "Repealed: "@ + c.name@,
    }
}

/// Label one choice.
pub fn choice_label(c: &WorkshopPolicyChoice) -> (s: String)
    ensures
        s@ == choice_text(*c),
{
    let mut s = match c.action {
        WorkshopPolicyAction::Passed => String::from_str("Passed: "),
        WorkshopPolicyAction::Repealed => String::from_str("Repealed: "),
    };
    s.append(c.name.as_str());
    s
}

/// The labels of a cycle's choices.
pub open spec fn choice_texts(choices: Seq<WorkshopPolicyChoice>) -> Seq<Seq<char>> {
    choices.map_values(|c: WorkshopPolicyChoice| choice_text(c))
}

/// The line of the final debrief that tells one cycle's choices.
pub open spec fn history_line_text(
    cycle: nat,
    start_year: nat,
    end_year: nat,
    choices: Seq<WorkshopPolicyChoice>,
) -> Seq<char> {
    "Cycle "@ + decimal_text(cycle) + " ("@ + decimal_text(start_year) + "–"@ + decimal_text(
        end_year,
    ) + "): "@ + if choices.len() == 0 {
        "No policy changes"@
    } else {
        join_text(choice_texts(choices), " · "@)
    }
}

/// Tell one cycle of the policy history, as the final debrief lists it.
pub fn workshop_history_line(record: &WorkshopCycleRecord) -> (s: String)
    ensures
        s@ == history_line_text(
            record.cycle as nat,
            record.start_year as nat,
            record.end_year as nat,
            record.choices@,
        ),
{
    let mut s = String::from_str("Cycle ");
    push_decimal(&mut s, record.cycle as u64);
    s.append(" (");
    push_decimal(&mut s, record.start_year as u64);
    s.append("–");
    push_decimal(&mut s, record.end_year as u64);
    s.append("): ");
    let n = record.choices.len();
    if n == 0 {
        s.append("No policy changes");
    } else {
        let ghost all = choice_texts(record.choices@);
        let ghost prefix = s@;
        let mut i: usize = 0;
        while i < n
            invariant
                n == record.choices@.len(),
                all == choice_texts(record.choices@),
                i <= n,
                s@ == prefix + join_text(all.take(i as int), " · "@),
            decreases n - i,
        {
            proof {
                assert(all.take(i + 1).drop_last() =~= all.take(i as int));
                assert(all.take(i + 1).last() == choice_text(record.choices@[i as int]));
            }
            if i != 0 {
                s.append(" · ");
            } else {
                assert(all.take(0) =~= Seq::<Seq<char>>::empty());
            }
            let label = choice_label(&record.choices[i]);
            s.append(label.as_str());
            proof {
                assert(s@ =~= prefix + join_text(all.take(i + 1), " · "@));
            }
            i = i + 1;
        }
        assert(all.take(n as int) =~= all);
    }
    s
}

/// The post-revolution bonus awarded in a report: the bonus while the
/// report's year is within the honeymoon years of the cycle's start,
/// nothing afterwards.
pub fn honeymoon_pc(year: usize, cycle_start_year: usize) -> (pc: isize)
    ensures
        pc == if year < cycle_start_year + HONEYMOON_YEARS {
            HONEYMOON_PC
        } else {
            0
        },
{
    if year < cycle_start_year || year - cycle_start_year < HONEYMOON_YEARS {
        HONEYMOON_PC
    } else {
        0
    }
}

/// The post-revolution bonus a cycle report shows: none in workshop
/// mode, where political capital is a flat budget; otherwise the bonus
/// while the report's year is within the honeymoon years of the cycle's
/// start.
pub fn report_honeymoon_pc(workshop_active: bool, year: usize, cycle_start_year: usize) -> (pc: isize)
    ensures
        pc == if workshop_active {
            0
        } else if year < cycle_start_year + HONEYMOON_YEARS {
            HONEYMOON_PC
        } else {
            0
        },
{
    if workshop_active {
        0
    } else {
        honeymoon_pc(year, cycle_start_year)
    }
}

/// The sum of a list of political-capital changes.
pub open spec fn pc_sum(s: Seq<isize>) -> int
    decreases s.len(),
{
    if s.len() == 0 {
        0
    } else {
        pc_sum(s.drop_last()) + s.last()
    }
}

/// Every running total of the list fits in an `isize`.
pub open spec fn running_sums_fit(s: Seq<isize>) -> bool {
    forall|k: int| 0 <= k <= s.len() ==> isize::MIN <= #[trigger] pc_sum(s.take(k)) <= isize::MAX
}

fn sum_pc(s: &[isize]) -> (total: isize)
    requires
        running_sums_fit(s@),
    ensures
        total == pc_sum(s@),
{
    let mut total: isize = 0;
    let mut i: usize = 0;
    assert(s@.take(0) =~= Seq::<isize>::empty());
    while i < s.len()
        invariant
            i <= s@.len(),
            running_sums_fit(s@),
            total == pc_sum(s@.take(i as int)),
        decreases s@.len() - i,
    {
        assert(s@.take(i + 1).drop_last() =~= s@.take(i as int));
        assert(isize::MIN <= pc_sum(s@.take(i + 1)) <= isize::MAX);
        total = total + s[i];
        i = i + 1;
    }
    assert(s@.take(s@.len() as int) =~= s@);
    total
}

/// The political capital a cycle report awards: nothing in workshop
/// mode, where political capital is a flat budget; otherwise the awards
/// of the metric rows, the bounties of completed requests, a fixed award
/// per completed project, and the post-revolution bonus.
pub open spec fn report_pc_total(
    workshop_active: bool,
    row_changes: Seq<isize>,
    bounties: Seq<isize>,
    completed_projects: nat,
    honeymoon: int,
) -> int {
    if workshop_active {
        0
    } else {
        pc_sum(row_changes) + pc_sum(bounties) + completed_projects * PC_PER_COMPLETED_PROJECT
            + honeymoon
    }
}

/// The political capital awarded by a cycle report.
pub fn report_pc_change(
    workshop_active: bool,
    row_changes: &[isize],
    bounties: &[isize],
    completed_projects: usize,
    honeymoon: isize,
) -> (pc: isize)
    requires
        !workshop_active ==> {
            &&& running_sums_fit(row_changes@)
            &&& running_sums_fit(bounties@)
            &&& completed_projects * PC_PER_COMPLETED_PROJECT <= isize::MAX
            &&& isize::MIN <= pc_sum(row_changes@) + pc_sum(bounties@) <= isize::MAX
            &&& isize::MIN <= pc_sum(row_changes@) + pc_sum(bounties@) + completed_projects
                * PC_PER_COMPLETED_PROJECT <= isize::MAX
            &&& isize::MIN <= pc_sum(row_changes@) + pc_sum(bounties@) + completed_projects
                * PC_PER_COMPLETED_PROJECT + honeymoon <= isize::MAX
        },
    ensures
        pc == report_pc_total(
            workshop_active,
            row_changes@,
            bounties@,
            completed_projects as nat,
            honeymoon as int,
        ),
{
    if workshop_active {
        0
    } else {
        let rows = sum_pc(row_changes);
        let requests = sum_pc(bounties);
        let completed = (completed_projects * PC_PER_COMPLETED_PROJECT) as isize;
        rows + requests + completed + honeymoon
    }
}

/// The projects completed during the cycle, as the report lists them:
/// the name of each project whose index is in `completed`, in that order.
pub fn completed_project_names(projects: &Vec<Project>, completed: &Vec<usize>) -> (names: Vec<String>)
    requires
        forall|k: int| 0 <= k < completed@.len() ==> #[trigger] completed@[k] < projects@.len(),
    ensures
        names@.len() == completed@.len(),
        forall|k: int|
            0 <= k < completed@.len() ==> #[trigger] names@[k] == projects@[completed@[k] as int].name,
{
    let mut names: Vec<String> = Vec::new();
    let mut i: usize = 0;
    while i < completed.len()
        invariant
            i <= completed@.len(),
            forall|k: int| 0 <= k < completed@.len() ==> #[trigger] completed@[k] < projects@.len(),
            names@.len() == i,
            forall|k: int| 0 <= k < i ==> #[trigger] names@[k] == projects@[completed@[k] as int].name,
        decreases completed@.len() - i,
    {
        let name = projects[completed[i]].name.clone();
        names.push(name);
        i = i + 1;
    }
    names
}

/// What an NPC asked for: a project or a process.
#[derive(Debug, Clone, Copy, PartialEq, Eq, Structural)]
pub enum NPCRequest {
    Project,
    Process,
}

/// The line that reports a fulfilled request: implementing or stopping a
/// project, unbanning or banning a process.
pub open spec fn request_text(kind: NPCRequest, active: bool, name: Seq<char>) -> Seq<char> {
    match kind {
        NPCRequest::Project => if active {
            "Completed Request: Implement "@ + name
        } else {
            "Completed Request: Stop "@ + name
        },
        NPCRequest::Process => if active {
            "Completed Request: Unban "@ + name
        } else {
            "Completed Request: Ban "@ + name
        },
    }
}

/// Report one fulfilled request.
pub fn request_label(kind: NPCRequest, active: bool, name: &str) -> (s: String)
    ensures
        s@ == request_text(kind, active, name@),
{
    let mut s = match kind {
        NPCRequest::Project => if active {
            String::from_str("Completed Request: Implement ")
        } else {
            String::from_str("Completed Request: Stop ")
        },
        NPCRequest::Process => if active {
            String::from_str("Completed Request: Unban ")
        } else {
            String::from_str("Completed Request: Ban ")
        },
    };
    s.append(name);
    s
}

/// A region's income level.
#[derive(Debug, Clone, Copy, PartialEq, Eq, Structural)]
pub enum Income {
    Low,
    LowerMiddle,
    UpperMiddle,
    High,
}

/// The income level as a lowercase word.
pub open spec fn income_text(i: Income) -> Seq<char> {
    match i {
        Income::Low => "low"@,
        Income::LowerMiddle => "lower-middle"@,
        Income::UpperMiddle => "upper-middle"@,
        Income::High => "high"@,
    }
}

/// The income level as a lowercase word.
pub fn income_lower(i: Income) -> (s: &'static str)
    ensures
        s@ == income_text(i),
{
    match i {
        Income::Low => "low",
        Income::LowerMiddle => "lower-middle",
        Income::UpperMiddle => "upper-middle",
        Income::High => "high",
    }
}

/// The first `n` regions whose income changed during the cycle, with
/// their new income, in region order.
pub open spec fn changed_regions(
    regions: Seq<(String, Income)>,
    start_incomes: Seq<Income>,
    n: int,
) -> Seq<(String, Income)>
    decreases n,
{
    if n <= 0 {
        Seq::empty()
    } else {
        let rest = changed_regions(regions, start_incomes, n - 1);
        if regions[n - 1].1 != start_incomes[n - 1] {
            rest.push(regions[n - 1])
        } else {
            rest
        }
    }
}

fn copy_region(r: &(String, Income)) -> (c: (String, Income))
    ensures
        c == *r,
{
    (r.0.clone(), r.1)
}

/// The regions whose income changed during the cycle (each region
/// compared with its income at the cycle's start), with their new income.
pub fn region_rows(regions: &[(String, Income)], start_incomes: &[Income]) -> (rows: Vec<(String, Income)>)
    ensures
        ({
            let n = if regions@.len() <= start_incomes@.len() {
                regions@.len()
            } else {
                start_incomes@.len()
            };
            rows@ == changed_regions(regions@, start_incomes@, n as int)
        }),
{
    let n = if regions.len() <= start_incomes.len() {
        regions.len()
    } else {
        start_incomes.len()
    };
    let mut rows: Vec<(String, Income)> = Vec::new();
    let mut i: usize = 0;
    while i < n
        invariant
            n <= regions@.len(),
            n <= start_incomes@.len(),
            i <= n,
            rows@ == changed_regions(regions@, start_incomes@, i as int),
        decreases n - i,
    {
        if regions[i].1 != start_incomes[i] {
            let r = copy_region(&regions[i]);
            rows.push(r);
        }
        i = i + 1;
    }
    rows
}

/// The report line of a region whose income changed.
pub open spec fn region_line_text(name: Seq<char>, income: Income) -> Seq<char> {
    name + " is now "@ + income_text(income) + " income."@
}

/// The report line of a region whose income changed.
pub fn region_income_line(name: &str, income: Income) -> (s: String)
    ensures
        s@ == region_line_text(name@, income),
{
    let mut s = String::from_str(name);
    s.append(" is now ");
    s.append(income_lower(income));
    s.append(" income.");
    s
}

/// One sector's production mix in the year log: the sector's title and
/// each process's name and share.
pub struct MixLog {
    pub output: String,
    pub shares: Vec<(String, usize)>,
}

/// The lines of one sector's mix.
pub open spec fn mix_lines(m: MixLog) -> Seq<Seq<char>> {
    seq!["  ["@ + m.output@ + "]"@] + m.shares@.map_values(
        |e: (String, usize)| "    "@ + e.0@ + ":"@ + decimal_text(e.1 as nat),
    )
}

/// One year of the player's history: the year, its changes and the
/// production mix of each sector.
pub open spec fn year_log_text(year: nat, changes: Seq<Seq<char>>, mixes: Seq<MixLog>) -> Seq<char> {
    join_text(
        seq![
            "\n["@ + decimal_text(year) + "]"@,
            join_text(changes, "\n"@),
            "Production Mix:"@,
            join_text(mixes.map_values(|m: MixLog| join_text(mix_lines(m), "\n"@)), "\n"@),
        ],
        "\n"@,
    )
}

fn mix_log_text(m: &MixLog) -> (s: String)
    ensures
        s@ == join_text(mix_lines(*m), "\n"@),
{
    let ghost all = mix_lines(*m);
    let mut s = String::from_str("  [");
    s.append(m.output.as_str());
    s.append("]");
    assert(all.take(1) =~= seq![all[0]]);
    let n = m.shares.len();
    let mut i: usize = 0;
    while i < n
        invariant
            n == m.shares@.len(),
            all == mix_lines(*m),
            all.len() == n + 1,
            i <= n,
            s@ == join_text(all.take(i + 1), "\n"@),
        decreases n - i,
    {
        proof {
            assert(all.take(i + 2).drop_last() =~= all.take(i + 1));
        }
        s.append("\n");
        s.append("    ");
        s.append(m.shares[i].0.as_str());
        s.append(":");
        push_decimal(&mut s, m.shares[i].1 as u64);
        proof {
            assert(all[i + 1] == "    "@ + m.shares@[i as int].0@ + ":"@ + decimal_text(
                m.shares@[i as int].1 as nat,
            ));
            assert(s@ =~= join_text(all.take(i + 2), "\n"@));
        }
        i = i + 1;
    }
    assert(all.take(n + 1) =~= all);
    s
}

/// The history of one year, as the normal ending lists it.
pub fn format_year_log(year: usize, changes: &[String], mixes: &[MixLog]) -> (s: String)
    ensures
        s@ == year_log_text(year as nat, texts(changes@), mixes@),
{
    let mut mix_texts: Vec<String> = Vec::new();
    let n = mixes.len();
    let mut i: usize = 0;
    while i < n
        invariant
            n == mixes@.len(),
            i <= n,
            texts(mix_texts@) =~= mixes@.take(i as int).map_values(
                |m: MixLog| join_text(mix_lines(m), "\n"@),
            ),
        decreases n - i,
    {
        let t = mix_log_text(&mixes[i]);
        let ghost before = mix_texts@;
        mix_texts.push(t);
        proof {
            assert(mixes@.take(i + 1) =~= mixes@.take(i as int).push(mixes@[i as int]));
            assert(texts(mix_texts@) =~= texts(before).push(t@));
        }
        i = i + 1;
    }
    assert(mixes@.take(n as int) =~= mixes@);
    let mut s = String::from_str("\n[");
    push_decimal(&mut s, year as u64);
    s.append("]");
    s.append("\n");
    let c = join(changes, "\n");
    s.append(c.as_str());
    s.append("\n");
    s.append("Production Mix:");
    s.append("\n");
    let m = join(mix_texts.as_slice(), "\n");
    s.append(m.as_str());
    proof {
        let parts = seq![
            "\n["@ + decimal_text(year as nat) + "]"@,
            join_text(texts(changes@), "\n"@),
            "Production Mix:"@,
            join_text(mixes@.map_values(|m: MixLog| join_text(mix_lines(m), "\n"@)), "\n"@),
        ];
        let p3 = parts.drop_last();
        let p2 = p3.drop_last();
        let p1 = p2.drop_last();
        assert(p1 =~= seq![parts[0]]);
        assert(join_text(p1, "\n"@) == parts[0]);
        assert(p2.last() == parts[1]);
        assert(join_text(p2, "\n"@) == parts[0] + "\n"@ + parts[1]);
        assert(p3.last() == parts[2]);
        assert(join_text(p3, "\n"@) == parts[0] + "\n"@ + parts[1] + "\n"@ + parts[2]);
        assert(join_text(parts, "\n"@) == parts[0] + "\n"@ + parts[1] + "\n"@ + parts[2] + "\n"@
            + parts[3]);
        assert(s@ =~= join_text(parts, "\n"@));
    }
    s
}

/// The player's history as the normal ending lists it: one entry per
/// year that has both its changes and its production mixes recorded, the
/// year and changes from `change_history` and the mixes from
/// `mix_history`.
pub fn history_log(change_history: &Vec<(usize, Vec<String>)>, mix_history: &Vec<Vec<MixLog>>) -> (log: Vec<String>)
    ensures
        log@.len() == if change_history@.len() <= mix_history@.len() {
            change_history@.len()
        } else {
            mix_history@.len()
        },
        forall|i: int|
            0 <= i < log@.len() ==> (#[trigger] log@[i])@ == year_log_text(
                change_history@[i].0 as nat,
                texts(change_history@[i].1@),
                mix_history@[i]@,
            ),
{
    let n = if change_history.len() <= mix_history.len() {
        change_history.len()
    } else {
        mix_history.len()
    };
    let mut log: Vec<String> = Vec::new();
    let mut i: usize = 0;
    while i < n
        invariant
            n <= change_history@.len(),
            n <= mix_history@.len(),
            i <= n,
            log@.len() == i,
            forall|k: int|
                0 <= k < i ==> (#[trigger] log@[k])@ == year_log_text(
                    change_history@[k].0 as nat,
                    texts(change_history@[k].1@),
                    mix_history@[k]@,
                ),
        decreases n - i,
    {
        let entry = format_year_log(
            change_history[i].0,
            change_history[i].1.as_slice(),
            mix_history[i].as_slice(),
        );
        log.push(entry);
        i = i + 1;
    }
    log
}

/// The names of the choices of one kind, in order.
pub open spec fn choice_names(choices: Seq<WorkshopPolicyChoice>, action: WorkshopPolicyAction) -> Seq<String>
    decreases choices.len(),
{
    if choices.len() == 0 {
        Seq::empty()
    } else {
        let rest = choice_names(choices.drop_last(), action);
        if choices.last().action == action {
            rest.push(choices.last().name)
        } else {
            rest
        }
    }
}

/// Whether a card is listed as passing (`passing`) or repealing
/// (otherwise) on the Ready bar.
pub open spec fn listed_as(c: PlanChange, passing: bool) -> bool {
    if passing {
        c.passed
    } else {
        c.withdrawn
    }
}

/// The names of the cards of `s` listed as passing (or repealing), in
/// the order of `s`.
pub open spec fn names_listed(
    projects: Seq<Project>,
    changes: Seq<PlanChange>,
    passing: bool,
    s: Seq<usize>,
) -> Seq<String>
    decreases s.len(),
{
    if s.len() == 0 {
        Seq::empty()
    } else {
        let rest = names_listed(projects, changes, passing, s.drop_last());
        if listed_as(changes[s.last() as int], passing) {
            rest.push(projects[s.last() as int].name)
        } else {
            rest
        }
    }
}

proof fn lemma_choice_names_listed(
    projects: Seq<Project>,
    changes: Seq<PlanChange>,
    s: Seq<usize>,
)
    requires
        forall|k: int|
            0 <= k < s.len() ==> !(changes[(#[trigger] s[k]) as int].passed
                && changes[s[k] as int].withdrawn) && is_changed(changes[s[k] as int]),
    ensures
        choice_names(choices_in_order(projects, changes, s), WorkshopPolicyAction::Passed)
            == names_listed(projects, changes, true, s),
        choice_names(choices_in_order(projects, changes, s), WorkshopPolicyAction::Repealed)
            == names_listed(projects, changes, false, s),
    decreases s.len(),
{
    if s.len() > 0 {
        let d = s.drop_last();
        assert forall|k: int|
            0 <= k < d.len() implies !(changes[(#[trigger] d[k]) as int].passed
            && changes[d[k] as int].withdrawn) && is_changed(changes[d[k] as int]) by {
            assert(d[k] == s[k]);
        }
        lemma_choice_names_listed(projects, changes, d);
        assert(choices_in_order(projects, changes, s).drop_last() =~= choices_in_order(
            projects,
            changes,
            d,
        ));
        let last = s[s.len() - 1];
        assert(!(changes[last as int].passed && changes[last as int].withdrawn));
        assert(is_changed(changes[last as int]));
    }
}

proof fn lemma_names_listed_remove(
    projects: Seq<Project>,
    changes: Seq<PlanChange>,
    passing: bool,
    s: Seq<usize>,
    p: int,
)
    requires
        0 <= p < s.len(),
    ensures
        names_listed(projects, changes, passing, s).to_multiset() == if listed_as(
            changes[s[p] as int],
            passing,
        ) {
            names_listed(projects, changes, passing, s.remove(p)).to_multiset().insert(
                projects[s[p] as int].name,
            )
        } else {
            names_listed(projects, changes, passing, s.remove(p)).to_multiset()
        },
    decreases s.len(),
{
    broadcast use vstd::seq_lib::group_to_multiset_ensures;
    broadcast use vstd::multiset::group_multiset_axioms;

    let last = s.len() - 1;
    if p == last {
        assert(s.remove(p) =~= s.drop_last());
    } else {
        let d = s.drop_last();
        lemma_names_listed_remove(projects, changes, passing, d, p);
        assert(s.remove(p).drop_last() =~= d.remove(p));
        assert(s.remove(p).last() == s.last());
        assert(d[p] == s[p]);
        let m = names_listed(projects, changes, passing, d.remove(p)).to_multiset();
        let x = projects[s[p] as int].name;
        let y = projects[s.last() as int].name;
        assert(m.insert(x).insert(y) =~= m.insert(y).insert(x));
    }
}

proof fn lemma_names_listed_permutation(
    projects: Seq<Project>,
    changes: Seq<PlanChange>,
    passing: bool,
    s: Seq<usize>,
    m: int,
)
    requires
        0 <= m <= changes.len(),
        changes.len() <= usize::MAX,
        forall|a: int, b: int| 0 <= a < b < s.len() ==> #[trigger] s[a] != #[trigger] s[b],
        forall|x: usize| #[trigger] s.contains(x) <==> (x < m && is_changed(changes[x as int])),
    ensures
        names_listed(projects, changes, passing, s).to_multiset() == changed_card_names(
            projects,
            changes,
            passing,
            m,
        ).to_multiset(),
    decreases m,
{
    broadcast use vstd::seq_lib::group_to_multiset_ensures;
    broadcast use vstd::multiset::group_multiset_axioms;

    if m == 0 {
        if s.len() > 0 {
            assert(s.contains(s[0]));
        }
        assert(s =~= Seq::<usize>::empty());
        assert(names_listed(projects, changes, passing, s) =~= Seq::<String>::empty());
    } else {
        let top = (m - 1) as usize;
        if is_changed(changes[m - 1]) {
            assert(s.contains(top));
            let p = choose|p: int| 0 <= p < s.len() && s[p] == top;
            assert(s[p] == top);
            let t = s.remove(p);
            assert forall|a: int, b: int| 0 <= a < b < t.len() implies #[trigger] t[a] != #[trigger] t[b] by {
                let a0 = if a < p { a } else { a + 1 };
                let b0 = if b < p { b } else { b + 1 };
                assert(t[a] == s[a0] && t[b] == s[b0]);
            }
            assert forall|x: usize| #[trigger] t.contains(x) <==> (x < m - 1 && is_changed(
                changes[x as int],
            )) by {
                if t.contains(x) {
                    let k = choose|k: int| 0 <= k < t.len() && t[k] == x;
                    let k0 = if k < p { k } else { k + 1 };
                    assert(t[k] == s[k0]);
                    assert(s.contains(x));
                    assert(k0 != p);
                }
                if x < m - 1 && is_changed(changes[x as int]) {
                    assert(s.contains(x));
                    let k = choose|k: int| 0 <= k < s.len() && s[k] == x;
                    if k < p {
                        assert(t[k] == x);
                    } else {
                        assert(k != p);
                        assert(t[k - 1] == x);
                    }
                }
            }
            lemma_names_listed_permutation(projects, changes, passing, t, m - 1);
            lemma_names_listed_remove(projects, changes, passing, s, p);
        } else {
            assert forall|x: usize| #[trigger] s.contains(x) <==> (x < m - 1 && is_changed(
                changes[x as int],
            )) by {}
            lemma_names_listed_permutation(projects, changes, passing, s, m - 1);
        }
    }
}

/// The cycle report records what the Ready bar listed: the names it
/// records as passed are the names listed as passing, and those it
/// records as repealed are the names listed as repealing, each as often
/// (a card is never both passed and repealed in one cycle). Only the
/// order differs: the report follows the plan's entries, the Ready bar
/// the deck.
pub proof fn lemma_report_matches_selection(
    projects: Seq<Project>,
    changes: Seq<PlanChange>,
    order: Seq<usize>,
)
    requires
        changes.len() == projects.len(),
        changes.len() <= usize::MAX,
        forall|i: int| 0 <= i < changes.len() ==> !((#[trigger] changes[i]).passed && changes[i].withdrawn),
        key_ordered(projects, changes, order),
    ensures
        choice_names(choices_in_order(projects, changes, order), WorkshopPolicyAction::Passed).to_multiset()
            == changed_card_names(projects, changes, true, changes.len() as int).to_multiset(),
        choice_names(choices_in_order(projects, changes, order), WorkshopPolicyAction::Repealed).to_multiset()
            == changed_card_names(projects, changes, false, changes.len() as int).to_multiset(),
{
    assert forall|k: int|
        0 <= k < order.len() implies !(changes[(#[trigger] order[k]) as int].passed
        && changes[order[k] as int].withdrawn) && is_changed(changes[order[k] as int]) by {
        assert(order.contains(order[k]));
    }
    lemma_choice_names_listed(projects, changes, order);
    lemma_names_listed_permutation(projects, changes, true, order, changes.len() as int);
    lemma_names_listed_permutation(projects, changes, false, order, changes.len() as int);
}

/// The rows of a cycle report.
#[derive(Debug, Clone, Copy, PartialEq, Eq, Structural)]
pub enum ReportRow {
    Temperature,
    Contentedness,
    Extinction,
    Emissions,
    EnergySupplied,
    CaloriesSupplied,
}

/// The rows of a cycle report and its secondary rows. Workshop mode
/// re-centres the report on the headline metrics (emissions,
/// temperature, extinction, energy and calories supplied) and demotes
/// contentedness to a secondary line; the normal report shows
/// temperature, contentedness, extinction and emissions.
pub open spec fn report_rows_of(workshop_active: bool) -> (Seq<ReportRow>, Seq<ReportRow>) {
    if workshop_active {
        (
            seq![
                ReportRow::Emissions,
                ReportRow::Temperature,
                ReportRow::Extinction,
                ReportRow::EnergySupplied,
                ReportRow::CaloriesSupplied,
            ],
            seq![ReportRow::Contentedness],
        )
    } else {
        (
            seq![
                ReportRow::Temperature,
                ReportRow::Contentedness,
                ReportRow::Extinction,
                ReportRow::Emissions,
            ],
            Seq::empty(),
        )
    }
}

/// The rows of a cycle report and its secondary rows.
pub fn report_rows(workshop_active: bool) -> (r: (Vec<ReportRow>, Vec<ReportRow>))
    ensures
        (r.0@, r.1@) == report_rows_of(workshop_active),
{
    let mut rows: Vec<ReportRow> = Vec::new();
    let mut secondary: Vec<ReportRow> = Vec::new();
    if workshop_active {
        rows.push(ReportRow::Emissions);
        rows.push(ReportRow::Temperature);
        rows.push(ReportRow::Extinction);
        rows.push(ReportRow::EnergySupplied);
        rows.push(ReportRow::CaloriesSupplied);
        secondary.push(ReportRow::Contentedness);
    } else {
        rows.push(ReportRow::Temperature);
        rows.push(ReportRow::Contentedness);
        rows.push(ReportRow::Extinction);
        rows.push(ReportRow::Emissions);
    }
    assert(rows@ =~= report_rows_of(workshop_active).0);
    assert(secondary@ =~= report_rows_of(workshop_active).1);
    (rows, secondary)
}

} // verus!

//! Workshop mode: a simplified session shape for facilitated group
//! workshops. Policy cards are the only decision, political capital is a
//! flat budget that expires each cycle, and the session runs to the
//! world's configured end year with no mid-game loss.
use vstd::prelude::*;
use crate::deck::{is_passed, with_status, Flag, PlanChange, Project, ProjectType, SessionState, Status};
use crate::order::{insert_name_sorted, names_sorted};
use crate::text::str_eq;

verus! {

/// The political capital granted at the start of each planning cycle.
pub const WORKSHOP_PC_BUDGET: isize = 30;

/// The outcome of clicking a card: the political capital, the deck and
/// the plan changes afterwards, and whether anything changed.
///
/// - A locked card, or one that is not a policy, does nothing.
/// - A passed card is repealed. If it was passed this cycle its cost is
///   refunded and the pass is undone; if it was passed in an earlier
///   cycle nothing is refunded (that budget has expired) and the repeal
///   is recorded.
/// - A card repealed this cycle is restored for free.
/// - Otherwise the card is passed if the remaining budget covers its
///   cost, and nothing happens if it does not.
pub open spec fn toggle_outcome(
    pc: int,
    projects: Seq<Project>,
    changes: Seq<PlanChange>,
    id: int,
) -> (int, Seq<Project>, Seq<PlanChange>, bool) {
    let p = projects[id];
    let ch = changes[id];
    if p.kind != ProjectType::Policy || p.locked {
        (pc, projects, changes, false)
    } else if is_passed(p) {
        if ch.passed {
            (
                pc + p.cost,
                projects.update(id, with_status(p, Status::Inactive)),
                changes.update(id, PlanChange { passed: false, ..ch }),
                true,
            )
        } else {
            (
                pc,
                projects.update(id, with_status(p, Status::Inactive)),
                changes.update(id, PlanChange { withdrawn: true, ..ch }),
                true,
            )
        }
    } else if ch.withdrawn {
        (
            pc,
            projects.update(id, with_status(p, Status::Building)),
            changes.update(id, PlanChange { withdrawn: false, ..ch }),
            true,
        )
    } else if pc >= p.cost {
        (
            pc - p.cost,
            projects.update(id, with_status(p, Status::Building)),
            changes.update(id, PlanChange { passed: true, ..ch }),
            true,
        )
    } else {
        (pc, projects, changes, false)
    }
}

impl SessionState {
    /// Pay a policy's cost out of the political capital, if it covers it.
    pub fn pay_points(&mut self, project_id: usize) -> (paid: bool)
        requires
            project_id < old(self).projects@.len(),
            old(self).projects@[project_id as int].cost <= isize::MAX,
        ensures
            paid == (old(self).political_capital >= old(self).projects@[project_id as int].cost),
            paid ==> final(self).political_capital == old(self).political_capital
                - old(self).projects@[project_id as int].cost,
            !paid ==> final(self).political_capital == old(self).political_capital,
            final(self).projects@ == old(self).projects@,
            final(self).flags@ == old(self).flags@,
            final(self).year == old(self).year,
            final(self).death_year == old(self).death_year,
    {
        let cost = self.projects[project_id].cost as isize;
        if self.political_capital >= cost {
            self.political_capital = self.political_capital - cost;
            true
        } else {
            false
        }
    }

    /// Pass a policy: it starts building.
    pub fn pass_policy(&mut self, project_id: usize)
        requires
            project_id < old(self).projects@.len(),
        ensures
            final(self).projects@ == old(self).projects@.update(
                project_id as int,
                with_status(old(self).projects@[project_id as int], Status::Building),
            ),
            final(self).political_capital == old(self).political_capital,
            final(self).flags@ == old(self).flags@,
            final(self).year == old(self).year,
            final(self).death_year == old(self).death_year,
    {
        self.projects[project_id].status = Status::Building;
    }

    /// Stop a project: it goes back to inactive.
    pub fn stop_project(&mut self, project_id: usize)
        requires
            project_id < old(self).projects@.len(),
        ensures
            final(self).projects@ == old(self).projects@.update(
                project_id as int,
                with_status(old(self).projects@[project_id as int], Status::Inactive),
            ),
            final(self).political_capital == old(self).political_capital,
            final(self).flags@ == old(self).flags@,
            final(self).year == old(self).year,
            final(self).death_year == old(self).death_year,
    {
        self.projects[project_id].status = Status::Inactive;
    }

    /// Repeal a policy and refund its cost.
    pub fn stop_policy(&mut self, project_id: usize)
        requires
            project_id < old(self).projects@.len(),
            old(self).projects@[project_id as int].cost <= isize::MAX,
            old(self).political_capital + old(self).projects@[project_id as int].cost
                <= isize::MAX,
        ensures
            final(self).projects@ == old(self).projects@.update(
                project_id as int,
                with_status(old(self).projects@[project_id as int], Status::Inactive),
            ),
            final(self).political_capital == old(self).political_capital + old(
                self,
            ).projects@[project_id as int].cost,
            final(self).flags@ == old(self).flags@,
            final(self).year == old(self).year,
            final(self).death_year == old(self).death_year,
    {
        let cost = self.projects[project_id].cost as isize;
        self.political_capital = self.political_capital + cost;
        self.stop_project(project_id);
    }
}

/// Workshop-mode click on a policy card: pass it if affordable, repeal
/// it if already passed. Repealing within the same planning cycle
/// refunds the cost; repealing a policy passed in an earlier cycle does
/// not (that cost came out of an earlier, already-expired budget), and
/// re-passing it within the same cycle is free. Returns whether
/// anything changed.
pub fn toggle_policy(
    state: &mut SessionState,
    plan_changes: &mut Vec<PlanChange>,
    project_id: usize,
) -> (changed: bool)
    requires
        project_id < old(state).projects@.len(),
        old(plan_changes)@.len() == old(state).projects@.len(),
        ({
            let p = old(state).projects@[project_id as int];
            p.kind == ProjectType::Policy && !p.locked
        }) ==> old(state).projects@[project_id as int].cost <= isize::MAX,
        ({
            let p = old(state).projects@[project_id as int];
            p.kind == ProjectType::Policy && !p.locked && is_passed(p) && old(
                plan_changes,
            )@[project_id as int].passed
        }) ==> old(state).political_capital + old(state).projects@[project_id as int].cost
            <= isize::MAX,
    ensures
        (
            final(state).political_capital as int,
            final(state).projects@,
            final(plan_changes)@,
            changed,
        ) == toggle_outcome(
            old(state).political_capital as int,
            old(state).projects@,
            old(plan_changes)@,
            project_id as int,
        ),
        final(state).flags@ == old(state).flags@,
        final(state).year == old(state).year,
        final(state).death_year == old(state).death_year,
{
    let kind = state.projects[project_id].kind;
    let locked = state.projects[project_id].locked;
    if kind != ProjectType::Policy || locked {
        return false;
    }
    let is_passed = state.projects[project_id].is_building()
        || state.projects[project_id].is_online();
    let changes = plan_changes[project_id];
    if is_passed {
        if changes.passed {
            // Passed this cycle: repeal and refund.
            plan_changes.set(project_id, PlanChange { passed: false, ..changes });
            state.stop_policy(project_id);
        } else {
            // Passed in an earlier cycle: repeal without refund,
            // but re-passing it this cycle is free (undoes the repeal).
            plan_changes.set(project_id, PlanChange { withdrawn: true, ..changes });
            state.stop_project(project_id);
        }
        true
    } else if changes.withdrawn {
        // Free re-pass: undo a repeal made this cycle.
        plan_changes.set(project_id, PlanChange { withdrawn: false, ..changes });
        state.pass_policy(project_id);
        true
    } else if state.pay_points(project_id) {
        plan_changes.set(project_id, PlanChange { passed: true, ..changes });
        state.pass_policy(project_id);
        true
    } else {
        // Not enough PC left in this cycle's budget.
        false
    }
}

/// The plan changes agree with the deck: a card marked as passed this
/// cycle is passed, and a card marked as repealed this cycle is not.
pub open spec fn plan_consistent(projects: Seq<Project>, changes: Seq<PlanChange>) -> bool {
    &&& changes.len() == projects.len()
    &&& forall|i: int|
        0 <= i < changes.len() ==> ((#[trigger] changes[i]).passed ==> is_passed(projects[i]))
            && (changes[i].withdrawn ==> !is_passed(projects[i]))
}

/// The political capital committed this cycle: the total cost of the
/// first `n` cards passed this cycle.
pub open spec fn committed(projects: Seq<Project>, changes: Seq<PlanChange>, n: int) -> int
    decreases n,
{
    if n <= 0 {
        0
    } else {
        committed(projects, changes, n - 1) + if changes[n - 1].passed {
            projects[n - 1].cost as int
        } else {
            0
        }
    }
}

/// The cost that card `k` contributes to the commitment of the first `n` cards.
pub open spec fn contribution(p: Project, c: PlanChange, k: int, n: int) -> int {
    if 0 <= k < n && c.passed {
        p.cost as int
    } else {
        0
    }
}

proof fn lemma_committed_update(
    projects: Seq<Project>,
    changes: Seq<PlanChange>,
    k: int,
    p: Project,
    c: PlanChange,
    n: int,
)
    requires
        0 <= k < projects.len(),
        changes.len() == projects.len(),
        n <= projects.len(),
        p.cost == projects[k].cost,
    ensures
        committed(projects.update(k, p), changes.update(k, c), n) == committed(projects, changes, n)
            - contribution(projects[k], changes[k], k, n) + contribution(p, c, k, n),
    decreases n,
{
    if n > 0 {
        lemma_committed_update(projects, changes, k, p, c, n - 1);
    }
}

/// No card is committed in a fresh plan.
pub proof fn lemma_fresh_plan_commits_nothing(
    projects: Seq<Project>,
    changes: Seq<PlanChange>,
    n: int,
)
    requires
        n <= changes.len(),
        forall|i: int| 0 <= i < changes.len() ==> !(#[trigger] changes[i]).passed,
    ensures
        committed(projects, changes, n) == 0,
    decreases n,
{
    if n > 0 {
        lemma_fresh_plan_commits_nothing(projects, changes, n - 1);
    }
}

/// A click touches only the clicked card: every other card and every
/// other plan change stay as they were, and the clicked card keeps
/// everything but its status.
pub proof fn lemma_toggle_is_local(
    pc: int,
    projects: Seq<Project>,
    changes: Seq<PlanChange>,
    id: int,
)
    requires
        0 <= id < projects.len(),
        changes.len() == projects.len(),
    ensures
        ({
            let (_, ps, cs, _) = toggle_outcome(pc, projects, changes, id);
            &&& ps.len() == projects.len()
            &&& cs.len() == changes.len()
            &&& forall|i: int| 0 <= i < projects.len() && i != id ==> ps[i] == projects[i]
            &&& forall|i: int| 0 <= i < changes.len() && i != id ==> cs[i] == changes[i]
            &&& ps[id] == with_status(projects[id], ps[id].status)
        }),
{
}

/// Budget accounting: a click keeps the plan consistent with the deck,
/// and the remaining political capital plus the cost of the cards passed
/// this cycle does not change. What a click spends is exactly what a
/// passed card costs, and undoing a pass gives it back.
pub proof fn lemma_toggle_keeps_accounts(
    pc: int,
    projects: Seq<Project>,
    changes: Seq<PlanChange>,
    id: int,
)
    requires
        0 <= id < projects.len(),
        plan_consistent(projects, changes),
    ensures
        ({
            let (pc2, ps, cs, _) = toggle_outcome(pc, projects, changes, id);
            &&& plan_consistent(ps, cs)
            &&& pc2 + committed(ps, cs, ps.len() as int) == pc + committed(
                projects,
                changes,
                projects.len() as int,
            )
        }),
{
    let (pc2, ps, cs, _) = toggle_outcome(pc, projects, changes, id);
    let n = projects.len() as int;
    lemma_committed_update(projects, changes, id, ps[id], cs[id], n);
    assert(ps =~= projects.update(id, ps[id]));
    assert(cs =~= changes.update(id, cs[id]));
    assert forall|i: int| 0 <= i < cs.len() implies ((#[trigger] cs[i]).passed ==> is_passed(ps[i]))
        && (cs[i].withdrawn ==> !is_passed(ps[i])) by {
        if i != id {
            assert(cs[i] == changes[i]);
            assert(ps[i] == projects[i]);
        }
    }
}

/// The budget is never overdrawn: a click never takes the political
/// capital below zero when it starts at zero or more.
pub proof fn lemma_toggle_never_overdraws(
    pc: int,
    projects: Seq<Project>,
    changes: Seq<PlanChange>,
    id: int,
)
    requires
        0 <= id < projects.len(),
        changes.len() == projects.len(),
        pc >= 0,
    ensures
        toggle_outcome(pc, projects, changes, id).0 >= 0,
{
}

/// A second click on the same card undoes the first: when a click
/// changes something, clicking the card again changes something too and
/// restores the political capital, every plan change, and which cards
/// are passed. (Re-passing a card refunded this cycle needs the refund
/// to cover its cost, so the capital must not have been negative.)
pub proof fn lemma_toggle_twice_undoes(
    pc: int,
    projects: Seq<Project>,
    changes: Seq<PlanChange>,
    id: int,
)
    requires
        0 <= id < projects.len(),
        plan_consistent(projects, changes),
        toggle_outcome(pc, projects, changes, id).3,
        changes[id].passed ==> pc >= 0,
    ensures
        ({
            let (pc1, ps1, cs1, _) = toggle_outcome(pc, projects, changes, id);
            let (pc2, ps2, cs2, changed2) = toggle_outcome(pc1, ps1, cs1, id);
            &&& changed2
            &&& pc2 == pc
            &&& cs2 == changes
            &&& ps2.len() == projects.len()
            &&& forall|i: int|
                0 <= i < projects.len() ==> is_passed(#[trigger] ps2[i]) == is_passed(projects[i])
                    && ps2[i] == with_status(projects[i], ps2[i].status)
        }),
{
    let (pc1, ps1, cs1, _) = toggle_outcome(pc, projects, changes, id);
    let (pc2, ps2, cs2, changed2) = toggle_outcome(pc1, ps1, cs1, id);
    let ch = changes[id];
    let p = projects[id];
    assert(ch.passed ==> !ch.withdrawn);
    if is_passed(p) {
        assert(ps1[id].status == Status::Inactive);
        assert(!is_passed(ps1[id]));
    } else {
        assert(ps1[id].status == Status::Building);
        assert(is_passed(ps1[id]));
    }
    assert(cs2[id].passed == ch.passed);
    assert(cs2[id].withdrawn == ch.withdrawn);
    assert(cs2[id] == ch);
    assert(cs2 =~= changes);
}

/// The outcome of a sequence of clicks, one card after another.
pub open spec fn toggle_all(
    pc: int,
    projects: Seq<Project>,
    changes: Seq<PlanChange>,
    ids: Seq<int>,
) -> (int, Seq<Project>, Seq<PlanChange>)
    decreases ids.len(),
{
    if ids.len() == 0 {
        (pc, projects, changes)
    } else {
        let (pc1, ps1, cs1, _) = toggle_outcome(pc, projects, changes, ids[0]);
        toggle_all(pc1, ps1, cs1, ids.drop_first())
    }
}

proof fn lemma_toggle_all_keeps_accounts(
    pc: int,
    projects: Seq<Project>,
    changes: Seq<PlanChange>,
    ids: Seq<int>,
)
    requires
        plan_consistent(projects, changes),
        pc >= 0,
        forall|j: int| 0 <= j < ids.len() ==> 0 <= #[trigger] ids[j] < projects.len(),
    ensures
        ({
            let (pc2, ps, cs) = toggle_all(pc, projects, changes, ids);
            &&& ps.len() == projects.len()
            &&& plan_consistent(ps, cs)
            &&& pc2 >= 0
            &&& pc2 + committed(ps, cs, ps.len() as int) == pc + committed(
                projects,
                changes,
                projects.len() as int,
            )
        }),
    decreases ids.len(),
{
    if ids.len() > 0 {
        let id = ids[0];
        let (pc1, ps1, cs1, _) = toggle_outcome(pc, projects, changes, id);
        lemma_toggle_keeps_accounts(pc, projects, changes, id);
        lemma_toggle_never_overdraws(pc, projects, changes, id);
        lemma_toggle_is_local(pc, projects, changes, id);
        let rest = ids.drop_first();
        assert forall|j: int| 0 <= j < rest.len() implies 0 <= #[trigger] rest[j] < ps1.len() by {
            assert(rest[j] == ids[j + 1]);
        }
        lemma_toggle_all_keeps_accounts(pc1, ps1, cs1, rest);
    }
}

/// Within one planning cycle the budget is spent only on the cards
/// passed in that cycle: starting from a fresh plan with the full
/// budget, after any sequence of clicks the remaining political capital
/// is the budget less the cost of the cards passed this cycle, and it is
/// never negative.
pub proof fn lemma_cycle_budget_spent_on_passed_cards(
    projects: Seq<Project>,
    changes: Seq<PlanChange>,
    ids: Seq<int>,
)
    requires
        changes.len() == projects.len(),
        forall|i: int|
            0 <= i < changes.len() ==> !(#[trigger] changes[i]).passed && !changes[i].withdrawn,
        forall|j: int| 0 <= j < ids.len() ==> 0 <= #[trigger] ids[j] < projects.len(),
    ensures
        ({
            let (pc, ps, cs) = toggle_all(WORKSHOP_PC_BUDGET as int, projects, changes, ids);
            &&& pc == WORKSHOP_PC_BUDGET - committed(ps, cs, ps.len() as int)
            &&& pc >= 0
            &&& plan_consistent(ps, cs)
        }),
{
    lemma_fresh_plan_commits_nothing(projects, changes, projects.len() as int);
    lemma_toggle_all_keeps_accounts(WORKSHOP_PC_BUDGET as int, projects, changes, ids);
}

/// The world flags after the workshop adjustments: parliament is
/// suspended, the flag added only when it is missing; nothing changes
/// when workshop mode is inactive.
pub open spec fn applied_flags(active: bool, flags: Seq<Flag>) -> Seq<Flag> {
    if active && !flags.contains(Flag::ParliamentSuspended) {
        flags.push(Flag::ParliamentSuspended)
    } else {
        flags
    }
}

/// Applying the workshop adjustments is idempotent: a second application
/// (as when a saved game is continued) changes nothing. Once applied in
/// workshop mode, parliament is suspended, and a deck that lacked the flag
/// holds it exactly once.
pub proof fn lemma_apply_is_idempotent(active: bool, flags: Seq<Flag>)
    ensures
        applied_flags(active, applied_flags(active, flags)) == applied_flags(active, flags),
        active ==> applied_flags(active, flags).contains(Flag::ParliamentSuspended),
        active && !flags.contains(Flag::ParliamentSuspended) ==> applied_flags(
            active,
            flags,
        ).to_multiset().count(Flag::ParliamentSuspended) == 1,
{
    broadcast use vstd::seq_lib::group_to_multiset_ensures;
    broadcast use vstd::multiset::group_multiset_axioms;

    if active && !flags.contains(Flag::ParliamentSuspended) {
        let pushed = flags.push(Flag::ParliamentSuspended);
        assert(pushed[flags.len() as int] == Flag::ParliamentSuspended);
        assert(pushed.contains(Flag::ParliamentSuspended));
        assert(flags.to_multiset().count(Flag::ParliamentSuspended) == 0);
    }
}

/// The workshop switch.
#[derive(Debug, Clone, Copy, PartialEq, Eq)]
pub struct WorkshopOpts {
    /// Whether workshop mode is active.
    pub active: bool,
}

impl WorkshopOpts {
    /// Workshop mode is on when its switch reads `1` or `true`.
    pub fn from_flag(flag: &str) -> (opts: WorkshopOpts)
        ensures
            opts.active == (flag@ == "1"@ || flag@ == "true"@),
    {
        let active = str_eq(flag, "1") || str_eq(flag, "true");
        WorkshopOpts { active }
    }

    /// Apply workshop-mode adjustments to a fresh or loaded game state:
    /// parliament is suspended, so no card needs a majority. Adds the
    /// flag only once; does nothing when workshop mode is inactive.
    pub fn apply(&self, state: &mut SessionState)
        ensures
            final(state).flags@ == applied_flags(self.active, old(state).flags@),
            final(state).political_capital == old(state).political_capital,
            final(state).projects@ == old(state).projects@,
            final(state).year == old(state).year,
            final(state).death_year == old(state).death_year,
    {
        if !self.active {
            return;
        }
        if !contains_flag(&state.flags, Flag::ParliamentSuspended) {
            state.flags.push(Flag::ParliamentSuspended);
        }
    }

    /// Reset the expiring per-cycle budget at the start of each planning
    /// session: unspent political capital from the previous cycle is
    /// discarded. Does nothing when workshop mode is inactive.
    pub fn begin_planning(&self, state: &mut SessionState)
        ensures
            final(state).political_capital == if self.active {
                WORKSHOP_PC_BUDGET
            } else {
                old(state).political_capital
            },
            final(state).projects@ == old(state).projects@,
            final(state).flags@ == old(state).flags@,
            final(state).year == old(state).year,
            final(state).death_year == old(state).death_year,
    {
        if self.active {
            state.political_capital = WORKSHOP_PC_BUDGET;
        }
    }
}

/// Whether `flags` holds `flag`.
pub fn contains_flag(flags: &Vec<Flag>, flag: Flag) -> (r: bool)
    ensures
        r == flags@.contains(flag),
{
    let mut i: usize = 0;
    while i < flags.len()
        invariant
            i <= flags@.len(),
            forall|k: int| 0 <= k < i ==> flags@[k] != flag,
        decreases flags@.len() - i,
    {
        if flags[i] == flag {
            return true;
        }
        i = i + 1;
    }
    false
}

/// Whether `v` holds `x`.
pub fn contains_index(v: &Vec<usize>, x: usize) -> (r: bool)
    ensures
        r == v@.contains(x),
{
    let mut i: usize = 0;
    while i < v.len()
        invariant
            i <= v@.len(),
            forall|k: int| 0 <= k < i ==> v@[k] != x,
        decreases v@.len() - i,
    {
        if v[i] == x {
            return true;
        }
        i = i + 1;
    }
    false
}

/// Workshop sessions always evaluate at the end year configured by the
/// world.
pub fn has_reached_end(state: &SessionState) -> (r: bool)
    ensures
        r == (state.year >= state.death_year),
{
    state.year >= state.death_year
}

/// The cycle number of a planning year (five-year cycles counted from
/// one), with the cycle's year range: a cycle ends five years after it
/// starts, or at the end year if that comes first.
pub open spec fn cycle_context(year: int, start_year: int, end_year: int) -> (int, int, int) {
    let elapsed = if year >= start_year {
        year - start_year
    } else {
        0
    };
    let end = if year + 5 <= usize::MAX {
        year + 5
    } else {
        usize::MAX as int
    };
    (elapsed / 5 + 1, year, if end <= end_year {
        end
    } else {
        end_year
    })
}

/// Cycle number and year range shown on the workshop planning header.
pub fn workshop_cycle(year: usize, start_year: usize, end_year: usize) -> (r: (usize, usize, usize))
    ensures
        (r.0 as int, r.1 as int, r.2 as int) == cycle_context(
            year as int,
            start_year as int,
            end_year as int,
        ),
{
    let cycle = year.saturating_sub(start_year) / 5 + 1;
    let end = year.saturating_add(5);
    (cycle, year, if end <= end_year {
        end
    } else {
        end_year
    })
}

/// The five moderator-facing themes of the workshop deck.
#[derive(Debug, Clone, Copy, PartialEq, Eq, Structural)]
pub enum WorkshopTheme {
    Energy,
    FoodAndAgriculture,
    LandAndBiodiversity,
    IndustryTransportAndGeoengineering,
    SocietyAndEconomy,
}

/// The title of a theme.
pub open spec fn theme_title(theme: WorkshopTheme) -> Seq<char> {
    match theme {
        WorkshopTheme::Energy => "Energy"@,
        WorkshopTheme::FoodAndAgriculture => "Food & Agriculture"@,
        WorkshopTheme::LandAndBiodiversity => "Land & Biodiversity"@,
        WorkshopTheme::IndustryTransportAndGeoengineering => "Industry, Transport & Geoengineering"@,
        WorkshopTheme::SocietyAndEconomy => "Society & Economy"@,
    }
}

/// The themes in presentation order.
pub open spec fn theme_order() -> Seq<WorkshopTheme> {
    seq![
        WorkshopTheme::Energy,
        WorkshopTheme::FoodAndAgriculture,
        WorkshopTheme::LandAndBiodiversity,
        WorkshopTheme::IndustryTransportAndGeoengineering,
        WorkshopTheme::SocietyAndEconomy,
    ]
}

impl WorkshopTheme {
    /// All themes, in presentation order.
    pub const ALL: [WorkshopTheme; 5] = [
        WorkshopTheme::Energy,
        WorkshopTheme::FoodAndAgriculture,
        WorkshopTheme::LandAndBiodiversity,
        WorkshopTheme::IndustryTransportAndGeoengineering,
        WorkshopTheme::SocietyAndEconomy,
    ];

    /// All themes, in presentation order.
    pub fn all() -> (themes: [WorkshopTheme; 5])
        ensures
            themes@ == theme_order(),
    {
        let themes = Self::ALL;
        assert(themes@ =~= theme_order());
        themes
    }

    /// The heading shown above the theme's cards.
    pub fn title(self) -> (t: &'static str)
        ensures
            t@ == theme_title(self),
    {
        match self {
            WorkshopTheme::Energy => "Energy",
            WorkshopTheme::FoodAndAgriculture => "Food & Agriculture",
            WorkshopTheme::LandAndBiodiversity => "Land & Biodiversity",
            WorkshopTheme::IndustryTransportAndGeoengineering => "Industry, Transport & Geoengineering",
            WorkshopTheme::SocietyAndEconomy => "Society & Economy",
        }
    }
}

/// The theme of a card of the accepted workshop deck, found by the
/// card's name; any other card has none.
pub open spec fn theme_of_name(name: Seq<char>) -> Option<WorkshopTheme> {
    if name == "Solar Push"@ || name == "Wind Push"@ || name == "Nuclear Expansion"@ || name
        == "Phase Out Coal"@ || name == "Mass Electrification"@ || name == "Energy Quotas"@
        || name == "Crack Down on Crypto-Mining"@ {
        Some(WorkshopTheme::Energy)
    } else if name == "Vegetarian Mandate"@ || name == "Meatless Mondays"@ || name
        == "Cellular Meat"@ || name == "Organic Transition"@ || name
        == "Regenerative Agriculture"@ {
        Some(WorkshopTheme::FoodAndAgriculture)
    } else if name == "Expand Nature Preserves"@ || name == "Remediate and Protect Ecosystems"@
        || name == "Ban Outdoor Cats"@ {
        Some(WorkshopTheme::LandAndBiodiversity)
    } else if name == "Solar Radiation Management (SRM)"@ || name == "Expand Public Transit"@
        || name == "Ban Cars"@ || name == "Restrict Air Travel"@ {
        Some(WorkshopTheme::IndustryTransportAndGeoengineering)
    } else if name == "Degrowth in Developed Regions"@ || name == "Luxury for All"@ {
        Some(WorkshopTheme::SocietyAndEconomy)
    } else {
        None
    }
}

proof fn lemma_energy_theme()
    ensures
        theme_of_name("Solar Push"@) == Some(WorkshopTheme::Energy),
        theme_of_name("Wind Push"@) == Some(WorkshopTheme::Energy),
        theme_of_name("Nuclear Expansion"@) == Some(WorkshopTheme::Energy),
        theme_of_name("Phase Out Coal"@) == Some(WorkshopTheme::Energy),
        theme_of_name("Mass Electrification"@) == Some(WorkshopTheme::Energy),
        theme_of_name("Energy Quotas"@) == Some(WorkshopTheme::Energy),
        theme_of_name("Crack Down on Crypto-Mining"@) == Some(WorkshopTheme::Energy),
{
    reveal_strlit("Crack Down on Crypto-Mining");
    reveal_strlit("Energy Quotas");
    reveal_strlit("Mass Electrification");
    reveal_strlit("Nuclear Expansion");
    reveal_strlit("Phase Out Coal");
    reveal_strlit("Solar Push");
    reveal_strlit("Wind Push");
}

proof fn lemma_food_and_agriculture_theme()
    ensures
        theme_of_name("Vegetarian Mandate"@) == Some(WorkshopTheme::FoodAndAgriculture),
        theme_of_name("Meatless Mondays"@) == Some(WorkshopTheme::FoodAndAgriculture),
        theme_of_name("Cellular Meat"@) == Some(WorkshopTheme::FoodAndAgriculture),
        theme_of_name("Organic Transition"@) == Some(WorkshopTheme::FoodAndAgriculture),
        theme_of_name("Regenerative Agriculture"@) == Some(WorkshopTheme::FoodAndAgriculture),
{
    reveal_strlit("Cellular Meat");
    reveal_strlit("Crack Down on Crypto-Mining");
    reveal_strlit("Energy Quotas");
    reveal_strlit("Mass Electrification");
    reveal_strlit("Meatless Mondays");
    reveal_strlit("Nuclear Expansion");
    reveal_strlit("Organic Transition");
    reveal_strlit("Phase Out Coal");
    reveal_strlit("Regenerative Agriculture");
    reveal_strlit("Solar Push");
    reveal_strlit("Vegetarian Mandate");
    reveal_strlit("Wind Push");
    assert("Vegetarian Mandate"@.len() != "Solar Push"@.len());
    assert("Vegetarian Mandate"@.len() != "Wind Push"@.len());
    assert("Vegetarian Mandate"@.len() != "Nuclear Expansion"@.len());
    assert("Vegetarian Mandate"@.len() != "Phase Out Coal"@.len());
    assert("Vegetarian Mandate"@.len() != "Mass Electrification"@.len());
    assert("Vegetarian Mandate"@.len() != "Energy Quotas"@.len());
    assert("Vegetarian Mandate"@.len() != "Crack Down on Crypto-Mining"@.len());
    assert("Meatless Mondays"@.len() != "Solar Push"@.len());
    assert("Meatless Mondays"@.len() != "Wind Push"@.len());
    assert("Meatless Mondays"@.len() != "Nuclear Expansion"@.len());
    assert("Meatless Mondays"@.len() != "Phase Out Coal"@.len());
    assert("Meatless Mondays"@.len() != "Mass Electrification"@.len());
    assert("Meatless Mondays"@.len() != "Energy Quotas"@.len());
    assert("Meatless Mondays"@.len() != "Crack Down on Crypto-Mining"@.len());
    assert("Cellular Meat"@.len() != "Solar Push"@.len());
    assert("Cellular Meat"@.len() != "Wind Push"@.len());
    assert("Cellular Meat"@.len() != "Nuclear Expansion"@.len());
    assert("Cellular Meat"@.len() != "Phase Out Coal"@.len());
    assert("Cellular Meat"@.len() != "Mass Electrification"@.len());
    assert("Cellular Meat"@[0] != "Energy Quotas"@[0]);
    assert("Cellular Meat"@.len() != "Crack Down on Crypto-Mining"@.len());
    assert("Organic Transition"@.len() != "Solar Push"@.len());
    assert("Organic Transition"@.len() != "Wind Push"@.len());
    assert("Organic Transition"@.len() != "Nuclear Expansion"@.len());
    assert("Organic Transition"@.len() != "Phase Out Coal"@.len());
    assert("Organic Transition"@.len() != "Mass Electrification"@.len());
    assert("Organic Transition"@.len() != "Energy Quotas"@.len());
    assert("Organic Transition"@.len() != "Crack Down on Crypto-Mining"@.len());
    assert("Regenerative Agriculture"@.len() != "Solar Push"@.len());
    assert("Regenerative Agriculture"@.len() != "Wind Push"@.len());
    assert("Regenerative Agriculture"@.len() != "Nuclear Expansion"@.len());
    assert("Regenerative Agriculture"@.len() != "Phase Out Coal"@.len());
    assert("Regenerative Agriculture"@.len() != "Mass Electrification"@.len());
    assert("Regenerative Agriculture"@.len() != "Energy Quotas"@.len());
    assert("Regenerative Agriculture"@.len() != "Crack Down on Crypto-Mining"@.len());
}

proof fn lemma_land_and_biodiversity_theme()
    ensures
        theme_of_name("Expand Nature Preserves"@) == Some(WorkshopTheme::LandAndBiodiversity),
        theme_of_name("Remediate and Protect Ecosystems"@) == Some(WorkshopTheme::LandAndBiodiversity),
        theme_of_name("Ban Outdoor Cats"@) == Some(WorkshopTheme::LandAndBiodiversity),
{
    reveal_strlit("Ban Outdoor Cats");
    reveal_strlit("Cellular Meat");
    reveal_strlit("Crack Down on Crypto-Mining");
    reveal_strlit("Energy Quotas");
    reveal_strlit("Expand Nature Preserves");
    reveal_strlit("Mass Electrification");
    reveal_strlit("Meatless Mondays");
    reveal_strlit("Nuclear Expansion");
    reveal_strlit("Organic Transition");
    reveal_strlit("Phase Out Coal");
    reveal_strlit("Regenerative Agriculture");
    reveal_strlit("Remediate and Protect Ecosystems");
    reveal_strlit("Solar Push");
    reveal_strlit("Vegetarian Mandate");
    reveal_strlit("Wind Push");
    assert("Expand Nature Preserves"@.len() != "Solar Push"@.len());
    assert("Expand Nature Preserves"@.len() != "Wind Push"@.len());
    assert("Expand Nature Preserves"@.len() != "Nuclear Expansion"@.len());
    assert("Expand Nature Preserves"@.len() != "Phase Out Coal"@.len());
    assert("Expand Nature Preserves"@.len() != "Mass Electrification"@.len());
    assert("Expand Nature Preserves"@.len() != "Energy Quotas"@.len());
    assert("Expand Nature Preserves"@.len() != "Crack Down on Crypto-Mining"@.len());
    assert("Expand Nature Preserves"@.len() != "Vegetarian Mandate"@.len());
    assert("Expand Nature Preserves"@.len() != "Meatless Mondays"@.len());
    assert("Expand Nature Preserves"@.len() != "Cellular Meat"@.len());
    assert("Expand Nature Preserves"@.len() != "Organic Transition"@.len());
    assert("Expand Nature Preserves"@.len() != "Regenerative Agriculture"@.len());
    assert("Remediate and Protect Ecosystems"@.len() != "Solar Push"@.len());
    assert("Remediate and Protect Ecosystems"@.len() != "Wind Push"@.len());
    assert("Remediate and Protect Ecosystems"@.len() != "Nuclear Expansion"@.len());
    assert("Remediate and Protect Ecosystems"@.len() != "Phase Out Coal"@.len());
    assert("Remediate and Protect Ecosystems"@.len() != "Mass Electrification"@.len());
    assert("Remediate and Protect Ecosystems"@.len() != "Energy Quotas"@.len());
    assert("Remediate and Protect Ecosystems"@.len() != "Crack Down on Crypto-Mining"@.len());
    assert("Remediate and Protect Ecosystems"@.len() != "Vegetarian Mandate"@.len());
    assert("Remediate and Protect Ecosystems"@.len() != "Meatless Mondays"@.len());
    assert("Remediate and Protect Ecosystems"@.len() != "Cellular Meat"@.len());
    assert("Remediate and Protect Ecosystems"@.len() != "Organic Transition"@.len());
    assert("Remediate and Protect Ecosystems"@.len() != "Regenerative Agriculture"@.len());
    assert("Ban Outdoor Cats"@.len() != "Solar Push"@.len());
    assert("Ban Outdoor Cats"@.len() != "Wind Push"@.len());
    assert("Ban Outdoor Cats"@.len() != "Nuclear Expansion"@.len());
    assert("Ban Outdoor Cats"@.len() != "Phase Out Coal"@.len());
    assert("Ban Outdoor Cats"@.len() != "Mass Electrification"@.len());
    assert("Ban Outdoor Cats"@.len() != "Energy Quotas"@.len());
    assert("Ban Outdoor Cats"@.len() != "Crack Down on Crypto-Mining"@.len());
    assert("Ban Outdoor Cats"@.len() != "Vegetarian Mandate"@.len());
    assert("Ban Outdoor Cats"@[0] != "Meatless Mondays"@[0]);
    assert("Ban Outdoor Cats"@.len() != "Cellular Meat"@.len());
    assert("Ban Outdoor Cats"@.len() != "Organic Transition"@.len());
    assert("Ban Outdoor Cats"@.len() != "Regenerative Agriculture"@.len());
}

proof fn lemma_industry_transport_and_geoengineering_theme()
    ensures
        theme_of_name("Solar Radiation Management (SRM)"@) == Some(WorkshopTheme::IndustryTransportAndGeoengineering),
        theme_of_name("Expand Public Transit"@) == Some(WorkshopTheme::IndustryTransportAndGeoengineering),
        theme_of_name("Ban Cars"@) == Some(WorkshopTheme::IndustryTransportAndGeoengineering),
        theme_of_name("Restrict Air Travel"@) == Some(WorkshopTheme::IndustryTransportAndGeoengineering),
{
    reveal_strlit("Ban Cars");
    reveal_strlit("Ban Outdoor Cats");
    reveal_strlit("Cellular Meat");
    reveal_strlit("Crack Down on Crypto-Mining");
    reveal_strlit("Energy Quotas");
    reveal_strlit("Expand Nature Preserves");
    reveal_strlit("Expand Public Transit");
    reveal_strlit("Mass Electrification");
    reveal_strlit("Meatless Mondays");
    reveal_strlit("Nuclear Expansion");
    reveal_strlit("Organic Transition");
    reveal_strlit("Phase Out Coal");
    reveal_strlit("Regenerative Agriculture");
    reveal_strlit("Remediate and Protect Ecosystems");
    reveal_strlit("Restrict Air Travel");
    reveal_strlit("Solar Push");
    reveal_strlit("Solar Radiation Management (SRM)");
    reveal_strlit("Vegetarian Mandate");
    reveal_strlit("Wind Push");
    assert("Solar Radiation Management (SRM)"@.len() != "Solar Push"@.len());
    assert("Solar Radiation Management (SRM)"@.len() != "Wind Push"@.len());
    assert("Solar Radiation Management (SRM)"@.len() != "Nuclear Expansion"@.len());
    assert("Solar Radiation Management (SRM)"@.len() != "Phase Out Coal"@.len());
    assert("Solar Radiation Management (SRM)"@.len() != "Mass Electrification"@.len());
    assert("Solar Radiation Management (SRM)"@.len() != "Energy Quotas"@.len());
    assert("Solar Radiation Management (SRM)"@.len() != "Crack Down on Crypto-Mining"@.len());
    assert("Solar Radiation Management (SRM)"@.len() != "Vegetarian Mandate"@.len());
    assert("Solar Radiation Management (SRM)"@.len() != "Meatless Mondays"@.len());
    assert("Solar Radiation Management (SRM)"@.len() != "Cellular Meat"@.len());
    assert("Solar Radiation Management (SRM)"@.len() != "Organic Transition"@.len());
    assert("Solar Radiation Management (SRM)"@.len() != "Regenerative Agriculture"@.len());
    assert("Solar Radiation Management (SRM)"@.len() != "Expand Nature Preserves"@.len());
    assert("Solar Radiation Management (SRM)"@[0] != "Remediate and Protect Ecosystems"@[0]);
    assert("Solar Radiation Management (SRM)"@.len() != "Ban Outdoor Cats"@.len());
    assert("Expand Public Transit"@.len() != "Solar Push"@.len());
    assert("Expand Public Transit"@.len() != "Wind Push"@.len());
    assert("Expand Public Transit"@.len() != "Nuclear Expansion"@.len());
    assert("Expand Public Transit"@.len() != "Phase Out Coal"@.len());
    assert("Expand Public Transit"@.len() != "Mass Electrification"@.len());
    assert("Expand Public Transit"@.len() != "Energy Quotas"@.len());
    assert("Expand Public Transit"@.len() != "Crack Down on Crypto-Mining"@.len());
    assert("Expand Public Transit"@.len() != "Vegetarian Mandate"@.len());
    assert("Expand Public Transit"@.len() != "Meatless Mondays"@.len());
    assert("Expand Public Transit"@.len() != "Cellular Meat"@.len());
    assert("Expand Public Transit"@.len() != "Organic Transition"@.len());
    assert("Expand Public Transit"@.len() != "Regenerative Agriculture"@.len());
    assert("Expand Public Transit"@.len() != "Expand Nature Preserves"@.len());
    assert("Expand Public Transit"@.len() != "Remediate and Protect Ecosystems"@.len());
    assert("Expand Public Transit"@.len() != "Ban Outdoor Cats"@.len());
    assert("Ban Cars"@.len() != "Solar Push"@.len());
    assert("Ban Cars"@.len() != "Wind Push"@.len());
    assert("Ban Cars"@.len() != "Nuclear Expansion"@.len());
    assert("Ban Cars"@.len() != "Phase Out Coal"@.len());
    assert("Ban Cars"@.len() != "Mass Electrification"@.len());
    assert("Ban Cars"@.len() != "Energy Quotas"@.len());
    assert("Ban Cars"@.len() != "Crack Down on Crypto-Mining"@.len());
    assert("Ban Cars"@.len() != "Vegetarian Mandate"@.len());
    assert("Ban Cars"@.len() != "Meatless Mondays"@.len());
    assert("Ban Cars"@.len() != "Cellular Meat"@.len());
    assert("Ban Cars"@.len() != "Organic Transition"@.len());
    assert("Ban Cars"@.len() != "Regenerative Agriculture"@.len());
    assert("Ban Cars"@.len() != "Expand Nature Preserves"@.len());
    assert("Ban Cars"@.len() != "Remediate and Protect Ecosystems"@.len());
    assert("Ban Cars"@.len() != "Ban Outdoor Cats"@.len());
    assert("Restrict Air Travel"@.len() != "Solar Push"@.len());
    assert("Restrict Air Travel"@.len() != "Wind Push"@.len());
    assert("Restrict Air Travel"@.len() != "Nuclear Expansion"@.len());
    assert("Restrict Air Travel"@.len() != "Phase Out Coal"@.len());
    assert("Restrict Air Travel"@.len() != "Mass Electrification"@.len());
    assert("Restrict Air Travel"@.len() != "Energy Quotas"@.len());
    assert("Restrict Air Travel"@.len() != "Crack Down on Crypto-Mining"@.len());
    assert("Restrict Air Travel"@.len() != "Vegetarian Mandate"@.len());
    assert("Restrict Air Travel"@.len() != "Meatless Mondays"@.len());
    assert("Restrict Air Travel"@.len() != "Cellular Meat"@.len());
    assert("Restrict Air Travel"@.len() != "Organic Transition"@.len());
    assert("Restrict Air Travel"@.len() != "Regenerative Agriculture"@.len());
    assert("Restrict Air Travel"@.len() != "Expand Nature Preserves"@.len());
    assert("Restrict Air Travel"@.len() != "Remediate and Protect Ecosystems"@.len());
    assert("Restrict Air Travel"@.len() != "Ban Outdoor Cats"@.len());
}

proof fn lemma_society_and_economy_theme()
    ensures
        theme_of_name("Degrowth in Developed Regions"@) == Some(WorkshopTheme::SocietyAndEconomy),
        theme_of_name("Luxury for All"@) == Some(WorkshopTheme::SocietyAndEconomy),
{
    reveal_strlit("Ban Cars");
    reveal_strlit("Ban Outdoor Cats");
    reveal_strlit("Cellular Meat");
    reveal_strlit("Crack Down on Crypto-Mining");
    reveal_strlit("Degrowth in Developed Regions");
    reveal_strlit("Energy Quotas");
    reveal_strlit("Expand Nature Preserves");
    reveal_strlit("Expand Public Transit");
    reveal_strlit("Luxury for All");
    reveal_strlit("Mass Electrification");
    reveal_strlit("Meatless Mondays");
    reveal_strlit("Nuclear Expansion");
    reveal_strlit("Organic Transition");
    reveal_strlit("Phase Out Coal");
    reveal_strlit("Regenerative Agriculture");
    reveal_strlit("Remediate and Protect Ecosystems");
    reveal_strlit("Restrict Air Travel");
    reveal_strlit("Solar Push");
    reveal_strlit("Solar Radiation Management (SRM)");
    reveal_strlit("Vegetarian Mandate");
    reveal_strlit("Wind Push");
    assert("Degrowth in Developed Regions"@.len() != "Solar Push"@.len());
    assert("Degrowth in Developed Regions"@.len() != "Wind Push"@.len());
    assert("Degrowth in Developed Regions"@.len() != "Nuclear Expansion"@.len());
    assert("Degrowth in Developed Regions"@.len() != "Phase Out Coal"@.len());
    assert("Degrowth in Developed Regions"@.len() != "Mass Electrification"@.len());
    assert("Degrowth in Developed Regions"@.len() != "Energy Quotas"@.len());
    assert("Degrowth in Developed Regions"@.len() != "Crack Down on Crypto-Mining"@.len());
    assert("Degrowth in Developed Regions"@.len() != "Vegetarian Mandate"@.len());
    assert("Degrowth in Developed Regions"@.len() != "Meatless Mondays"@.len());
    assert("Degrowth in Developed Regions"@.len() != "Cellular Meat"@.len());
    assert("Degrowth in Developed Regions"@.len() != "Organic Transition"@.len());
    assert("Degrowth in Developed Regions"@.len() != "Regenerative Agriculture"@.len());
    assert("Degrowth in Developed Regions"@.len() != "Expand Nature Preserves"@.len());
    assert("Degrowth in Developed Regions"@.len() != "Remediate and Protect Ecosystems"@.len());
    assert("Degrowth in Developed Regions"@.len() != "Ban Outdoor Cats"@.len());
    assert("Degrowth in Developed Regions"@.len() != "Solar Radiation Management (SRM)"@.len());
    assert("Degrowth in Developed Regions"@.len() != "Expand Public Transit"@.len());
    assert("Degrowth in Developed Regions"@.len() != "Ban Cars"@.len());
    assert("Degrowth in Developed Regions"@.len() != "Restrict Air Travel"@.len());
    assert("Luxury for All"@.len() != "Solar Push"@.len());
    assert("Luxury for All"@.len() != "Wind Push"@.len());
    assert("Luxury for All"@.len() != "Nuclear Expansion"@.len());
    assert("Luxury for All"@[0] != "Phase Out Coal"@[0]);
    assert("Luxury for All"@.len() != "Mass Electrification"@.len());
    assert("Luxury for All"@.len() != "Energy Quotas"@.len());
    assert("Luxury for All"@.len() != "Crack Down on Crypto-Mining"@.len());
    assert("Luxury for All"@.len() != "Vegetarian Mandate"@.len());
    assert("Luxury for All"@.len() != "Meatless Mondays"@.len());
    assert("Luxury for All"@.len() != "Cellular Meat"@.len());
    assert("Luxury for All"@.len() != "Organic Transition"@.len());
    assert("Luxury for All"@.len() != "Regenerative Agriculture"@.len());
    assert("Luxury for All"@.len() != "Expand Nature Preserves"@.len());
    assert("Luxury for All"@.len() != "Remediate and Protect Ecosystems"@.len());
    assert("Luxury for All"@.len() != "Ban Outdoor Cats"@.len());
    assert("Luxury for All"@.len() != "Solar Radiation Management (SRM)"@.len());
    assert("Luxury for All"@.len() != "Expand Public Transit"@.len());
    assert("Luxury for All"@.len() != "Ban Cars"@.len());
    assert("Luxury for All"@.len() != "Restrict Air Travel"@.len());
}

proof fn lemma_theme_outside_deck()
    ensures
        theme_of_name("Universal Family Planning"@) is None,
{
    reveal_strlit("Solar Push");
    reveal_strlit("Wind Push");
    reveal_strlit("Nuclear Expansion");
    reveal_strlit("Phase Out Coal");
    reveal_strlit("Mass Electrification");
    reveal_strlit("Energy Quotas");
    reveal_strlit("Crack Down on Crypto-Mining");
    reveal_strlit("Vegetarian Mandate");
    reveal_strlit("Meatless Mondays");
    reveal_strlit("Cellular Meat");
    reveal_strlit("Organic Transition");
    reveal_strlit("Regenerative Agriculture");
    reveal_strlit("Expand Nature Preserves");
    reveal_strlit("Remediate and Protect Ecosystems");
    reveal_strlit("Ban Outdoor Cats");
    reveal_strlit("Solar Radiation Management (SRM)");
    reveal_strlit("Expand Public Transit");
    reveal_strlit("Ban Cars");
    reveal_strlit("Restrict Air Travel");
    reveal_strlit("Degrowth in Developed Regions");
    reveal_strlit("Luxury for All");
    reveal_strlit("Universal Family Planning");
    assert("Universal Family Planning"@.len() != "Solar Push"@.len());
    assert("Universal Family Planning"@.len() != "Wind Push"@.len());
    assert("Universal Family Planning"@.len() != "Nuclear Expansion"@.len());
    assert("Universal Family Planning"@.len() != "Phase Out Coal"@.len());
    assert("Universal Family Planning"@.len() != "Mass Electrification"@.len());
    assert("Universal Family Planning"@.len() != "Energy Quotas"@.len());
    assert("Universal Family Planning"@.len() != "Crack Down on Crypto-Mining"@.len());
    assert("Universal Family Planning"@.len() != "Vegetarian Mandate"@.len());
    assert("Universal Family Planning"@.len() != "Meatless Mondays"@.len());
    assert("Universal Family Planning"@.len() != "Cellular Meat"@.len());
    assert("Universal Family Planning"@.len() != "Organic Transition"@.len());
    assert("Universal Family Planning"@.len() != "Regenerative Agriculture"@.len());
    assert("Universal Family Planning"@.len() != "Expand Nature Preserves"@.len());
    assert("Universal Family Planning"@.len() != "Remediate and Protect Ecosystems"@.len());
    assert("Universal Family Planning"@.len() != "Ban Outdoor Cats"@.len());
    assert("Universal Family Planning"@.len() != "Solar Radiation Management (SRM)"@.len());
    assert("Universal Family Planning"@.len() != "Expand Public Transit"@.len());
    assert("Universal Family Planning"@.len() != "Ban Cars"@.len());
    assert("Universal Family Planning"@.len() != "Restrict Air Travel"@.len());
    assert("Universal Family Planning"@.len() != "Degrowth in Developed Regions"@.len());
    assert("Universal Family Planning"@.len() != "Luxury for All"@.len());
}

/// The accepted workshop deck and its themes: Solar Push, Wind Push,
/// Nuclear Expansion, Phase Out Coal, Mass Electrification, Energy Quotas
/// and Crack Down on Crypto-Mining are Energy; Vegetarian Mandate,
/// Meatless Mondays, Cellular Meat, Organic Transition and Regenerative
/// Agriculture are Food & Agriculture; Expand Nature Preserves, Remediate
/// and Protect Ecosystems and Ban Outdoor Cats are Land & Biodiversity;
/// Solar Radiation Management (SRM), Expand Public Transit, Ban Cars and
/// Restrict Air Travel are Industry, Transport & Geoengineering; Degrowth
/// in Developed Regions and Luxury for All are Society & Economy. A card
/// of another deck, such as Universal Family Planning, has no theme.
pub proof fn lemma_workshop_deck_themes()
    ensures
        theme_of_name("Solar Push"@) == Some(WorkshopTheme::Energy),
        theme_of_name("Wind Push"@) == Some(WorkshopTheme::Energy),
        theme_of_name("Nuclear Expansion"@) == Some(WorkshopTheme::Energy),
        theme_of_name("Phase Out Coal"@) == Some(WorkshopTheme::Energy),
        theme_of_name("Mass Electrification"@) == Some(WorkshopTheme::Energy),
        theme_of_name("Energy Quotas"@) == Some(WorkshopTheme::Energy),
        theme_of_name("Crack Down on Crypto-Mining"@) == Some(WorkshopTheme::Energy),
        theme_of_name("Vegetarian Mandate"@) == Some(WorkshopTheme::FoodAndAgriculture),
        theme_of_name("Meatless Mondays"@) == Some(WorkshopTheme::FoodAndAgriculture),
        theme_of_name("Cellular Meat"@) == Some(WorkshopTheme::FoodAndAgriculture),
        theme_of_name("Organic Transition"@) == Some(WorkshopTheme::FoodAndAgriculture),
        theme_of_name("Regenerative Agriculture"@) == Some(WorkshopTheme::FoodAndAgriculture),
        theme_of_name("Expand Nature Preserves"@) == Some(WorkshopTheme::LandAndBiodiversity),
        theme_of_name("Remediate and Protect Ecosystems"@) == Some(WorkshopTheme::LandAndBiodiversity),
        theme_of_name("Ban Outdoor Cats"@) == Some(WorkshopTheme::LandAndBiodiversity),
        theme_of_name("Solar Radiation Management (SRM)"@) == Some(WorkshopTheme::IndustryTransportAndGeoengineering),
        theme_of_name("Expand Public Transit"@) == Some(WorkshopTheme::IndustryTransportAndGeoengineering),
        theme_of_name("Ban Cars"@) == Some(WorkshopTheme::IndustryTransportAndGeoengineering),
        theme_of_name("Restrict Air Travel"@) == Some(WorkshopTheme::IndustryTransportAndGeoengineering),
        theme_of_name("Degrowth in Developed Regions"@) == Some(WorkshopTheme::SocietyAndEconomy),
        theme_of_name("Luxury for All"@) == Some(WorkshopTheme::SocietyAndEconomy),
        theme_of_name("Universal Family Planning"@) is None,
{
    lemma_energy_theme();
    lemma_food_and_agriculture_theme();
    lemma_land_and_biodiversity_theme();
    lemma_industry_transport_and_geoengineering_theme();
    lemma_society_and_economy_theme();
    lemma_theme_outside_deck();
}

/// Map every accepted workshop card to exactly one moderator-facing
/// theme. A card outside the workshop deck has none.
pub fn workshop_theme(project: &Project) -> (theme: Option<WorkshopTheme>)
    ensures
        theme == theme_of_name(project.name@),
{
    let name = project.name.as_str();
    if str_eq(name, "Solar Push") || str_eq(name, "Wind Push") || str_eq(name, "Nuclear Expansion")
        || str_eq(name, "Phase Out Coal") || str_eq(name, "Mass Electrification") || str_eq(
        name,
        "Energy Quotas",
    ) || str_eq(name, "Crack Down on Crypto-Mining") {
        Some(WorkshopTheme::Energy)
    } else if str_eq(name, "Vegetarian Mandate") || str_eq(name, "Meatless Mondays") || str_eq(
        name,
        "Cellular Meat",
    ) || str_eq(name, "Organic Transition") || str_eq(name, "Regenerative Agriculture") {
        Some(WorkshopTheme::FoodAndAgriculture)
    } else if str_eq(name, "Expand Nature Preserves") || str_eq(
        name,
        "Remediate and Protect Ecosystems",
    ) || str_eq(name, "Ban Outdoor Cats") {
        Some(WorkshopTheme::LandAndBiodiversity)
    } else if str_eq(name, "Solar Radiation Management (SRM)") || str_eq(
        name,
        "Expand Public Transit",
    ) || str_eq(name, "Ban Cars") || str_eq(name, "Restrict Air Travel") {
        Some(WorkshopTheme::IndustryTransportAndGeoengineering)
    } else if str_eq(name, "Degrowth in Developed Regions") || str_eq(name, "Luxury for All") {
        Some(WorkshopTheme::SocietyAndEconomy)
    } else {
        None
    }
}

/// Why a visible card is locked: the cards that unlock it (any one of
/// them is enough) and whether one of them is already passed, in which
/// case the card becomes available after the current cycle is simulated.
#[derive(Debug, Clone, PartialEq, Eq)]
pub struct WorkshopLockReason {
    /// One prerequisite is sufficient. A list with more than one item is
    /// an OR rule.
    pub prerequisites: Vec<String>,
    /// The card remains locked during the planning round in which an
    /// enabler is selected. It becomes available after that round is
    /// simulated.
    pub available_next_cycle: bool,
}

/// The names of the first `n` cards of the deck that unlock card `target`,
/// in deck order.
pub open spec fn unlocker_names(projects: Seq<Project>, target: int, n: int) -> Seq<String>
    decreases n,
{
    if n <= 0 {
        Seq::empty()
    } else {
        let rest = unlocker_names(projects, target, n - 1);
        if projects[n - 1].unlocks@.contains(target as usize) {
            rest.push(projects[n - 1].name)
        } else {
            rest
        }
    }
}

/// Whether one of the first `n` cards that unlock card `target` is passed.
pub open spec fn unlocker_passed(projects: Seq<Project>, target: int, n: int) -> bool {
    exists|i: int|
        0 <= i < n && (#[trigger] projects[i]).unlocks@.contains(target as usize) && is_passed(
            projects[i],
        )
}

/// Reverse the deck's unlock graph to explain why card `target` is
/// locked: `None` when no card unlocks it; otherwise the names of the
/// cards that unlock it, in code-point order, and whether one of them is
/// already passed.
pub fn workshop_lock_reason(state: &SessionState, target: usize) -> (reason: Option<
    WorkshopLockReason,
>)
    ensures
        reason is None <==> unlocker_names(
            state.projects@,
            target as int,
            state.projects@.len() as int,
        ).len() == 0,
        reason matches Some(r) ==> {
            &&& names_sorted(r.prerequisites@)
            &&& r.prerequisites@.to_multiset() == unlocker_names(
                state.projects@,
                target as int,
                state.projects@.len() as int,
            ).to_multiset()
            &&& r.available_next_cycle == unlocker_passed(
                state.projects@,
                target as int,
                state.projects@.len() as int,
            )
        },
{
    broadcast use vstd::seq_lib::group_to_multiset_ensures;

    let mut names: Vec<String> = Vec::new();
    let mut passed = false;
    let n = state.projects.len();
    let mut i: usize = 0;
    while i < n
        invariant
            n == state.projects@.len(),
            i <= n,
            names_sorted(names@),
            names@.to_multiset() == unlocker_names(state.projects@, target as int, i as int).to_multiset(),
            names@.len() == unlocker_names(state.projects@, target as int, i as int).len(),
            passed == unlocker_passed(state.projects@, target as int, i as int),
        decreases n - i,
    {
        let project = &state.projects[i];
        proof {
            assert(unlocker_names(state.projects@, target as int, i + 1) == if project.unlocks@.contains(target) {
                unlocker_names(state.projects@, target as int, i as int).push(project.name)
            } else {
                unlocker_names(state.projects@, target as int, i as int)
            });
        }
        if contains_index(&project.unlocks, target) {
            let name = project.name.clone();
            assert(name == project.name);
            insert_name_sorted(&mut names, name);
            proof {
                let prev = unlocker_names(state.projects@, target as int, i as int);
                vstd::seq_lib::to_multiset_build(prev, project.name);
                assert(names@.to_multiset() =~= prev.push(project.name).to_multiset());
            }
            if project.is_building() || project.is_online() {
                passed = true;
            }
        }
        proof {
            if !passed {
                assert forall|k: int|
                    0 <= k < i + 1 && (#[trigger] state.projects@[k]).unlocks@.contains(
                        target as usize,
                    ) implies !is_passed(state.projects@[k]) by {
                    if k < i {
                        assert(!unlocker_passed(state.projects@, target as int, i as int));
                    }
                }
            } else {
                if !unlocker_passed(state.projects@, target as int, i as int) {
                    assert(state.projects@[i as int] == *project);
                }
            }
        }
        i = i + 1;
    }
    if names.len() == 0 {
        None
    } else {
        Some(WorkshopLockReason { prerequisites: names, available_next_cycle: passed })
    }
}

/// Passing an enabler shows its locked card as available next cycle:
/// when a click passes a card that unlocks card `target`, the lock
/// reason of `target` afterwards reports that a prerequisite is met.
pub proof fn lemma_passing_enabler_unlocks_next_cycle(
    pc: int,
    projects: Seq<Project>,
    changes: Seq<PlanChange>,
    enabler: int,
    target: usize,
)
    requires
        0 <= enabler < projects.len(),
        changes.len() == projects.len(),
        projects[enabler].unlocks@.contains(target),
        !is_passed(projects[enabler]),
        toggle_outcome(pc, projects, changes, enabler).3,
    ensures
        ({
            let (_, ps, _, _) = toggle_outcome(pc, projects, changes, enabler);
            unlocker_passed(ps, target as int, ps.len() as int)
        }),
{
    let (_, ps, _, _) = toggle_outcome(pc, projects, changes, enabler);
    assert(ps[enabler].unlocks@.contains(target));
    assert(is_passed(ps[enabler]));
}

} // verus!

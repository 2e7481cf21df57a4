//! The end of a game: which ending it reached, which badges the player
//! earned, and the final debrief's wording.
use vstd::prelude::*;
use crate::deck::{with_status, Flag, Group, Project, Status};
use crate::plan::EventPhase;
use crate::workshop::contains_flag;
use crate::text::str_eq;

verus! {

/// How a game ended.
#[derive(Debug, Clone, Copy, PartialEq, Eq, Structural)]
pub enum Ending {
    Win,
    Died,
    Coup,
    LostOther,
}

/// The ending of a game: a win; otherwise the end year was reached;
/// otherwise the political capital ran out; otherwise another loss.
pub open spec fn ending_of(win: bool, year: int, death_year: int, political_capital: int) -> Ending {
    if win {
        Ending::Win
    } else if year >= death_year {
        Ending::Died
    } else if political_capital <= 0 {
        Ending::Coup
    } else {
        Ending::LostOther
    }
}

/// Which ending the game reached.
pub fn ending_for(win: bool, year: usize, death_year: usize, political_capital: isize) -> (e: Ending)
    ensures
        e == ending_of(win, year as int, death_year as int, political_capital as int),
{
    if win {
        Ending::Win
    } else if year >= death_year {
        Ending::Died
    } else if political_capital <= 0 {
        Ending::Coup
    } else {
        Ending::LostOther
    }
}

/// The events rolled when the ending screen opens: none in workshop mode;
/// otherwise those of a break after a loss, or of the end after a win.
pub fn end_event_phase(workshop_active: bool, lose: bool) -> (phase: Option<EventPhase>)
    ensures
        phase == if workshop_active {
            None
        } else if lose {
            Some(EventPhase::BreakStart)
        } else {
            Some(EventPhase::EndStart)
        },
{
    if workshop_active {
        None
    } else if lose {
        Some(EventPhase::BreakStart)
    } else {
        Some(EventPhase::EndStart)
    }
}

/// The features of a production process that the badges read.
#[derive(Debug, Clone, Copy, PartialEq, Eq, Structural)]
pub enum ProcessFeature {
    IsSolar,
    IsIntermittent,
    CanMeltdown,
    MakesNuclearWaste,
    IsLaborIntensive,
    IsCCS,
    IsCombustion,
    IsFossil,
    UsesPesticides,
    UsesSynFertilizer,
    UsesLivestock,
    UsesOil,
    UsesGas,
}

/// A production process: its features and its share of its sector's
/// mix, in 5% units.
pub struct ProcessMix {
    pub features: Vec<ProcessFeature>,
    pub mix_share: usize,
}

/// What the badges read of the world at the end of a game. The four
/// threshold facts on the extinction rate and on animal-calorie demand
/// are measured on floating-point quantities and are given here as the
/// outcomes of those comparisons.
pub struct EndFacts {
    /// For each region, whether it seceded.
    pub regions_seceded: Vec<bool>,
    pub flags: Vec<Flag>,
    pub projects: Vec<Project>,
    pub processes: Vec<ProcessMix>,
    /// The extinction rate is at most 15.
    pub extinction_at_most_15: bool,
    /// The extinction rate is at least 60.
    pub extinction_at_least_60: bool,
    /// Animal-calorie demand is at least 2e15 (80% of its starting value).
    pub animal_calorie_demand_at_least_2e15: bool,
    /// Animal-calorie demand is below 2e14 (10% of its starting value).
    pub animal_calorie_demand_below_2e14: bool,
}

/// The badges a player can earn.
#[derive(Debug, Clone, Copy, PartialEq, Eq, Structural)]
pub enum Badge {
    Seceded,
    Aliens,
    Biodiversity,
    Electrification,
    Extinction,
    FossilFuels,
    Meat,
    Nuclear,
    Renewables,
    Space,
    Vegan,
}

/// All badges, in declaration order.
pub open spec fn badge_order() -> Seq<Badge> {
    seq![
        Badge::Seceded,
        Badge::Aliens,
        Badge::Biodiversity,
        Badge::Electrification,
        Badge::Extinction,
        Badge::FossilFuels,
        Badge::Meat,
        Badge::Nuclear,
        Badge::Renewables,
        Badge::Space,
        Badge::Vegan,
    ]
}

/// Whether a process has feature `f`, or, when `either` is set, `f` or `g`.
pub open spec fn has_either(p: ProcessMix, f: ProcessFeature, g: ProcessFeature, either: bool) -> bool {
    p.features@.contains(f) || (either && p.features@.contains(g))
}

/// The total mix share of the first `n` processes that have feature `f`
/// (or `g`, when `either` is set).
pub open spec fn share_of(
    processes: Seq<ProcessMix>,
    f: ProcessFeature,
    g: ProcessFeature,
    either: bool,
    n: int,
) -> int
    decreases n,
{
    if n <= 0 {
        0
    } else {
        share_of(processes, f, g, either, n - 1) + if has_either(processes[n - 1], f, g, either) {
            processes[n - 1].mix_share as int
        } else {
            0
        }
    }
}

/// The total mix share of the first `n` processes.
pub open spec fn share_prefix(processes: Seq<ProcessMix>, n: int) -> int
    decreases n,
{
    if n <= 0 {
        0
    } else {
        share_prefix(processes, n - 1) + processes[n - 1].mix_share as int
    }
}

/// The total mix share of all processes.
pub open spec fn total_share(processes: Seq<ProcessMix>) -> int {
    share_prefix(processes, processes.len() as int)
}

/// Whether a project is in effect or done.
pub open spec fn done_or_active(p: Project) -> bool {
    p.status == Status::Finished || p.status == Status::Active
}

/// The number of the first `n` projects of the space group that are
/// done or active.
pub open spec fn space_projects(projects: Seq<Project>, n: int) -> int
    decreases n,
{
    if n <= 0 {
        0
    } else {
        space_projects(projects, n - 1) + if projects[n - 1].group == Group::Space && done_or_active(
            projects[n - 1],
        ) {
            1int
        } else {
            0
        }
    }
}

/// Whether a badge was earned.
pub open spec fn badge_earned(badge: Badge, facts: EndFacts) -> bool {
    match badge {
        Badge::Seceded => facts.regions_seceded@.contains(true),
        Badge::Aliens => facts.flags@.contains(Flag::AlienEncounter),
        Badge::Biodiversity => facts.extinction_at_most_15,
        Badge::Extinction => facts.extinction_at_least_60,
        Badge::Electrification => exists|i: int|
            0 <= i < facts.projects@.len() && (#[trigger] facts.projects@[i]).name@
                == "Mass Electrification"@ && done_or_active(facts.projects@[i]),
        Badge::FossilFuels => share_of(
            facts.processes@,
            ProcessFeature::IsFossil,
            ProcessFeature::IsFossil,
            false,
            facts.processes@.len() as int,
        ) > 0,
        Badge::Meat => facts.animal_calorie_demand_at_least_2e15,
        Badge::Nuclear => share_of(
            facts.processes@,
            ProcessFeature::CanMeltdown,
            ProcessFeature::MakesNuclearWaste,
            true,
            facts.processes@.len() as int,
        ) >= 10,
        Badge::Renewables => share_of(
            facts.processes@,
            ProcessFeature::IsIntermittent,
            ProcessFeature::IsIntermittent,
            false,
            facts.processes@.len() as int,
        ) >= 10,
        Badge::Space => space_projects(facts.projects@, facts.projects@.len() as int) >= 3,
        Badge::Vegan => facts.animal_calorie_demand_below_2e14,
    }
}

proof fn lemma_share_bounded(
    processes: Seq<ProcessMix>,
    f: ProcessFeature,
    g: ProcessFeature,
    either: bool,
    n: int,
)
    requires
        0 <= n <= processes.len(),
    ensures
        0 <= share_of(processes, f, g, either, n) <= share_prefix(processes, n),
    decreases n,
{
    if n > 0 {
        lemma_share_bounded(processes, f, g, either, n - 1);
    }
}

fn has_feature(p: &ProcessMix, f: ProcessFeature) -> (r: bool)
    ensures
        r == p.features@.contains(f),
{
    let mut i: usize = 0;
    while i < p.features.len()
        invariant
            i <= p.features@.len(),
            forall|k: int| 0 <= k < i ==> p.features@[k] != f,
        decreases p.features@.len() - i,
    {
        if p.features[i] == f {
            return true;
        }
        i = i + 1;
    }
    false
}

/// The total mix share of the processes with feature `f` (with `g` too,
/// when `either` is set: the processes with `f` or `g`).
fn feature_share(processes: &Vec<ProcessMix>, f: ProcessFeature, g: ProcessFeature, either: bool) -> (s: usize)
    requires
        total_share(processes@) <= usize::MAX,
    ensures
        s == share_of(processes@, f, g, either, processes@.len() as int),
{
    let mut total: usize = 0;
    let mut i: usize = 0;
    while i < processes.len()
        invariant
            i <= processes@.len(),
            total_share(processes@) <= usize::MAX,
            total == share_of(processes@, f, g, either, i as int),
        decreases processes@.len() - i,
    {
        proof {
            lemma_share_bounded(processes@, f, g, either, i + 1);
            lemma_share_monotone(processes@, i + 1, processes@.len() as int);
        }
        let p = &processes[i];
        if has_feature(p, f) || (either && has_feature(p, g)) {
            total = total + p.mix_share;
        }
        i = i + 1;
    }
    total
}

proof fn lemma_share_monotone(processes: Seq<ProcessMix>, m: int, n: int)
    requires
        0 <= m <= n <= processes.len(),
    ensures
        share_prefix(processes, m) <= share_prefix(processes, n),
    decreases n - m,
{
    if m < n {
        lemma_share_monotone(processes, m, n - 1);
    }
}

impl Badge {
    /// Whether the badge was earned.
    pub fn applies(&self, facts: &EndFacts) -> (r: bool)
        requires
            total_share(facts.processes@) <= usize::MAX,
        ensures
            r == badge_earned(*self, *facts),
    {
        match self {
            Badge::Seceded => {
                let mut i: usize = 0;
                while i < facts.regions_seceded.len()
                    invariant
                        *self == Badge::Seceded,
                        i <= facts.regions_seceded@.len(),
                        forall|k: int| 0 <= k < i ==> !facts.regions_seceded@[k],
                    decreases facts.regions_seceded@.len() - i,
                {
                    if facts.regions_seceded[i] {
                        assert(facts.regions_seceded@[i as int] == true);
                        assert(facts.regions_seceded@.contains(true));
                        return true;
                    }
                    i = i + 1;
                }
                assert(!facts.regions_seceded@.contains(true));
                false
            },
            Badge::Aliens => contains_flag(&facts.flags, Flag::AlienEncounter),
            Badge::Biodiversity => facts.extinction_at_most_15,
            Badge::Extinction => facts.extinction_at_least_60,
            Badge::Electrification => {
                let mut i: usize = 0;
                while i < facts.projects.len()
                    invariant
                        *self == Badge::Electrification,
                        i <= facts.projects@.len(),
                        forall|k: int|
                            0 <= k < i ==> !((#[trigger] facts.projects@[k]).name@
                                == "Mass Electrification"@ && done_or_active(facts.projects@[k])),
                    decreases facts.projects@.len() - i,
                {
                    let p = &facts.projects[i];
                    if str_eq(p.name.as_str(), "Mass Electrification") && (p.status
                        == Status::Finished || p.status == Status::Active) {
                        assert(facts.projects@[i as int] == *p);
                        assert(done_or_active(facts.projects@[i as int]));
                        assert(exists|k: int|
                            0 <= k < facts.projects@.len() && (#[trigger] facts.projects@[k]).name@
                                == "Mass Electrification"@ && done_or_active(facts.projects@[k]));
                        return true;
                    }
                    i = i + 1;
                }
                false
            },
            Badge::FossilFuels => {
                let s = feature_share(
                    &facts.processes,
                    ProcessFeature::IsFossil,
                    ProcessFeature::IsFossil,
                    false,
                );
                s > 0
            },
            Badge::Meat => facts.animal_calorie_demand_at_least_2e15,
            Badge::Nuclear => {
                let s = feature_share(
                    &facts.processes,
                    ProcessFeature::CanMeltdown,
                    ProcessFeature::MakesNuclearWaste,
                    true,
                );
                s >= 10
            },
            Badge::Renewables => {
                let s = feature_share(
                    &facts.processes,
                    ProcessFeature::IsIntermittent,
                    ProcessFeature::IsIntermittent,
                    false,
                );
                s >= 10
            },
            Badge::Space => {
                let mut count: usize = 0;
                let mut i: usize = 0;
                while i < facts.projects.len()
                    invariant
                        i <= facts.projects@.len(),
                        count == space_projects(facts.projects@, i as int),
                        count <= i,
                    decreases facts.projects@.len() - i,
                {
                    let p = &facts.projects[i];
                    if p.group == Group::Space && (p.status == Status::Finished || p.status
                        == Status::Active) {
                        count = count + 1;
                    }
                    i = i + 1;
                }
                count >= 3
            },
            Badge::Vegan => facts.animal_calorie_demand_below_2e14,
        }
    }

    /// What the badge says of the player.
    pub fn description(self) -> (s: &'static str)
        ensures
            s@ == badge_text(self),
    {
        match self {
            Badge::Seceded => "At least one region seceded from Gosplant.",
            Badge::Aliens => "You had an extraterrestrial encounter.",
            Badge::Biodiversity => "Planetary life flourished under your tenure.",
            Badge::Electrification => "You helped electrify the world.",
            Badge::Extinction => "Planetary life suffered under your tenure.",
            Badge::FossilFuels => "You kept on using fossil fuels.",
            Badge::Meat => "Carnivorous diets were left intact.",
            Badge::Nuclear => "Nuclear was your preferred form of energy.",
            Badge::Renewables => "Renewables dominated energy production.",
            Badge::Space => "You pushed humanity towards the stars.",
            Badge::Vegan => "Global diets shifted towards vegan.",
        }
    }
}

/// What each badge says of the player.
pub open spec fn badge_text(b: Badge) -> Seq<char> {
    match b {
        Badge::Seceded => "At least one region seceded from Gosplant."@,
        Badge::Aliens => "You had an extraterrestrial encounter."@,
        Badge::Biodiversity => "Planetary life flourished under your tenure."@,
        Badge::Electrification => "You helped electrify the world."@,
        Badge::Extinction => "Planetary life suffered under your tenure."@,
        Badge::FossilFuels => "You kept on using fossil fuels."@,
        Badge::Meat => "Carnivorous diets were left intact."@,
        Badge::Nuclear => "Nuclear was your preferred form of energy."@,
        Badge::Renewables => "Renewables dominated energy production."@,
        Badge::Space => "You pushed humanity towards the stars."@,
        Badge::Vegan => "Global diets shifted towards vegan."@,
    }
}

/// The badges earned among the first `n` badges, in declaration order.
pub open spec fn earned_badges(facts: EndFacts, n: int) -> Seq<Badge>
    decreases n,
{
    if n <= 0 {
        Seq::empty()
    } else {
        let rest = earned_badges(facts, n - 1);
        if badge_earned(badge_order()[n - 1], facts) {
            rest.push(badge_order()[n - 1])
        } else {
            rest
        }
    }
}

/// A project that counts towards the Space badge: one of the Space group
/// that is finished or in effect.
pub open spec fn space_achievement(p: Project) -> bool {
    p.group == Group::Space && (p.status == Status::Finished || p.status == Status::Active)
}

proof fn lemma_space_count(projects: Seq<Project>, n: int)
    requires
        0 <= n <= projects.len(),
    ensures
        space_projects(projects, n) >= 0,
        space_projects(projects, n) >= 1 <==> exists|i: int|
            0 <= i < n && #[trigger] space_achievement(projects[i]),
        space_projects(projects, n) >= 2 <==> exists|i: int, j: int|
            0 <= i < j < n && #[trigger] space_achievement(projects[i]) && #[trigger] space_achievement(
                projects[j],
            ),
        space_projects(projects, n) >= 3 <==> exists|i: int, j: int, k: int|
            0 <= i < j < k < n && #[trigger] space_achievement(projects[i])
                && #[trigger] space_achievement(projects[j]) && #[trigger] space_achievement(
                projects[k],
            ),
    decreases n,
{
    if n > 0 {
        lemma_space_count(projects, n - 1);
        let m = n - 1;
        if space_achievement(projects[m]) {
            if space_projects(projects, m) >= 1 {
                let i = choose|i: int| 0 <= i < m && #[trigger] space_achievement(projects[i]);
                assert(0 <= i < m < n && space_achievement(projects[i]) && space_achievement(projects[m]));
            }
            if space_projects(projects, m) >= 2 {
                let (i, j) = choose|i: int, j: int|
                    0 <= i < j < m && #[trigger] space_achievement(projects[i])
                        && #[trigger] space_achievement(projects[j]);
                assert(0 <= i < j < m && space_achievement(projects[i]) && space_achievement(projects[j])
                    && space_achievement(projects[m]));
            }
            assert(0 <= m < n && space_achievement(projects[m]));
        }
        if space_projects(projects, m) >= 1 {
            let i = choose|i: int| 0 <= i < m && #[trigger] space_achievement(projects[i]);
            assert(0 <= i < n && space_achievement(projects[i]));
        }
        if space_projects(projects, m) >= 2 {
            let (i, j) = choose|i: int, j: int|
                0 <= i < j < m && #[trigger] space_achievement(projects[i])
                    && #[trigger] space_achievement(projects[j]);
            assert(0 <= i < j < n && space_achievement(projects[i]) && space_achievement(projects[j]));
        }
        if space_projects(projects, m) >= 3 {
            let (i, j, k) = choose|i: int, j: int, k: int|
                0 <= i < j < k < m && #[trigger] space_achievement(projects[i])
                    && #[trigger] space_achievement(projects[j]) && #[trigger] space_achievement(
                    projects[k],
                );
            assert(0 <= i < j < k < n && space_achievement(projects[i]) && space_achievement(
                projects[j],
            ) && space_achievement(projects[k]));
        }
        if space_projects(projects, n) >= 2 {
            assert(exists|i: int, j: int|
                0 <= i < j < n && #[trigger] space_achievement(projects[i]) && #[trigger] space_achievement(
                    projects[j],
                ));
        }
        if exists|i: int, j: int|
            0 <= i < j < n && #[trigger] space_achievement(projects[i]) && #[trigger] space_achievement(
                projects[j],
            ) {
            let (i, j) = choose|i: int, j: int|
                0 <= i < j < n && #[trigger] space_achievement(projects[i]) && #[trigger] space_achievement(
                    projects[j],
                );
            if j < m {
                assert(0 <= i < j < m && space_achievement(projects[i]) && space_achievement(projects[j]));
            } else {
                assert(0 <= i < m && space_achievement(projects[i]));
            }
        }
        if exists|i: int, j: int, k: int|
            0 <= i < j < k < n && #[trigger] space_achievement(projects[i])
                && #[trigger] space_achievement(projects[j]) && #[trigger] space_achievement(
                projects[k],
            ) {
            let (i, j, k) = choose|i: int, j: int, k: int|
                0 <= i < j < k < n && #[trigger] space_achievement(projects[i])
                    && #[trigger] space_achievement(projects[j]) && #[trigger] space_achievement(
                    projects[k],
                );
            if k < m {
                assert(0 <= i < j < k < m && space_achievement(projects[i]) && space_achievement(
                    projects[j],
                ) && space_achievement(projects[k]));
            } else {
                assert(0 <= i < j < m && space_achievement(projects[i]) && space_achievement(
                    projects[j],
                ));
            }
        }
        if exists|i: int| 0 <= i < n && #[trigger] space_achievement(projects[i]) {
            let i = choose|i: int| 0 <= i < n && #[trigger] space_achievement(projects[i]);
            if i < m {
                assert(0 <= i < m && space_achievement(projects[i]));
            }
        }
    }
}

/// The Space badge is earned exactly when at least three distinct
/// projects of the Space group are finished or in effect; a project that
/// is still being built, or is inactive, halted or stalled, never counts.
pub proof fn lemma_space_badge_needs_three_space_projects(facts: EndFacts)
    ensures
        badge_earned(Badge::Space, facts) <==> exists|i: int, j: int, k: int|
            0 <= i < j < k < facts.projects@.len() && #[trigger] space_achievement(facts.projects@[i])
                && #[trigger] space_achievement(facts.projects@[j]) && #[trigger] space_achievement(
                facts.projects@[k],
            ),
{
    lemma_space_count(facts.projects@, facts.projects@.len() as int);
}

proof fn lemma_space_projects_ignore_status_change(a: Seq<Project>, b: Seq<Project>, i: int, n: int)
    requires
        0 <= n <= a.len(),
        a.len() == b.len(),
        0 <= i < a.len(),
        forall|j: int| 0 <= j < a.len() && j != i ==> a[j] == b[j],
        b[i] == with_status(a[i], b[i].status),
        !(a[i].status == Status::Finished || a[i].status == Status::Active),
        !(b[i].status == Status::Finished || b[i].status == Status::Active),
    ensures
        space_projects(a, n) == space_projects(b, n),
    decreases n,
{
    if n > 0 {
        lemma_space_projects_ignore_status_change(a, b, i, n - 1);
        if n - 1 != i {
            assert(a[n - 1] == b[n - 1]);
        }
    }
}

proof fn lemma_earned_prefix_equal(f1: EndFacts, f2: EndFacts, n: int)
    requires
        forall|b: Badge| badge_earned(b, f1) == badge_earned(b, f2),
    ensures
        earned_badges(f1, n) == earned_badges(f2, n),
    decreases n,
{
    if n > 0 {
        lemma_earned_prefix_equal(f1, f2, n - 1);
        assert(badge_earned(badge_order()[n - 1], f1) == badge_earned(badge_order()[n - 1], f2));
    }
}

/// Changing one project between statuses that are not in effect (say from
/// inactive to building) never changes the badges earned.
pub proof fn lemma_badges_ignore_projects_not_in_effect(f1: EndFacts, f2: EndFacts, i: int)
    requires
        f1.regions_seceded@ == f2.regions_seceded@,
        f1.flags@ == f2.flags@,
        f1.processes@ == f2.processes@,
        f1.extinction_at_most_15 == f2.extinction_at_most_15,
        f1.extinction_at_least_60 == f2.extinction_at_least_60,
        f1.animal_calorie_demand_at_least_2e15 == f2.animal_calorie_demand_at_least_2e15,
        f1.animal_calorie_demand_below_2e14 == f2.animal_calorie_demand_below_2e14,
        f1.projects@.len() == f2.projects@.len(),
        0 <= i < f1.projects@.len(),
        forall|j: int| 0 <= j < f1.projects@.len() && j != i ==> f1.projects@[j] == f2.projects@[j],
        f2.projects@[i] == with_status(f1.projects@[i], f2.projects@[i].status),
        !(f1.projects@[i].status == Status::Finished || f1.projects@[i].status == Status::Active),
        !(f2.projects@[i].status == Status::Finished || f2.projects@[i].status == Status::Active),
    ensures
        forall|b: Badge| badge_earned(b, f1) == badge_earned(b, f2),
        earned_badges(f1, 11) == earned_badges(f2, 11),
{
    let a = f1.projects@;
    let c = f2.projects@;
    lemma_space_projects_ignore_status_change(a, c, i, a.len() as int);
    assert((exists|j: int|
        0 <= j < a.len() && (#[trigger] a[j]).name@ == "Mass Electrification"@ && done_or_active(a[j]))
        == (exists|j: int|
        0 <= j < c.len() && (#[trigger] c[j]).name@ == "Mass Electrification"@ && done_or_active(c[j])))
        by {
        if exists|j: int|
            0 <= j < a.len() && (#[trigger] a[j]).name@ == "Mass Electrification"@ && done_or_active(
                a[j],
            ) {
            let j = choose|j: int|
                0 <= j < a.len() && (#[trigger] a[j]).name@ == "Mass Electrification"@ && done_or_active(
                    a[j],
                );
            assert(j != i);
            assert(c[j] == a[j]);
        }
        if exists|j: int|
            0 <= j < c.len() && (#[trigger] c[j]).name@ == "Mass Electrification"@ && done_or_active(
                c[j],
            ) {
            let j = choose|j: int|
                0 <= j < c.len() && (#[trigger] c[j]).name@ == "Mass Electrification"@ && done_or_active(
                    c[j],
                );
            assert(j != i);
            assert(c[j] == a[j]);
        }
    }
    assert forall|b: Badge| badge_earned(b, f1) == badge_earned(b, f2) by {}
    lemma_earned_prefix_equal(f1, f2, 11);
}

proof fn lemma_share_positive(
    processes: Seq<ProcessMix>,
    f: ProcessFeature,
    n: int,
)
    requires
        0 <= n <= processes.len(),
    ensures
        share_of(processes, f, f, false, n) > 0 <==> exists|i: int|
            0 <= i < n && (#[trigger] processes[i]).features@.contains(f) && processes[i].mix_share > 0,
    decreases n,
{
    if n > 0 {
        lemma_share_positive(processes, f, n - 1);
        lemma_share_bounded(processes, f, f, false, n - 1);
        if exists|i: int|
            0 <= i < n && (#[trigger] processes[i]).features@.contains(f) && processes[i].mix_share > 0 {
            let i = choose|i: int|
                0 <= i < n && (#[trigger] processes[i]).features@.contains(f) && processes[i].mix_share > 0;
            if i < n - 1 {
                assert(0 <= i < n - 1 && processes[i].features@.contains(f) && processes[i].mix_share > 0);
            }
        }
        if share_of(processes, f, f, false, n - 1) > 0 {
            let i = choose|i: int|
                0 <= i < n - 1 && (#[trigger] processes[i]).features@.contains(f) && processes[i].mix_share > 0;
            assert(0 <= i < n && processes[i].features@.contains(f) && processes[i].mix_share > 0);
        }
    }
}

/// The fossil-fuels badge is earned exactly when some fossil process
/// still has a share of its sector's mix.
pub proof fn lemma_fossil_badge_needs_a_fossil_share(facts: EndFacts)
    ensures
        badge_earned(Badge::FossilFuels, facts) <==> exists|i: int|
            0 <= i < facts.processes@.len() && (#[trigger] facts.processes@[i]).features@.contains(
                ProcessFeature::IsFossil,
            ) && facts.processes@[i].mix_share > 0,
{
    lemma_share_positive(facts.processes@, ProcessFeature::IsFossil, facts.processes@.len() as int);
}

/// The badges earned, in declaration order.
pub fn eval_badges(facts: &EndFacts) -> (badges: Vec<Badge>)
    requires
        total_share(facts.processes@) <= usize::MAX,
    ensures
        badges@ == earned_badges(*facts, 11),
{
    let all = [
        Badge::Seceded,
        Badge::Aliens,
        Badge::Biodiversity,
        Badge::Electrification,
        Badge::Extinction,
        Badge::FossilFuels,
        Badge::Meat,
        Badge::Nuclear,
        Badge::Renewables,
        Badge::Space,
        Badge::Vegan,
    ];
    assert(all@ =~= badge_order());
    let mut badges: Vec<Badge> = Vec::new();
    let mut i: usize = 0;
    while i < 11
        invariant
            all@ == badge_order(),
            i <= 11,
            total_share(facts.processes@) <= usize::MAX,
            badges@ == earned_badges(*facts, i as int),
        decreases 11 - i,
    {
        let b = all[i];
        if b.applies(facts) {
            badges.push(b);
        }
        i = i + 1;
    }
    badges
}

/// What the ending screen sums up: how the game ended, the faction
/// closest to the player, and the badges earned.
pub struct Summary {
    pub ending: Ending,
    pub faction: String,
    pub badges: Vec<Badge>,
}

/// Sum up a finished game. `faction` is the faction closest to the
/// player, which is read off the factions' relationships.
pub fn summarize(
    facts: &EndFacts,
    win: bool,
    year: usize,
    death_year: usize,
    political_capital: isize,
    faction: String,
) -> (summary: Summary)
    requires
        total_share(facts.processes@) <= usize::MAX,
    ensures
        summary.ending == ending_of(win, year as int, death_year as int, political_capital as int),
        summary.faction == faction,
        summary.badges@ == earned_badges(*facts, 11),
{
    let badges = eval_badges(facts);
    let ending = ending_for(win, year, death_year, political_capital);
    Summary { ending, faction, badges }
}

} // verus!

//! The policy-card deck as the workshop logic sees it: each card's name,
//! kind, lock, status and cost, the cards it unlocks, and the session
//! state that holds the deck together with the political-capital budget.
use vstd::prelude::*;

verus! {

/// The three kinds of project; only policies are cards in the workshop.
#[derive(Debug, Clone, Copy, PartialEq, Eq, Structural)]
pub enum ProjectType {
    Policy,
    Research,
    Initiative,
}

/// Where a project stands.
#[derive(Debug, Clone, Copy, PartialEq, Eq, Structural)]
pub enum Status {
    Inactive,
    Building,
    Active,
    Halted,
    Stalled,
    Finished,
}

/// The project groups that the debrief badges and the theme headers read.
#[derive(Debug, Clone, Copy, PartialEq, Eq, Structural)]
pub enum Group {
    Other,
    Space,
    Nuclear,
    Restoration,
    Agriculture,
    Food,
    Geoengineering,
    Population,
    Control,
    Protection,
    Electrification,
    Behavior,
    Limits,
    Energy,
    Materials,
    Buildings,
    Cities,
}

/// The world flags that the workshop logic sets or reads.
#[derive(Debug, Clone, Copy, PartialEq, Eq, Structural)]
pub enum Flag {
    ParliamentSuspended,
    AlienEncounter,
    Electrified,
    Vegan,
    Vegetarian,
    ClosedBorders,
}

/// One project card. `id` is the card's identifier in the world (the
/// key by which the plan's entries are kept in order); `unlocks` lists
/// the indices (in the deck) of the cards that passing this one unlocks.
#[derive(Debug, Clone, PartialEq, Eq)]
pub struct Project {
    pub id: u128,
    pub name: String,
    pub kind: ProjectType,
    pub group: Group,
    pub locked: bool,
    pub status: Status,
    pub cost: usize,
    pub unlocks: Vec<usize>,
    /// Whether the project has upgrades to offer.
    pub has_upgrades: bool,
}

/// Whether a project is being built or is already in effect: the
/// moment a policy is passed it is building, and it stays passed while
/// it is active or finished.
pub open spec fn is_passed(p: Project) -> bool {
    p.status == Status::Building || p.status == Status::Active || p.status == Status::Finished
}

/// The same project with another status.
pub open spec fn with_status(p: Project, s: Status) -> Project {
    Project { status: s, ..p }
}

impl Project {
    /// Whether the project is under way.
    pub fn is_building(&self) -> (r: bool)
        ensures
            r == (self.status == Status::Building),
    {
        self.status == Status::Building
    }

    /// Whether the project is in effect.
    pub fn is_online(&self) -> (r: bool)
        ensures
            r == (self.status == Status::Active || self.status == Status::Finished),
    {
        self.status == Status::Active || self.status == Status::Finished
    }
}

/// The four production sectors.
#[derive(Debug, Clone, Copy, PartialEq, Eq, Structural)]
pub enum Output {
    Fuel,
    Electricity,
    PlantCalories,
    AnimalCalories,
}

/// One production process as the process page lists it.
#[derive(Debug, Clone, PartialEq, Eq)]
pub struct Process {
    pub name: String,
    pub output: Output,
    pub locked: bool,
    /// The process's share of its sector's mix, in 5% units.
    pub mix_share: usize,
}

/// The feedstocks that processes draw on.
#[derive(Debug, Clone, Copy, PartialEq, Eq, Structural)]
pub enum Feedstock {
    Other,
    Coal,
    Thorium,
    Uranium,
    Lithium,
    NaturalGas,
    Oil,
    Soil,
}

/// What the moderator did to one card during the current planning
/// cycle: passed it (and paid for it), or repealed a card that was
/// passed in an earlier cycle.
#[derive(Debug, Clone, Copy, PartialEq, Eq, Structural)]
pub struct PlanChange {
    pub passed: bool,
    pub withdrawn: bool,
}

impl PlanChange {
    /// No change to the card this cycle.
    pub fn none() -> (c: PlanChange)
        ensures
            !c.passed,
            !c.withdrawn,
    {
        PlanChange { passed: false, withdrawn: false }
    }
}

/// The parts of the game state that the planning session reads and
/// changes: the political capital, the deck, the world flags and the
/// calendar.
#[derive(Debug, Clone, PartialEq, Eq)]
pub struct SessionState {
    pub political_capital: isize,
    pub projects: Vec<Project>,
    pub flags: Vec<Flag>,
    pub year: usize,
    pub death_year: usize,
}

/// A fresh plan: no change recorded for any of `n` cards.
pub fn no_plan_changes(n: usize) -> (v: Vec<PlanChange>)
    ensures
        v@.len() == n,
        forall|i: int| 0 <= i < n ==> !(#[trigger] v@[i]).passed && !v@[i].withdrawn,
{
    let mut v: Vec<PlanChange> = Vec::new();
    let mut i: usize = 0;
    while i < n
        invariant
            i <= n,
            v@.len() == i,
            forall|k: int| 0 <= k < i ==> !(#[trigger] v@[k]).passed && !v@[k].withdrawn,
        decreases n - i,
    {
        v.push(PlanChange::none());
        i = i + 1;
    }
    v
}

} // verus!

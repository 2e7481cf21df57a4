use std::collections::BTreeSet;

use hes_game::deck::{Flag, Group, PlanChange, Project, ProjectType, SessionState, Status, no_plan_changes};
use hes_game::workshop::{
    WORKSHOP_PC_BUDGET, WorkshopLockReason, WorkshopOpts, WorkshopTheme, has_reached_end,
    toggle_policy, workshop_cycle, workshop_lock_reason, workshop_theme,
};

fn card(name: &str, kind: ProjectType, cost: usize, locked: bool) -> Project {
    Project {
        id: 0,
        name: name.to_string(),
        kind,
        group: Group::Other,
        locked,
        status: Status::Inactive,
        cost,
        unlocks: vec![],
        has_upgrades: false,
    }
}

fn index_of(state: &SessionState, name: &str) -> usize {
    state
        .projects
        .iter()
        .position(|p| p.name == name)
        .expect("deck contains the card")
}

/// The accepted workshop deck: 21 policy cards, three of them locked
/// behind enablers, plus a few locked cards of the normal game.
fn workshop_state() -> SessionState {
    let deck = [
        ("Solar Push", 15, false),
        ("Wind Push", 15, false),
        ("Nuclear Expansion", 15, false),
        ("Phase Out Coal", 10, false),
        ("Mass Electrification", 15, true),
        ("Energy Quotas", 10, false),
        ("Crack Down on Crypto-Mining", 5, false),
        ("Vegetarian Mandate", 15, false),
        ("Meatless Mondays", 5, false),
        ("Cellular Meat", 10, true),
        ("Organic Transition", 10, false),
        ("Regenerative Agriculture", 10, false),
        ("Expand Nature Preserves", 15, false),
        ("Remediate and Protect Ecosystems", 10, false),
        ("Ban Outdoor Cats", 5, false),
        ("Solar Radiation Management (SRM)", 10, true),
        ("Expand Public Transit", 10, false),
        ("Ban Cars", 15, false),
        ("Restrict Air Travel", 5, false),
        ("Degrowth in Developed Regions", 15, false),
        ("Luxury for All", 15, false),
    ];
    let mut projects: Vec<Project> = deck
        .iter()
        .map(|(name, cost, locked)| card(name, ProjectType::Policy, *cost, *locked))
        .collect();
    projects.push(card("Universal Family Planning", ProjectType::Policy, 10, true));
    projects.push(card("Fusion", ProjectType::Research, 20, true));
    projects.push(card("Space Elevator", ProjectType::Initiative, 40, true));
    let mut state = SessionState {
        political_capital: 100,
        projects,
        flags: vec![],
        year: 2022,
        death_year: 2052,
    };
    let mass = index_of(&state, "Mass Electrification");
    let cellular = index_of(&state, "Cellular Meat");
    let srm = index_of(&state, "Solar Radiation Management (SRM)");
    for enabler in ["Nuclear Expansion", "Solar Push", "Wind Push"] {
        let i = index_of(&state, enabler);
        state.projects[i].unlocks.push(mass);
    }
    let regen = index_of(&state, "Regenerative Agriculture");
    state.projects[regen].unlocks.push(cellular);
    let remediate = index_of(&state, "Remediate and Protect Ecosystems");
    state.projects[remediate].unlocks.push(srm);
    state
}

/// A deck of the normal game: affordable and locked policies and other
/// kinds of project.
fn default_state() -> SessionState {
    SessionState {
        political_capital: 100,
        projects: vec![
            card("Fusion", ProjectType::Research, 20, false),
            card("Universal Family Planning", ProjectType::Policy, 10, false),
            card("Close Borders", ProjectType::Policy, 25, true),
            card("Expand Public Transit", ProjectType::Initiative, 30, false),
            card("Ban Private Jets", ProjectType::Policy, 5, false),
        ],
        flags: vec![Flag::Electrified],
        year: 2022,
        death_year: 2082,
    }
}

fn is_passed(p: &Project) -> bool {
    p.is_building() || p.is_online()
}

#[test]
fn test_apply_when_active_suspends_parliament() {
    let mut state = default_state();
    assert!(!state.flags.contains(&Flag::ParliamentSuspended));

    let opts = WorkshopOpts { active: true };
    opts.apply(&mut state);
    assert!(state.flags.contains(&Flag::ParliamentSuspended));

    // Idempotent: applying again (e.g. on continue) adds no duplicate.
    opts.apply(&mut state);
    let count = state
        .flags
        .iter()
        .filter(|flag| **flag == Flag::ParliamentSuspended)
        .count();
    assert_eq!(count, 1);
}

#[test]
fn test_apply_when_inactive_is_noop() {
    let mut state = default_state();
    let flags_before = state.flags.clone();

    WorkshopOpts { active: false }.apply(&mut state);
    assert_eq!(state.flags, flags_before);
}

#[test]
fn test_begin_planning_resets_budget_when_active() {
    let mut state = default_state();
    state.political_capital = 3;

    WorkshopOpts { active: true }.begin_planning(&mut state);
    assert_eq!(state.political_capital, WORKSHOP_PC_BUDGET);

    // Unspent PC is discarded too: any leftover is replaced, not added.
    state.political_capital = 12;
    WorkshopOpts { active: true }.begin_planning(&mut state);
    assert_eq!(state.political_capital, WORKSHOP_PC_BUDGET);
}

#[test]
fn test_begin_planning_when_inactive_is_noop() {
    let mut state = default_state();
    state.political_capital = 3;

    WorkshopOpts { active: false }.begin_planning(&mut state);
    assert_eq!(state.political_capital, 3);
}

#[test]
fn test_workshop_end_uses_the_embedded_world_lifespan() {
    let mut state = workshop_state();

    assert_eq!(state.death_year, 2052);
    state.year = 2051;
    assert!(!has_reached_end(&state));
    state.year = 2052;
    assert!(has_reached_end(&state));
}

#[test]
fn test_workshop_theme_mapping_is_complete_and_unique() {
    let state = workshop_state();
    let themed = state
        .projects
        .iter()
        .enumerate()
        .filter_map(|(id, project)| workshop_theme(project).map(|theme| (id, theme)))
        .collect::<Vec<_>>();
    let unique_ids = themed.iter().map(|(id, _)| *id).collect::<BTreeSet<_>>();

    assert_eq!(themed.len(), 21);
    assert_eq!(unique_ids.len(), 21);
    assert_eq!(
        WorkshopTheme::ALL
            .into_iter()
            .map(|theme| {
                themed
                    .iter()
                    .filter(|(_, mapped_theme)| *mapped_theme == theme)
                    .count()
            })
            .collect::<Vec<_>>(),
        vec![7, 5, 3, 4, 2]
    );
}

#[test]
fn test_workshop_theme_mapping_excludes_normal_world_cards() {
    let normal = default_state();
    let universal_family_planning = normal
        .projects
        .iter()
        .find(|project| project.name == "Universal Family Planning")
        .expect("normal world contains Universal Family Planning");

    assert_eq!(workshop_theme(universal_family_planning), None);
}

#[test]
fn test_lock_reason_derives_single_prerequisite_and_next_cycle_timing() {
    let mut state = workshop_state();
    let cellular_meat = index_of(&state, "Cellular Meat");
    let regenerative_agriculture = index_of(&state, "Regenerative Agriculture");

    assert_eq!(
        workshop_lock_reason(&state, cellular_meat),
        Some(WorkshopLockReason {
            prerequisites: vec!["Regenerative Agriculture".to_string()],
            available_next_cycle: false,
        })
    );

    state.pass_policy(regenerative_agriculture);
    assert_eq!(
        workshop_lock_reason(&state, cellular_meat),
        Some(WorkshopLockReason {
            prerequisites: vec!["Regenerative Agriculture".to_string()],
            available_next_cycle: true,
        })
    );
}

#[test]
fn test_lock_reason_derives_mass_electrification_or_rule() {
    let state = workshop_state();
    let mass_electrification = index_of(&state, "Mass Electrification");

    assert_eq!(
        workshop_lock_reason(&state, mass_electrification),
        Some(WorkshopLockReason {
            prerequisites: vec![
                "Nuclear Expansion".to_string(),
                "Solar Push".to_string(),
                "Wind Push".to_string(),
            ],
            available_next_cycle: false,
        })
    );
}

#[test]
fn test_workshop_cycle_context_uses_six_five_year_cycles() {
    assert_eq!(workshop_cycle(2022, 2022, 2052), (1, 2022, 2027));
    assert_eq!(workshop_cycle(2047, 2022, 2052), (6, 2047, 2052));
}

/// An affordable, unlocked, inactive policy from the default world.
fn affordable_policy(state: &SessionState) -> usize {
    state
        .projects
        .iter()
        .position(|p| {
            p.kind == ProjectType::Policy
                && !p.locked
                && p.cost > 0
                && p.cost as isize <= WORKSHOP_PC_BUDGET
        })
        .expect("default world has an affordable unlocked policy")
}

#[test]
fn test_toggle_policy_pass_deducts_cost() {
    let mut state = default_state();
    let mut plan_changes = no_plan_changes(state.projects.len());
    WorkshopOpts { active: true }.begin_planning(&mut state);

    let id = affordable_policy(&state);
    let cost = state.projects[id].cost as isize;

    assert!(toggle_policy(&mut state, &mut plan_changes, id));
    assert_eq!(state.political_capital, WORKSHOP_PC_BUDGET - cost);
    assert!(is_passed(&state.projects[id]));
    assert!(plan_changes[id].passed);
}

#[test]
fn test_toggle_policy_same_cycle_repeal_refunds() {
    let mut state = default_state();
    let mut plan_changes = no_plan_changes(state.projects.len());
    WorkshopOpts { active: true }.begin_planning(&mut state);

    let id = affordable_policy(&state);
    assert!(toggle_policy(&mut state, &mut plan_changes, id));
    assert!(toggle_policy(&mut state, &mut plan_changes, id));

    assert_eq!(state.political_capital, WORKSHOP_PC_BUDGET);
    assert!(!is_passed(&state.projects[id]));
    assert!(!plan_changes[id].passed);
}

#[test]
fn test_toggle_policy_earlier_cycle_repeal_does_not_refund() {
    let mut state = default_state();
    let mut plan_changes = no_plan_changes(state.projects.len());
    let id = affordable_policy(&state);

    // Pass in one cycle...
    WorkshopOpts { active: true }.begin_planning(&mut state);
    assert!(toggle_policy(&mut state, &mut plan_changes, id));

    // ...then a new cycle begins: plan changes reset, budget reset.
    plan_changes = no_plan_changes(state.projects.len());
    WorkshopOpts { active: true }.begin_planning(&mut state);

    assert!(toggle_policy(&mut state, &mut plan_changes, id));
    assert_eq!(state.political_capital, WORKSHOP_PC_BUDGET);
    assert!(plan_changes[id].withdrawn);

    // Re-passing within the same cycle undoes the repeal for free.
    assert!(toggle_policy(&mut state, &mut plan_changes, id));
    assert_eq!(state.political_capital, WORKSHOP_PC_BUDGET);
    assert!(!plan_changes[id].withdrawn);
}

#[test]
fn test_toggle_policy_blocked_when_over_budget() {
    let mut state = default_state();
    let mut plan_changes = no_plan_changes(state.projects.len());

    let id = affordable_policy(&state);
    let cost = state.projects[id].cost as isize;
    state.political_capital = cost - 1;

    assert!(!toggle_policy(&mut state, &mut plan_changes, id));
    assert_eq!(state.political_capital, cost - 1);
    assert!(!is_passed(&state.projects[id]));
}

#[test]
fn test_toggle_policy_ignores_locked_projects() {
    let mut state = default_state();
    let mut plan_changes = no_plan_changes(state.projects.len());
    WorkshopOpts { active: true }.begin_planning(&mut state);

    let id = state
        .projects
        .iter()
        .position(|p| p.kind == ProjectType::Policy && p.locked)
        .expect("default world has a locked policy");

    assert!(!toggle_policy(&mut state, &mut plan_changes, id));
    assert_eq!(state.political_capital, WORKSHOP_PC_BUDGET);
}

// --- Further cases of this library ---

#[test]
fn toggle_ignores_cards_that_are_not_policies() {
    let mut state = default_state();
    let mut plan_changes = no_plan_changes(state.projects.len());
    WorkshopOpts { active: true }.begin_planning(&mut state);
    let research = index_of(&state, "Fusion");

    assert!(!toggle_policy(&mut state, &mut plan_changes, research));
    assert_eq!(state.political_capital, WORKSHOP_PC_BUDGET);
    assert_eq!(plan_changes[research], PlanChange::none());
    assert_eq!(state.projects[research].status, Status::Inactive);
}

#[test]
fn cycle_budget_spent_on_cards_passed_this_cycle() {
    // Clicking around a fresh plan: what is left is always the budget
    // less the cost of the cards passed this cycle, never negative.
    let mut state = workshop_state();
    let mut plan_changes = no_plan_changes(state.projects.len());
    WorkshopOpts { active: true }.begin_planning(&mut state);
    let solar = index_of(&state, "Solar Push");
    let wind = index_of(&state, "Wind Push");
    let cats = index_of(&state, "Ban Outdoor Cats");
    let cars = index_of(&state, "Ban Cars");
    for id in [solar, wind, cats, solar, cars, cats, wind, cats] {
        toggle_policy(&mut state, &mut plan_changes, id);
        let committed: usize = state
            .projects
            .iter()
            .zip(plan_changes.iter())
            .filter(|(_, change)| change.passed)
            .map(|(project, _)| project.cost)
            .sum();
        assert_eq!(state.political_capital, WORKSHOP_PC_BUDGET - committed as isize);
        assert!(state.political_capital >= 0);
    }
    // Solar and Wind Push were undone, Ban Cars and Ban Outdoor Cats passed.
    assert!(!is_passed(&state.projects[solar]));
    assert!(!is_passed(&state.projects[wind]));
    assert!(is_passed(&state.projects[cars]));
    assert!(is_passed(&state.projects[cats]));
    assert_eq!(state.political_capital, 10);
}

#[test]
fn toggle_twice_restores_budget_and_plan() {
    let mut state = workshop_state();
    let mut plan_changes = no_plan_changes(state.projects.len());
    WorkshopOpts { active: true }.begin_planning(&mut state);
    let id = index_of(&state, "Degrowth in Developed Regions");
    let before = plan_changes.clone();

    assert!(toggle_policy(&mut state, &mut plan_changes, id));
    assert!(toggle_policy(&mut state, &mut plan_changes, id));
    assert_eq!(state.political_capital, WORKSHOP_PC_BUDGET);
    assert_eq!(plan_changes, before);
    assert!(!is_passed(&state.projects[id]));
}

#[test]
fn passing_an_enabler_marks_the_locked_card_available_next_cycle() {
    let mut state = workshop_state();
    let mut plan_changes = no_plan_changes(state.projects.len());
    WorkshopOpts { active: true }.begin_planning(&mut state);
    let wind = index_of(&state, "Wind Push");
    let mass = index_of(&state, "Mass Electrification");

    assert!(toggle_policy(&mut state, &mut plan_changes, wind));
    let reason = workshop_lock_reason(&state, mass).expect("Mass Electrification has enablers");
    assert!(reason.available_next_cycle);
    // A card nobody unlocks has no reason.
    assert_eq!(workshop_lock_reason(&state, wind), None);
}

#[test]
fn workshop_switch_reads_one_or_true() {
    assert!(WorkshopOpts::from_flag("1").active);
    assert!(WorkshopOpts::from_flag("true").active);
    assert!(!WorkshopOpts::from_flag("").active);
    assert!(!WorkshopOpts::from_flag("yes").active);
    assert!(!WorkshopOpts::from_flag("TRUE").active);
}

#[test]
fn cycle_context_before_start_and_near_end() {
    // Years before the start count as the first cycle.
    assert_eq!(workshop_cycle(2020, 2022, 2052), (1, 2020, 2025));
    // The range never passes the end year.
    assert_eq!(workshop_cycle(2050, 2022, 2052), (6, 2050, 2052));
    assert_eq!(workshop_cycle(usize::MAX - 1, 0, usize::MAX).2, usize::MAX);
}

#[test]
fn theme_titles() {
    assert_eq!(WorkshopTheme::Energy.title(), "Energy");
    assert_eq!(
        WorkshopTheme::IndustryTransportAndGeoengineering.title(),
        "Industry, Transport & Geoengineering"
    );
    assert_eq!(WorkshopTheme::SocietyAndEconomy.title(), "Society & Economy");
}

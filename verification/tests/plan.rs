use hes_game::deck::{Feedstock, Group, Output, PlanChange, Process, Project, ProjectType, SessionState, Status, no_plan_changes};
use hes_game::plan::{
    EventPhase, PageKind, PlanAction, Severity, WorkshopCardState, indices_in_name_order, input_shortage_titles, plan_page_action, top_process, processes_step, ProcessesAction, project_names, get_processes, process_change_notice,
    format_or_list, get_projects, input_shortages, plan_preview_layout, kind_phases, page_phases, production_shortages,
    workshop_budget_line, workshop_card_accepts_clicks, workshop_card_groups, workshop_card_state,
    workshop_card_state_copy, workshop_changed_names, workshop_cycle_heading,
    workshop_header_group, workshop_lock_copy, workshop_plan_step,
    workshop_ready_needs_confirmation, workshop_ready_needs_confirmation_for,
    workshop_selection_summary,
};
use hes_game::workshop::{WorkshopLockReason, WorkshopTheme, toggle_policy};

fn project(status: Status, locked: bool, cost: usize) -> Project {
    Project {
        id: 0,
        name: String::new(),
        kind: ProjectType::Policy,
        group: Group::Other,
        locked,
        status,
        cost,
        unlocks: vec![],
        has_upgrades: false,
    }
}

fn named(name: &str, cost: usize) -> Project {
    Project {
        id: 0,
        name: name.to_string(),
        ..project(Status::Inactive, false, cost)
    }
}

fn session(projects: Vec<Project>, political_capital: isize) -> SessionState {
    SessionState {
        political_capital,
        projects,
        flags: vec![],
        year: 2022,
        death_year: 2052,
    }
}

#[test]
fn all_six_workshop_card_states_are_distinct() {
    let available = project(Status::Inactive, false, 10);
    let active = project(Status::Active, false, 10);
    let locked = project(Status::Inactive, true, 10);
    let selected = PlanChange {
        passed: true,
        ..PlanChange::none()
    };
    let repealed = PlanChange {
        withdrawn: true,
        ..PlanChange::none()
    };

    assert_eq!(
        workshop_card_state(&available, None, 30),
        WorkshopCardState::Available
    );
    assert_eq!(
        workshop_card_state(&available, Some(&selected), 20),
        WorkshopCardState::SelectedThisCycle
    );
    assert_eq!(
        workshop_card_state(&active, None, 30),
        WorkshopCardState::ActiveFromEarlierCycle
    );
    assert_eq!(
        workshop_card_state(&available, Some(&repealed), 30),
        WorkshopCardState::RepealedThisCycle
    );
    assert_eq!(
        workshop_card_state(&available, None, 5),
        WorkshopCardState::OverBudget
    );
    assert_eq!(
        workshop_card_state(&locked, None, 30),
        WorkshopCardState::Locked
    );
}

#[test]
fn over_budget_copy_names_required_and_remaining_pc() {
    let project = project(Status::Inactive, false, 15);

    assert_eq!(
        workshop_card_state_copy(WorkshopCardState::OverBudget, &project, 10),
        "OVER BUDGET · Requires 15 PC · Remaining: 10 PC"
    );
}

#[test]
fn lock_copy_names_single_and_or_prerequisites_with_timing() {
    assert_eq!(
        workshop_lock_copy(Some(&WorkshopLockReason {
            prerequisites: vec!["Regenerative Agriculture".to_string()],
            available_next_cycle: false,
        })),
        "Requires Regenerative Agriculture. Pass it first; available next cycle."
    );
    assert_eq!(
        workshop_lock_copy(Some(&WorkshopLockReason {
            prerequisites: vec![
                "Nuclear Expansion".to_string(),
                "Solar Push".to_string(),
                "Wind Push".to_string(),
            ],
            available_next_cycle: false,
        })),
        "Requires any one (OR): Nuclear Expansion, Solar Push, or Wind Push. Pass one first; available next cycle."
    );
    assert_eq!(
        workshop_lock_copy(Some(&WorkshopLockReason {
            prerequisites: vec!["Regenerative Agriculture".to_string()],
            available_next_cycle: true,
        })),
        "Requirement met: Regenerative Agriculture. Available next cycle."
    );
}

#[test]
fn ready_confirmation_is_only_required_for_no_change_or_unused_budget() {
    let no_changes = no_plan_changes(1);
    let mut meaningful_changes = no_plan_changes(1);
    meaningful_changes[0].passed = true;

    assert!(workshop_ready_needs_confirmation_for(&no_changes, 30));
    assert!(workshop_ready_needs_confirmation_for(&meaningful_changes, 30));
    assert!(!workshop_ready_needs_confirmation_for(&meaningful_changes, 20));
}

// --- Further cases of this library ---

#[test]
fn card_state_precedence_and_negative_budget() {
    let finished = project(Status::Finished, false, 10);
    let halted = project(Status::Halted, false, 10);
    let locked_active = project(Status::Active, true, 10);
    assert_eq!(
        workshop_card_state(&finished, None, 0),
        WorkshopCardState::ActiveFromEarlierCycle
    );
    assert_eq!(workshop_card_state(&halted, None, 10), WorkshopCardState::Available);
    assert_eq!(workshop_card_state(&halted, None, -3), WorkshopCardState::OverBudget);
    assert_eq!(workshop_card_state(&locked_active, None, 30), WorkshopCardState::Locked);
    assert_eq!(
        workshop_card_state(&halted, Some(&PlanChange::none()), 30),
        WorkshopCardState::Available
    );
}

#[test]
fn card_state_copy_for_every_state() {
    let p = project(Status::Inactive, false, 5);
    assert_eq!(
        workshop_card_state_copy(WorkshopCardState::Available, &p, 30),
        "AVAILABLE · Select to pass · 5 PC"
    );
    assert_eq!(
        workshop_card_state_copy(WorkshopCardState::SelectedThisCycle, &p, 30),
        "SELECTED THIS CYCLE · Select again to undo"
    );
    assert_eq!(
        workshop_card_state_copy(WorkshopCardState::ActiveFromEarlierCycle, &p, 30),
        "ACTIVE FROM EARLIER CYCLE · Select to repeal"
    );
    assert_eq!(
        workshop_card_state_copy(WorkshopCardState::RepealedThisCycle, &p, 30),
        "REPEALED THIS CYCLE · Select again to restore"
    );
    assert_eq!(
        workshop_card_state_copy(WorkshopCardState::Locked, &p, 30),
        "LOCKED · prerequisite required"
    );
    assert_eq!(
        workshop_card_state_copy(WorkshopCardState::OverBudget, &project(Status::Inactive, false, 120), -7),
        "OVER BUDGET · Requires 120 PC · Remaining: -7 PC"
    );
}

#[test]
fn lock_copy_or_rule_already_met_and_no_reason() {
    assert_eq!(
        workshop_lock_copy(Some(&WorkshopLockReason {
            prerequisites: vec!["Solar Push".to_string(), "Wind Push".to_string()],
            available_next_cycle: true,
        })),
        "Requirement met (OR: Solar Push or Wind Push). Available next cycle."
    );
    assert_eq!(workshop_lock_copy(None), "Locked for this workshop.");
}

#[test]
fn or_lists() {
    let items = |v: &[&str]| v.iter().map(|s| s.to_string()).collect::<Vec<_>>();
    assert_eq!(format_or_list(&items(&[])), "");
    assert_eq!(format_or_list(&items(&["a"])), "a");
    assert_eq!(format_or_list(&items(&["a", "b"])), "a or b");
    assert_eq!(format_or_list(&items(&["a", "b", "c", "d"])), "a, b, c, or d");
}

#[test]
fn ready_confirmation_for_the_session() {
    let state = session(vec![named("Solar Push", 15)], 30);
    let changes = no_plan_changes(1);
    assert!(workshop_ready_needs_confirmation(&state, &changes));
    let mut repealed = no_plan_changes(1);
    repealed[0].withdrawn = true;
    let spent = session(vec![named("Solar Push", 15)], 15);
    assert!(!workshop_ready_needs_confirmation(&spent, &repealed));
}

#[test]
fn card_groups_follow_themes_and_lowercase_names() {
    let state = session(
        vec![
            named("Wind Push", 15),
            named("Luxury for All", 15),
            named("Solar Push", 15),
            named("Universal Family Planning", 10),
            named("Ban Cars", 15),
            named("Energy Quotas", 10),
            named("Restrict Air Travel", 5),
        ],
        30,
    );
    let groups = workshop_card_groups(&state);
    let themes: Vec<_> = groups.iter().map(|(t, _)| *t).collect();
    assert_eq!(themes, WorkshopTheme::all().to_vec());
    assert_eq!(groups[0].1, vec![5, 2, 0]);
    assert_eq!(groups[1].1, Vec::<usize>::new());
    assert_eq!(groups[3].1, vec![4, 6]);
    assert_eq!(groups[4].1, vec![1]);
}

#[test]
fn name_order_is_case_insensitive_and_stable() {
    let projects = vec![named("beta", 1), named("Alpha", 1), named("BETA", 1), named("gamma", 1)];
    let names = project_names(&projects);
    assert_eq!(names, vec!["beta".to_string(), "Alpha".to_string(), "BETA".to_string(), "gamma".to_string()]);
    let ids = indices_in_name_order(&names, &vec![true, true, true, false]);
    assert_eq!(ids, vec![1, 0, 2]);
}

#[test]
fn selection_summary_lists_sorted_changes() {
    let mut state = session(
        vec![named("Wind Push", 15), named("Ban Cars", 15), named("Solar Push", 15)],
        60,
    );
    let mut changes = no_plan_changes(3);
    toggle_policy(&mut state, &mut changes, 0);
    toggle_policy(&mut state, &mut changes, 2);
    let passing = workshop_changed_names(&state, &changes, true);
    let repealing = workshop_changed_names(&state, &changes, false);
    assert_eq!(passing, vec!["Solar Push".to_string(), "Wind Push".to_string()]);
    assert!(repealing.is_empty());
    assert_eq!(
        workshop_selection_summary(&passing, &repealing),
        "Choices this cycle · Passing: Solar Push, Wind Push"
    );
    assert_eq!(
        workshop_selection_summary(&[], &[]),
        "Choices this cycle: No changes selected."
    );
    assert_eq!(
        workshop_selection_summary(&[], &["Ban Cars".to_string()]),
        "Choices this cycle · Repealing: Ban Cars"
    );
    assert_eq!(
        workshop_selection_summary(&["A".to_string()], &["B".to_string(), "C".to_string()]),
        "Choices this cycle · Passing: A · Repealing: B, C"
    );
}

#[test]
fn clicks_follow_the_shown_state() {
    let mut state = session(vec![named("Solar Push", 15), named("Ban Cars", 15)], 20);
    let mut changes = no_plan_changes(2);
    assert!(workshop_card_accepts_clicks(workshop_card_state(&state.projects[0], Some(&changes[0]), 20)));
    assert!(toggle_policy(&mut state, &mut changes, 0));
    let shown = workshop_card_state(&state.projects[1], Some(&changes[1]), state.political_capital);
    assert_eq!(shown, WorkshopCardState::OverBudget);
    assert!(!workshop_card_accepts_clicks(shown));
    assert!(!toggle_policy(&mut state, &mut changes, 1));
    assert_eq!(
        workshop_card_state(&state.projects[0], Some(&changes[0]), state.political_capital),
        WorkshopCardState::SelectedThisCycle
    );
}

#[test]
fn header_lines() {
    assert_eq!(workshop_cycle_heading(3, 2032, 2037), "Cycle 3 of 6 · 2032–2037");
    assert_eq!(workshop_budget_line(25), "25/30 PC this cycle");
    assert_eq!(workshop_budget_line(0), "0/30 PC this cycle");
    assert_eq!(workshop_header_group(WorkshopTheme::LandAndBiodiversity), Group::Restoration);
    assert_eq!(workshop_header_group(WorkshopTheme::SocietyAndEconomy), Group::Limits);
}

#[test]
fn shortage_messages() {
    assert_eq!(production_shortages(&[]), None);
    assert_eq!(
        production_shortages(&[("Electricity".to_string(), Severity::Severe)]),
        Some("There is a severe production shortage: Electricity".to_string())
    );
    assert_eq!(
        production_shortages(&[
            ("Fuel".to_string(), Severity::Mild),
            ("Crops".to_string(), Severity::Critical),
        ]),
        Some("There are multiple production shortages: Fuel (mild)\nCrops (critical)".to_string())
    );
    assert_eq!(input_shortages(&[]), None);
    assert_eq!(
        input_shortages(&["Land".to_string(), "Water".to_string()]),
        Some("There is not enough Land, Water. You should change your production mixes to use less of these or reduce demand elsewhere.".to_string())
    );
}

#[test]
fn ready_button_steps() {
    // Needs confirmation: the first click only arms it, the second leaves.
    let (armed, action) = workshop_plan_step(true, false, true, false);
    assert!(armed);
    assert!(action.is_none());
    let (armed, action) = workshop_plan_step(true, armed, true, false);
    assert!(!armed);
    assert!(matches!(action, Some(PlanAction::EnterWorld)));
    // No confirmation needed: one click leaves.
    assert!(matches!(workshop_plan_step(false, false, true, false).1, Some(PlanAction::EnterWorld)));
    // A card change disarms and reports the change.
    let (armed, action) = workshop_plan_step(true, true, false, true);
    assert!(!armed);
    assert!(matches!(action, Some(PlanAction::PlanChanged)));
}

#[test]
fn page_and_kind_phases() {
    assert_eq!(page_phases(PageKind::Projects), vec![EventPhase::PlanningAdd, EventPhase::PlanningResearch]);
    assert_eq!(page_phases(PageKind::All), vec![EventPhase::PlanningPlan]);
    assert_eq!(kind_phases(ProjectType::Initiative), vec![EventPhase::PlanningInitiatives]);
}

#[test]
fn projects_page_filters_and_orders_cards() {
    let mut cards = vec![
        named("zebra policy", 5),
        Project { status: Status::Active, ..named("Active Untouched", 5) },
        Project { status: Status::Active, ..named("active touched", 5) },
        Project { status: Status::Finished, has_upgrades: true, ..named("Finished Upgradable", 5) },
        Project { locked: true, ..named("Locked", 5) },
        Project { kind: ProjectType::Research, ..named("Research", 5) },
        named("Excluded By Locker", 5),
    ];
    cards[0].name = "Zebra Policy".to_string();
    let state = session(cards, 30);
    let touched = vec![false, false, true, false, false, false, false];
    let lockers = vec![None, None, None, None, None, None, Some(2)];
    assert_eq!(
        get_projects(&state, ProjectType::Policy, &touched, &lockers, false),
        vec![2, 3, 0]
    );
    assert_eq!(
        get_projects(&state, ProjectType::Policy, &touched, &lockers, true),
        vec![2, 3, 4, 0]
    );
    assert_eq!(get_projects(&state, ProjectType::Research, &touched, &lockers, false), vec![5]);
}

#[test]
fn plan_preview_rows() {
    let (top, bottom, view_all) = plan_preview_layout(&vec![7, 8, 9], 5);
    assert_eq!(top, vec![Some(7), Some(8)]);
    assert_eq!(bottom, vec![Some(9), None, None]);
    assert!(!view_all);
    let (top, bottom, view_all) = plan_preview_layout(&vec![1, 2, 3, 4, 5, 6], 5);
    assert_eq!(top, vec![Some(1), Some(2)]);
    assert_eq!(bottom, vec![Some(3), Some(4)]);
    assert!(view_all);
    let (top, bottom, view_all) = plan_preview_layout(&vec![], 9);
    assert_eq!(top, vec![None; 4]);
    assert_eq!(bottom, vec![None; 5]);
    assert!(!view_all);
}

fn process(name: &str, output: Output, locked: bool) -> Process {
    Process { name: name.to_string(), output, locked, mix_share: 0 }
}

fn mixed(name: &str, output: Output, mix_share: usize) -> Process {
    Process { name: name.to_string(), output, locked: false, mix_share }
}

#[test]
fn processes_are_filtered_by_sector_and_lock_and_sorted_by_name() {
    let processes = vec![
        process("Wind", Output::Electricity, false),
        process("coal power", Output::Electricity, false),
        process("Fusion", Output::Electricity, true),
        process("Biofuel", Output::Fuel, false),
        process("Solar", Output::Electricity, false),
    ];
    assert_eq!(get_processes(&processes, Output::Electricity, false), vec![1, 4, 0]);
    assert_eq!(get_processes(&processes, Output::Electricity, true), vec![1, 2, 4, 0]);
    assert_eq!(get_processes(&processes, Output::Fuel, false), vec![3]);
    assert_eq!(get_processes(&processes, Output::AnimalCalories, true), Vec::<usize>::new());
}

#[test]
fn change_notice_uses_plural_only_above_one_cycle() {
    assert_eq!(process_change_notice(1), "These changes will take 1 planning cycle to take effect.");
    assert_eq!(process_change_notice(3), "These changes will take 3 planning cycles to take effect.");
}

#[test]
fn page_change_reports_the_phases_of_the_new_page() {
    match plan_page_action(PageKind::Overview, PageKind::Processes, None) {
        Some(PlanAction::PageChanged(phases)) => assert_eq!(phases, vec![EventPhase::PlanningProcesses]),
        _ => panic!("expected a page change"),
    }
    match plan_page_action(PageKind::Projects, PageKind::Overview, Some(PlanAction::PlanChanged)) {
        Some(PlanAction::PageChanged(phases)) => assert_eq!(phases, vec![EventPhase::PlanningPlan]),
        _ => panic!("expected a page change"),
    }
    assert!(matches!(
        plan_page_action(PageKind::Projects, PageKind::Projects, Some(PlanAction::PlanChanged)),
        Some(PlanAction::PlanChanged)
    ));
    assert!(plan_page_action(PageKind::All, PageKind::All, None).is_none());
}

#[test]
fn process_page_leaves_only_with_every_point_assigned() {
    // Back is honoured only while no point is left unassigned.
    assert_eq!(processes_step(0, true, 0, false, false), (true, 0, Some(ProcessesAction::Back)));
    assert_eq!(processes_step(2, true, 2, false, true), (false, 2, None));
    // A card change reports the new mix once every point is assigned.
    assert_eq!(processes_step(1, false, 0, true, true), (false, 0, Some(ProcessesAction::Changed)));
    assert_eq!(processes_step(0, false, 1, true, true), (true, 1, None));
    assert_eq!(processes_step(0, false, 0, true, false), (true, 0, None));
    // The change takes precedence over Back; negative points count as none.
    assert_eq!(processes_step(0, true, -3, true, true), (true, 0, Some(ProcessesAction::Changed)));
}

#[test]
fn overview_shows_the_largest_share_of_each_sector_last_on_ties() {
    let processes = vec![
        mixed("Coal", Output::Electricity, 8),
        mixed("Oil", Output::Fuel, 20),
        mixed("Solar", Output::Electricity, 8),
        mixed("Wind", Output::Electricity, 4),
        mixed("Biofuel", Output::Fuel, 0),
    ];
    assert_eq!(top_process(&processes, Output::Electricity), 2);
    assert_eq!(top_process(&processes, Output::Fuel), 1);
}

#[test]
fn input_shortages_leave_out_other_and_soil() {
    let resources = vec![
        ("Land".to_string(), false),
        ("Water".to_string(), true),
        ("Energy".to_string(), true),
    ];
    let feedstocks = vec![
        (Feedstock::Other, "Other".to_string(), true),
        (Feedstock::Coal, "Coal".to_string(), true),
        (Feedstock::Oil, "Oil".to_string(), false),
        (Feedstock::Soil, "Soil".to_string(), true),
        (Feedstock::Uranium, "Uranium".to_string(), true),
    ];
    let titles = input_shortage_titles(&resources, &feedstocks);
    assert_eq!(titles, vec!["Water".to_string(), "Energy".to_string(), "Coal".to_string(), "Uranium".to_string()]);
    assert_eq!(
        input_shortages(&titles).unwrap(),
        "There is not enough Water, Energy, Coal, Uranium. You should change your production mixes to use less of these or reduce demand elsewhere."
    );
}

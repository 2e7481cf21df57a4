use hes_game::deck::{Group, Project, ProjectType, SessionState, Status, no_plan_changes};
use hes_game::report::{
    HONEYMOON_PC, Income, ReportRow, report_rows, MixLog, NPCRequest, WorkshopCycleRecord, WorkshopPolicyAction,
    WorkshopPolicyChoice, build_workshop_report_data, choice_label, completed_project_names, format_year_log, history_log,
    honeymoon_pc, record_workshop_cycle, report_honeymoon_pc, region_income_line, region_rows, report_pc_change,
    request_label, workshop_history_line,
};
use hes_game::workshop::{WorkshopOpts, toggle_policy};

fn named(name: &str, cost: usize) -> Project {
    Project {
        id: 0,
        name: name.to_string(),
        kind: ProjectType::Policy,
        group: Group::Other,
        locked: false,
        status: Status::Inactive,
        cost,
        unlocks: vec![],
        has_upgrades: false,
    }
}

fn choice(name: &str, action: WorkshopPolicyAction) -> WorkshopPolicyChoice {
    WorkshopPolicyChoice {
        name: name.to_string(),
        action,
    }
}

#[test]
fn report_records_choices_of_the_cycle() {
    let mut state = SessionState {
        political_capital: 0,
        projects: vec![named("Solar Push", 15), named("Ban Cars", 15), named("Luxury for All", 15)],
        flags: vec![],
        year: 2022,
        death_year: 2052,
    };
    let opts = WorkshopOpts { active: true };
    let mut history = vec![];

    // Cycle one: pass Ban Cars and Luxury for All.
    opts.begin_planning(&mut state);
    let mut changes = no_plan_changes(3);
    toggle_policy(&mut state, &mut changes, 2);
    toggle_policy(&mut state, &mut changes, 1);
    let first = build_workshop_report_data(&state, &changes, &mut history, 2022, 2027);
    assert_eq!(
        first,
        WorkshopCycleRecord {
            cycle: 1,
            start_year: 2022,
            end_year: 2027,
            choices: vec![
                choice("Ban Cars", WorkshopPolicyAction::Passed),
                choice("Luxury for All", WorkshopPolicyAction::Passed),
            ],
        }
    );

    // Cycle two: repeal Ban Cars.
    opts.begin_planning(&mut state);
    let mut changes = no_plan_changes(3);
    toggle_policy(&mut state, &mut changes, 1);
    let second = build_workshop_report_data(&state, &changes, &mut history, 2027, 2032);
    assert_eq!(second.cycle, 2);
    assert_eq!(second.choices, vec![choice("Ban Cars", WorkshopPolicyAction::Repealed)]);
    assert_eq!(history, vec![first, second]);
}

#[test]
fn history_lines_of_the_debrief() {
    let mut history = vec![];
    let record = record_workshop_cycle(
        &mut history,
        2047,
        2052,
        vec![
            choice("Solar Push", WorkshopPolicyAction::Passed),
            choice("Ban Cars", WorkshopPolicyAction::Repealed),
        ],
    );
    assert_eq!(record.cycle, 1);
    assert_eq!(
        workshop_history_line(&record),
        "Cycle 1 (2047–2052): Passed: Solar Push · Repealed: Ban Cars"
    );
    let empty = record_workshop_cycle(&mut history, 2052, 2057, vec![]);
    assert_eq!(empty.cycle, 2);
    assert_eq!(workshop_history_line(&empty), "Cycle 2 (2052–2057): No policy changes");
    assert_eq!(
        choice_label(&choice("Meatless Mondays", WorkshopPolicyAction::Passed)),
        "Passed: Meatless Mondays"
    );
}

#[test]
fn honeymoon_bonus_within_its_years() {
    assert_eq!(honeymoon_pc(2027, 2022), HONEYMOON_PC);
    assert_eq!(honeymoon_pc(2031, 2022), HONEYMOON_PC);
    assert_eq!(honeymoon_pc(2032, 2022), 0);
    assert_eq!(honeymoon_pc(2040, 2022), 0);
    assert_eq!(honeymoon_pc(2020, 2022), HONEYMOON_PC);
}

#[test]
fn report_awards() {
    // Workshop mode awards nothing.
    assert_eq!(report_pc_change(true, &[5, -3], &[10], 2, 15), 0);
    // Otherwise: rows + bounties + 5 per completed project + bonus.
    assert_eq!(report_pc_change(false, &[5, -3, 0], &[10, 4], 2, 15), 5 - 3 + 10 + 4 + 10 + 15);
    assert_eq!(report_pc_change(false, &[], &[], 0, 0), 0);
    assert_eq!(report_pc_change(false, &[-20], &[], 1, 0), -15);
}

#[test]
fn request_lines() {
    assert_eq!(
        request_label(NPCRequest::Project, true, "Ban Cars"),
        "Completed Request: Implement Ban Cars"
    );
    assert_eq!(
        request_label(NPCRequest::Project, false, "Ban Cars"),
        "Completed Request: Stop Ban Cars"
    );
    assert_eq!(
        request_label(NPCRequest::Process, true, "Nuclear"),
        "Completed Request: Unban Nuclear"
    );
    assert_eq!(
        request_label(NPCRequest::Process, false, "Coal"),
        "Completed Request: Ban Coal"
    );
}

#[test]
fn regions_whose_income_changed() {
    let regions = vec![
        ("Andes".to_string(), Income::LowerMiddle),
        ("Caribbean".to_string(), Income::High),
        ("Sahel".to_string(), Income::Low),
    ];
    let start = [Income::Low, Income::High, Income::Low];
    assert_eq!(region_rows(&regions, &start), vec![("Andes".to_string(), Income::LowerMiddle)]);
    // Regions beyond the recorded start incomes are not compared.
    assert_eq!(region_rows(&regions, &start[..1]), vec![("Andes".to_string(), Income::LowerMiddle)]);
    assert_eq!(
        region_income_line("Andes", Income::LowerMiddle),
        "Andes is now lower-middle income."
    );
    assert_eq!(region_income_line("Sahel", Income::UpperMiddle), "Sahel is now upper-middle income.");
}

#[test]
fn year_log_lists_changes_and_mixes() {
    let log = format_year_log(
        2027,
        &["Emissions -2.0".to_string(), "Temperature +0.1".to_string()],
        &[
            MixLog {
                output: "Electricity".to_string(),
                shares: vec![("Solar".to_string(), 5), ("Coal".to_string(), 15)],
            },
            MixLog { output: "Fuel".to_string(), shares: vec![] },
        ],
    );
    assert_eq!(
        log,
        "\n[2027]\nEmissions -2.0\nTemperature +0.1\nProduction Mix:\n  [Electricity]\n    Solar:5\n    Coal:15\n  [Fuel]"
    );
}

#[test]
fn report_records_what_the_ready_bar_listed() {
    let mut state = SessionState {
        political_capital: 30,
        projects: vec![named("Wind Push", 15), named("Ban Cars", 15), named("Solar Push", 15)],
        flags: vec![],
        year: 2027,
        death_year: 2052,
    };
    state.projects[1].status = Status::Active;
    let mut changes = no_plan_changes(3);
    toggle_policy(&mut state, &mut changes, 2);
    toggle_policy(&mut state, &mut changes, 1);
    let passing = hes_game::plan::workshop_changed_names(&state, &changes, true);
    let repealing = hes_game::plan::workshop_changed_names(&state, &changes, false);
    let mut history = vec![];
    let record = build_workshop_report_data(&state, &changes, &mut history, 2027, 2032);
    let names = |action| {
        record
            .choices
            .iter()
            .filter(|c| c.action == action)
            .map(|c| c.name.clone())
            .collect::<Vec<_>>()
    };
    assert_eq!(names(WorkshopPolicyAction::Passed), passing);
    assert_eq!(names(WorkshopPolicyAction::Repealed), repealing);
    assert_eq!(repealing, vec!["Ban Cars".to_string()]);
}

#[test]
fn report_rows_by_mode() {
    let (rows, secondary) = report_rows(true);
    assert_eq!(
        rows,
        vec![
            ReportRow::Emissions,
            ReportRow::Temperature,
            ReportRow::Extinction,
            ReportRow::EnergySupplied,
            ReportRow::CaloriesSupplied,
        ]
    );
    assert_eq!(secondary, vec![ReportRow::Contentedness]);
    let (rows, secondary) = report_rows(false);
    assert_eq!(
        rows,
        vec![ReportRow::Temperature, ReportRow::Contentedness, ReportRow::Extinction, ReportRow::Emissions]
    );
    assert!(secondary.is_empty());
}

#[test]
fn history_log_pairs_each_year_with_its_mixes() {
    let changes = vec![
        (2022, vec!["Passed Solar Push".to_string()]),
        (2027, vec![]),
        (2032, vec!["Repealed Ban Cars".to_string()]),
    ];
    let mixes = vec![
        vec![MixLog { output: "Fuel".to_string(), shares: vec![("Oil".to_string(), 20)] }],
        vec![],
    ];
    let log = history_log(&changes, &mixes);
    assert_eq!(log.len(), 2);
    assert_eq!(log[0], "\n[2022]\nPassed Solar Push\nProduction Mix:\n  [Fuel]\n    Oil:20");
    assert_eq!(log[1], "\n[2027]\n\nProduction Mix:\n");
    assert!(history_log(&changes, &vec![]).is_empty());
}

#[test]
fn completed_projects_are_listed_by_name_in_completion_order() {
    let projects = vec![named("Wind Push", 15), named("Ban Cars", 10), named("Solar Push", 5)];
    assert_eq!(
        completed_project_names(&projects, &vec![2, 0]),
        vec!["Solar Push".to_string(), "Wind Push".to_string()]
    );
    assert!(completed_project_names(&projects, &vec![]).is_empty());
}

#[test]
fn no_honeymoon_bonus_in_workshop_mode() {
    assert_eq!(report_honeymoon_pc(true, 2025, 2022), 0);
    assert_eq!(report_honeymoon_pc(false, 2025, 2022), HONEYMOON_PC);
    assert_eq!(report_honeymoon_pc(false, 2040, 2022), 0);
}

#[test]
fn report_lists_choices_in_the_order_of_card_identifiers() {
    let mut deck = vec![named("Wind Push", 5), named("Ban Cars", 5), named("Solar Push", 5), named("Luxury for All", 5)];
    deck[0].id = 0x9f00;
    deck[1].id = 0x0a00;
    deck[2].id = 0x5500;
    deck[3].id = 0x0a00;
    let state = SessionState { political_capital: 30, projects: deck, flags: vec![], year: 2022, death_year: 2052 };
    let mut changes = no_plan_changes(4);
    changes[0].passed = true;
    changes[1].withdrawn = true;
    changes[2].passed = true;
    changes[3].passed = true;
    let mut history = vec![];
    let record = build_workshop_report_data(&state, &changes, &mut history, 2022, 2027);
    assert_eq!(
        record.choices,
        vec![
            choice("Ban Cars", WorkshopPolicyAction::Repealed),
            choice("Luxury for All", WorkshopPolicyAction::Passed),
            choice("Solar Push", WorkshopPolicyAction::Passed),
            choice("Wind Push", WorkshopPolicyAction::Passed),
        ]
    );
    assert_eq!(history, vec![record]);
}

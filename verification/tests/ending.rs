use hes_game::plan::EventPhase;
use hes_game::deck::{Flag, Group, Project, ProjectType, Status};
use hes_game::ending::{Badge, EndFacts, Ending, ProcessFeature, ProcessMix, end_event_phase, ending_for, eval_badges, summarize};

fn project(name: &str, group: Group, status: Status) -> Project {
    Project {
        id: 0,
        name: name.to_string(),
        kind: ProjectType::Initiative,
        group,
        locked: false,
        status,
        cost: 0,
        unlocks: vec![],
        has_upgrades: false,
    }
}

fn process(features: Vec<ProcessFeature>, mix_share: usize) -> ProcessMix {
    ProcessMix { features, mix_share }
}

fn quiet_world() -> EndFacts {
    EndFacts {
        regions_seceded: vec![false, false],
        flags: vec![],
        projects: vec![],
        processes: vec![process(vec![ProcessFeature::IsSolar], 20)],
        extinction_at_most_15: false,
        extinction_at_least_60: false,
        animal_calorie_demand_at_least_2e15: false,
        animal_calorie_demand_below_2e14: false,
    }
}

#[test]
fn normal_ending_summary_retains_faction_result_path() {
    let facts = quiet_world();

    let summary = summarize(&facts, true, 2052, 2082, 0, "The Accelerationist".to_string());

    assert!(matches!(summary.ending, Ending::Win));
    assert!(!summary.faction.is_empty());
    assert_eq!(summary.faction, "The Accelerationist");
    assert_eq!(
        summary.badges.iter().map(|b| b.description().to_string()).collect::<Vec<_>>(),
        eval_badges(&facts).iter().map(|b| b.description().to_string()).collect::<Vec<_>>()
    );
    assert!(summary.badges.is_empty());

    let mut vegan = quiet_world();
    vegan.animal_calorie_demand_below_2e14 = true;
    let summary = summarize(&vegan, false, 2060, 2082, 0, "The Ecologist".to_string());
    assert_eq!(summary.ending, Ending::Coup);
    assert_eq!(summary.badges, vec![Badge::Vegan]);
}

#[test]
fn endings_in_order_of_precedence() {
    assert_eq!(ending_for(true, 2090, 2082, -5), Ending::Win);
    assert_eq!(ending_for(false, 2082, 2082, -5), Ending::Died);
    assert_eq!(ending_for(false, 2050, 2082, 0), Ending::Coup);
    assert_eq!(ending_for(false, 2050, 2082, 12), Ending::LostOther);
}

#[test]
fn badges_earned() {
    let facts = EndFacts {
        regions_seceded: vec![false, true],
        flags: vec![Flag::AlienEncounter],
        projects: vec![
            project("Mass Electrification", Group::Electrification, Status::Active),
            project("Space Elevator", Group::Space, Status::Finished),
            project("Moon Base", Group::Space, Status::Active),
            project("Mars Base", Group::Space, Status::Finished),
            project("Asteroid Mining", Group::Space, Status::Building),
        ],
        processes: vec![
            process(vec![ProcessFeature::IsFossil, ProcessFeature::IsCombustion], 1),
            process(vec![ProcessFeature::CanMeltdown], 6),
            process(vec![ProcessFeature::MakesNuclearWaste], 4),
            process(vec![ProcessFeature::IsIntermittent, ProcessFeature::IsSolar], 9),
        ],
        extinction_at_most_15: true,
        extinction_at_least_60: false,
        animal_calorie_demand_at_least_2e15: false,
        animal_calorie_demand_below_2e14: true,
    };
    assert_eq!(
        eval_badges(&facts),
        vec![
            Badge::Seceded,
            Badge::Aliens,
            Badge::Biodiversity,
            Badge::Electrification,
            Badge::FossilFuels,
            Badge::Nuclear,
            Badge::Space,
            Badge::Vegan,
        ]
    );
    assert!(!Badge::Renewables.applies(&facts));
    assert_eq!(eval_badges(&quiet_world()), vec![]);
}

#[test]
fn badge_descriptions() {
    assert_eq!(Badge::Seceded.description(), "At least one region seceded from Gosplant.");
    assert_eq!(Badge::Vegan.description(), "Global diets shifted towards vegan.");
    assert_eq!(Badge::Nuclear.description(), "Nuclear was your preferred form of energy.");
}

#[test]
fn ending_rolls_break_or_end_events_outside_the_workshop() {
    assert_eq!(end_event_phase(true, true), None);
    assert_eq!(end_event_phase(true, false), None);
    assert_eq!(end_event_phase(false, true), Some(EventPhase::BreakStart));
    assert_eq!(end_event_phase(false, false), Some(EventPhase::EndStart));
}

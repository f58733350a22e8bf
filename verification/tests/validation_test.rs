use module_planner::models::CandidatureType;
use module_planner::models::Curriculum;
use module_planner::models::CurriculumComponent;
use module_planner::models::Module;
use module_planner::models::ModuleRegistry;
use module_planner::models::ModuleStatus;
use module_planner::models::Plan;
use module_planner::models::PlannedModule;
use module_planner::models::Requirement;
use module_planner::models::SemesterData;
use module_planner::models::SemesterPlan;
use module_planner::models::Student;
use module_planner::models::check_module_availability;
use module_planner::validation::ValidationLevel;
use module_planner::validation::ValidationResult;
use module_planner::validation::validate_availability;
use module_planner::validation::validate_graduation;
use module_planner::validation::validate_plan;
use module_planner::validation::validate_prerequisites;
use module_planner::validation::validate_workload;

fn module(code: &str, credit: &str, semesters: &[u8]) -> Module {
    Module {
        module_code: code.to_string(),
        title: code.to_string(),
        description: None,
        module_credit: credit.to_string(),
        department: None,
        faculty: None,
        prerequisite: None,
        preclusion: None,
        corequisite: None,
        semester_data: semesters
            .iter()
            .map(|s| SemesterData {
                semester: *s,
                exam_date: None,
                exam_duration: None,
                timetable: None,
            })
            .collect(),
        prereq_tree: None,
        fulfill_requirements: None,
    }
}

fn planned(code: &str, status: ModuleStatus) -> PlannedModule {
    PlannedModule {
        module_code: code.to_string(),
        status,
        grade: None,
        s_u_option: false,
    }
}

fn semester(year: &str, number: u8, modules: Vec<PlannedModule>, total_units: u32) -> SemesterPlan {
    SemesterPlan {
        year: year.to_string(),
        semester: number,
        modules,
        total_units,
        special_activities: vec![],
    }
}

fn student() -> Student {
    Student {
        name: "Test Student".to_string(),
        matriculation_year: "2023/2024".to_string(),
        faculty: "Computing".to_string(),
        major: "Computer Science".to_string(),
        second_major: None,
        minors: vec![],
        completed_modules: Vec::new(),
        exempted_modules: Vec::new(),
        advanced_placement_credits: 0,
        current_semester: 1,
        candidature_type: CandidatureType::Standard,
    }
}

fn curriculum() -> Curriculum {
    Curriculum {
        name: "Computer Science".to_string(),
        academic_year: "2023/2024".to_string(),
        total_units_required: 160,
        max_level1000_units: 40,
        components: vec![CurriculumComponent {
            name: "University Level Requirements".to_string(),
            min_units: 20,
            requirements: vec![Requirement::FixedModule {
                module_code: "GER1000".to_string(),
                name: "Quantitative Reasoning".to_string(),
                units: 4,
            }],
        }],
    }
}

#[test]
fn test_check_module_availability() {
    let m = module("IE1111R", "4", &[1]);
    assert!(check_module_availability(&m, 1));
    assert!(!check_module_availability(&m, 2));
}

#[test]
fn test_prerequisite_error_when_unsatisfied() {
    let mut registry = ModuleRegistry::new();
    let mut cs2030 = module("CS2030S", "4", &[1, 2]);
    cs2030.prereq_tree = Some(module_planner::models::PrereqTree::ModuleCode(
        "CS1010".to_string(),
    ));
    registry.add_module(cs2030);

    let mut plan = Plan::new("p".to_string(), "n".to_string(), "s".to_string());
    plan.semesters.push(semester(
        "2023/2024",
        1,
        vec![planned("CS2030S", ModuleStatus::Planned)],
        4,
    ));

    let mut result = ValidationResult::new();
    validate_prerequisites(&plan, &registry, &student(), &mut result);
    assert_eq!(result.issues.len(), 1);
    assert_eq!(result.issues[0].level, ValidationLevel::Error);
    assert_eq!(result.issues[0].message, "Missing prerequisite");
    assert_eq!(result.issues[0].module_code, Some("CS2030S".to_string()));
    assert_eq!(result.issues[0].semester_index, Some(0));
}

#[test]
fn test_prerequisite_met_by_earlier_semester() {
    let mut registry = ModuleRegistry::new();
    let mut cs2030 = module("CS2030S", "4", &[1, 2]);
    cs2030.prereq_tree = Some(module_planner::models::PrereqTree::ModuleCode(
        "CS1010".to_string(),
    ));
    registry.add_module(cs2030);

    let mut plan = Plan::new("p".to_string(), "n".to_string(), "s".to_string());
    plan.semesters.push(semester(
        "2023/2024",
        1,
        vec![planned("CS1010", ModuleStatus::Completed)],
        4,
    ));
    plan.semesters.push(semester(
        "2023/2024",
        2,
        vec![planned("CS2030S", ModuleStatus::Planned)],
        4,
    ));

    let mut result = ValidationResult::new();
    validate_prerequisites(&plan, &registry, &student(), &mut result);
    assert!(result.issues.is_empty());
}

#[test]
fn test_prerequisite_same_semester_does_not_count() {
    // A completed module in the same semester must not satisfy a
    // prerequisite: only semesters strictly before count.
    let mut registry = ModuleRegistry::new();
    let mut cs2030 = module("CS2030S", "4", &[1, 2]);
    cs2030.prereq_tree = Some(module_planner::models::PrereqTree::ModuleCode(
        "CS1010".to_string(),
    ));
    registry.add_module(cs2030);

    let mut plan = Plan::new("p".to_string(), "n".to_string(), "s".to_string());
    plan.semesters.push(semester(
        "2023/2024",
        1,
        vec![
            planned("CS1010", ModuleStatus::Completed),
            planned("CS2030S", ModuleStatus::Planned),
        ],
        8,
    ));

    let mut result = ValidationResult::new();
    validate_prerequisites(&plan, &registry, &student(), &mut result);
    assert_eq!(result.issues.len(), 1);
    assert_eq!(result.issues[0].module_code, Some("CS2030S".to_string()));
}

#[test]
fn test_prerequisite_met_by_exempted_module() {
    let mut registry = ModuleRegistry::new();
    let mut cs2030 = module("CS2030S", "4", &[1, 2]);
    cs2030.prereq_tree = Some(module_planner::models::PrereqTree::ModuleCode(
        "CS1010".to_string(),
    ));
    registry.add_module(cs2030);

    let mut plan = Plan::new("p".to_string(), "n".to_string(), "s".to_string());
    plan.semesters.push(semester(
        "2023/2024",
        1,
        vec![planned("CS2030S", ModuleStatus::Planned)],
        4,
    ));

    let mut s = student();
    s.exempted_modules.push("CS1010".to_string());
    let mut result = ValidationResult::new();
    validate_prerequisites(&plan, &registry, &s, &mut result);
    assert!(result.issues.is_empty());
}

#[test]
fn test_unknown_prerequisite_is_not_reported() {
    let mut registry = ModuleRegistry::new();
    let mut m = module("IE4000", "4", &[1]);
    m.prereq_tree = Some(module_planner::models::PrereqTree::String(
        "Completed 80 MCs or more".to_string(),
    ));
    registry.add_module(m);

    let mut plan = Plan::new("p".to_string(), "n".to_string(), "s".to_string());
    plan.semesters.push(semester(
        "2023/2024",
        1,
        vec![planned("IE4000", ModuleStatus::Planned)],
        4,
    ));

    let mut result = ValidationResult::new();
    validate_prerequisites(&plan, &registry, &student(), &mut result);
    assert!(result.issues.is_empty());
}

#[test]
fn test_workload_warning_over_limit() {
    let mut registry = ModuleRegistry::new();
    for code in ["A1000", "B1000", "C1000"] {
        registry.add_module(module(code, "8", &[1, 2]));
    }
    let mut plan = Plan::new("p".to_string(), "n".to_string(), "s".to_string());
    plan.semesters.push(semester(
        "2023/2024",
        1,
        vec![
            planned("A1000", ModuleStatus::Planned),
            planned("B1000", ModuleStatus::Planned),
            planned("C1000", ModuleStatus::Planned),
        ],
        24,
    ));
    plan.semesters.push(semester(
        "2023/2024",
        2,
        vec![planned("A1000", ModuleStatus::Planned)],
        8,
    ));

    let mut result = ValidationResult::new();
    validate_workload(&plan, &registry, 20, &mut result);
    assert_eq!(result.issues.len(), 1);
    assert_eq!(result.issues[0].level, ValidationLevel::Warning);
    assert_eq!(result.issues[0].message, "Heavy workload in this semester");
    assert_eq!(result.issues[0].semester_index, Some(0));
}

#[test]
fn test_availability_warning() {
    let mut registry = ModuleRegistry::new();
    registry.add_module(module("IE1111R", "4", &[1]));

    let mut plan = Plan::new("p".to_string(), "n".to_string(), "s".to_string());
    plan.semesters.push(semester(
        "2023/2024",
        2,
        vec![planned("IE1111R", ModuleStatus::Planned)],
        4,
    ));

    let mut result = ValidationResult::new();
    validate_availability(&plan, &registry, &mut result);
    assert_eq!(result.issues.len(), 1);
    assert_eq!(result.issues[0].level, ValidationLevel::Warning);
    assert_eq!(
        result.issues[0].message,
        "Module not offered in this semester"
    );
    assert_eq!(result.issues[0].module_code, Some("IE1111R".to_string()));
    assert_eq!(result.issues[0].semester_index, Some(0));

    // A module the catalog does not know draws no availability finding.
    let mut plan2 = Plan::new("p".to_string(), "n".to_string(), "s".to_string());
    plan2.semesters.push(semester(
        "2023/2024",
        2,
        vec![planned("ZZ9999", ModuleStatus::Planned)],
        4,
    ));
    let mut result2 = ValidationResult::new();
    validate_availability(&plan2, &registry, &mut result2);
    assert!(result2.issues.is_empty());
}

#[test]
fn test_graduation_findings() {
    let registry = ModuleRegistry::new();
    let plan = Plan::new("p".to_string(), "n".to_string(), "s".to_string());
    let cur = curriculum();

    let mut result = ValidationResult::new();
    validate_graduation(&plan, &cur, &registry, &mut result);
    // The empty plan misses the component minimum and the overall total,
    // and cannot exceed the level-1000 cap.
    assert_eq!(result.issues.len(), 2);
    assert_eq!(result.issues[0].level, ValidationLevel::Error);
    assert_eq!(
        result.issues[0].message,
        "Component units below minimum: University Level Requirements"
    );
    assert_eq!(result.issues[1].level, ValidationLevel::Error);
    assert_eq!(
        result.issues[1].message,
        "Total units below curriculum requirement"
    );
}

#[test]
fn test_graduation_level1000_cap() {
    let registry = ModuleRegistry::new();
    let mut plan = Plan::new("p".to_string(), "n".to_string(), "s".to_string());
    // Twelve level-1000 modules at four units each exceed a cap of 40.
    let mods: Vec<PlannedModule> = (0..12)
        .map(|i| planned(&format!("GE{}", 1000 + i), ModuleStatus::Planned))
        .collect();
    plan.semesters.push(semester("2023/2024", 1, mods, 48));

    let mut cur = curriculum();
    cur.total_units_required = 40;
    cur.components = vec![];

    let mut result = ValidationResult::new();
    validate_graduation(&plan, &cur, &registry, &mut result);
    assert_eq!(result.issues.len(), 1);
    assert_eq!(result.issues[0].message, "Level 1000 units exceed maximum");
}

#[test]
fn test_validate_plan_runs_all_checks_in_order() {
    let mut registry = ModuleRegistry::new();
    let mut cs2030 = module("CS2030S", "30", &[1]);
    cs2030.prereq_tree = Some(module_planner::models::PrereqTree::ModuleCode(
        "CS1010".to_string(),
    ));
    registry.add_module(cs2030);

    let mut plan = Plan::new("p".to_string(), "n".to_string(), "s".to_string());
    plan.semesters.push(semester(
        "2023/2024",
        2,
        vec![planned("CS2030S", ModuleStatus::Planned)],
        30,
    ));

    let result = validate_plan(&plan, &student(), &curriculum(), &registry, 24);
    // In order: the prerequisite error, the workload warning, the
    // availability warning, then the two graduation errors.
    assert_eq!(result.issues.len(), 5);
    assert_eq!(result.issues[0].message, "Missing prerequisite");
    assert_eq!(result.issues[1].message, "Heavy workload in this semester");
    assert_eq!(
        result.issues[2].message,
        "Module not offered in this semester"
    );
    assert_eq!(
        result.issues[3].message,
        "Component units below minimum: University Level Requirements"
    );
    assert_eq!(
        result.issues[4].message,
        "Total units below curriculum requirement"
    );
}

#[test]
fn test_validate_plan_is_deterministic() {
    let mut registry = ModuleRegistry::new();
    registry.add_module(module("IE1111R", "4", &[1]));
    let mut plan = Plan::new("p".to_string(), "n".to_string(), "s".to_string());
    plan.semesters.push(semester(
        "2023/2024",
        2,
        vec![planned("IE1111R", ModuleStatus::Planned)],
        4,
    ));

    let first = validate_plan(&plan, &student(), &curriculum(), &registry, 24);
    let second = validate_plan(&plan, &student(), &curriculum(), &registry, 24);
    assert_eq!(first.issues.len(), second.issues.len());
    for (a, b) in first.issues.iter().zip(second.issues.iter()) {
        assert_eq!(a.level, b.level);
        assert_eq!(a.message, b.message);
        assert_eq!(a.module_code, b.module_code);
        assert_eq!(a.semester_index, b.semester_index);
    }
}

#[test]
fn test_clean_plan_has_no_findings() {
    let mut registry = ModuleRegistry::new();
    registry.add_module(module("IE1111R", "4", &[1]));
    let mut plan = Plan::new("p".to_string(), "n".to_string(), "s".to_string());
    plan.semesters.push(semester(
        "2023/2024",
        1,
        vec![planned("IE1111R", ModuleStatus::Planned)],
        4,
    ));

    let mut cur = curriculum();
    cur.total_units_required = 4;
    cur.components = vec![];

    let result = validate_plan(&plan, &student(), &cur, &registry, 24);
    assert!(result.issues.is_empty());
}

#[test]
fn test_validation_result_accumulates() {
    let mut result = ValidationResult::new();
    result.add_error("Missing prerequisite for CS2030S", Some("CS2030S"), None);
    result.add_warning("Heavy workload in this semester", None, Some(1));
    result.add_info("Consider taking more modules to graduate on time", None, None);

    assert_eq!(result.issues.len(), 3);
    assert_eq!(result.issues[0].level, ValidationLevel::Error);
    assert_eq!(
        result.issues[0].message,
        "Missing prerequisite for CS2030S"
    );
    assert_eq!(result.issues[0].module_code, Some("CS2030S".to_string()));
    assert_eq!(result.issues[1].level, ValidationLevel::Warning);
    assert_eq!(result.issues[1].semester_index, Some(1));
    assert_eq!(result.issues[2].level, ValidationLevel::Info);
}

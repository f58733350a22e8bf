use module_planner::models::Module;
use module_planner::models::ModuleRegistry;

fn module_with(code: &str, title: &str, description: &str, prerequisite: Option<&str>) -> Module {
    Module {
        module_code: code.to_string(),
        title: title.to_string(),
        description: Some(description.to_string()),
        module_credit: "4".to_string(),
        department: Some("Industrial Systems Engineering".to_string()),
        faculty: Some("Faculty of Engineering".to_string()),
        prerequisite: prerequisite.map(|s| s.to_string()),
        preclusion: None,
        corequisite: None,
        semester_data: vec![],
        prereq_tree: None,
        fulfill_requirements: Some(vec!["ISE Foundation".to_string()]),
    }
}

#[test]
fn test_module_registry_creation() {
    let registry = ModuleRegistry::new();
    assert!(registry.contains_module("IE1111R") == false);
}

#[test]
fn test_module_registry_add_and_get() {
    let mut registry = ModuleRegistry::new();

    let module = module_with(
        "IE1111R",
        "Industrial Engineering Principles and Practice",
        "This module introduces the fundamental principles of industrial engineering.",
        None,
    );

    registry.add_module(module);

    assert!(registry.contains_module("IE1111R"));
    assert!(!registry.contains_module("IE2130"));

    let retrieved_module = registry.get_module("IE1111R");
    assert!(retrieved_module.is_some());

    let retrieved_module = retrieved_module.unwrap();
    assert_eq!(retrieved_module.module_code, "IE1111R");
    assert_eq!(
        retrieved_module.title,
        "Industrial Engineering Principles and Practice"
    );

    let non_existent_module = registry.get_module("IE2130");
    assert!(non_existent_module.is_none());
}

#[test]
fn test_module_registry_multiple_modules() {
    let mut registry = ModuleRegistry::new();

    let module1 = module_with(
        "IE1111R",
        "Industrial Engineering Principles and Practice",
        "This module introduces the fundamental principles of industrial engineering.",
        None,
    );

    let module2 = module_with(
        "IE2130",
        "Quality Engineering",
        "This module covers statistical quality control and quality management systems.",
        Some("IE1111R"),
    );

    registry.add_module(module1);
    registry.add_module(module2);

    assert!(registry.contains_module("IE1111R"));
    assert!(registry.contains_module("IE2130"));

    let retrieved_module1 = registry.get_module("IE1111R").unwrap();
    let retrieved_module2 = registry.get_module("IE2130").unwrap();

    assert_eq!(retrieved_module1.module_code, "IE1111R");
    assert_eq!(retrieved_module2.module_code, "IE2130");
    assert_eq!(retrieved_module2.prerequisite, Some("IE1111R".to_string()));
}

#[test]
fn test_module_registry_replaces_same_code() {
    let mut registry = ModuleRegistry::new();

    let module1 = module_with("IE1111R", "Old Title", "First entry.", None);
    let mut module2 = module_with("IE1111R", "New Title", "Second entry.", None);
    module2.module_credit = "6".to_string();

    registry.add_module(module1);
    registry.add_module(module2);

    let retrieved = registry.get_module("IE1111R").unwrap();
    assert_eq!(retrieved.title, "New Title");
    assert_eq!(retrieved.credit_value(), 6);
}

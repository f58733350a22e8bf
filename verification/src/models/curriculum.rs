//! Curricula: degree requirements grouped into components.

use vstd::prelude::*;

verus! {

/// A whole curriculum: overall unit floors and caps, and its ordered
/// components.
#[derive(Clone, Debug)]
pub struct Curriculum {
    pub name: String,
    pub academic_year: String,
    pub total_units_required: u32,
    pub max_level1000_units: u32,
    pub components: Vec<CurriculumComponent>,
}

/// One component of a curriculum: a named group of requirements with a
/// minimum unit count.
#[derive(Clone, Debug)]
pub struct CurriculumComponent {
    pub name: String,
    pub min_units: u32,
    pub requirements: Vec<Requirement>,
}

/// One rule within a curriculum component that planned modules can
/// fulfill.
#[derive(Clone, Debug)]
pub enum Requirement {
    /// A single named module worth a fixed number of units.
    FixedModule { module_code: String, name: String, units: u32 },
    /// A minimum number of units chosen from a list of candidate modules.
    ModuleGroup {
        name: String,
        description: Option<String>,
        min_units: u32,
        possible_modules: Vec<String>,
    },
    /// Units to be chosen freely under constraints; never fulfilled
    /// mechanically, only reported.
    Elective {
        name: String,
        description: String,
        min_units: u32,
        level_constraint: Option<Vec<u32>>,
        department_constraint: Option<Vec<String>>,
    },
}

} // verus!

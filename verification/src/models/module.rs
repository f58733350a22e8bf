//! Catalog modules: metadata, offering data, and prerequisite trees.

use vstd::prelude::*;
use crate::text::parse_u32;
use crate::text::spec_parse_u32;

verus! {

/// A module as the catalog describes it. The credit value is kept in its
/// textual form; readings that cannot be parsed count as zero units.
#[derive(Debug)]
pub struct Module {
    pub module_code: String,
    pub title: String,
    pub description: Option<String>,
    pub module_credit: String,
    pub department: Option<String>,
    pub faculty: Option<String>,
    pub prerequisite: Option<String>,
    pub preclusion: Option<String>,
    pub corequisite: Option<String>,
    pub semester_data: Vec<SemesterData>,
    pub prereq_tree: Option<PrereqTree>,
    pub fulfill_requirements: Option<Vec<String>>,
}

/// Offering data of a module for one semester number.
#[derive(Clone, Debug)]
pub struct SemesterData {
    pub semester: u8,
    pub exam_date: Option<String>,
    pub exam_duration: Option<u32>,
    pub timetable: Option<Vec<Lesson>>,
}

/// One timetabled lesson of a module.
#[derive(Clone, Debug)]
pub struct Lesson {
    pub class_no: String,
    pub lesson_type: String,
    pub week_type: WeekType,
    pub day: String,
    pub start_time: String,
    pub end_time: String,
    pub venue: String,
}

/// The weeks in which a lesson runs: either listed outright or as a date
/// range.
#[derive(Clone, Debug)]
pub enum WeekType {
    Weeks(Vec<u8>),
    WeekRange { start: String, end: String, week_interval: Option<u8>, weeks: Option<Vec<u8>> },
}

/// A prerequisite expression: a module code, a conjunction, a
/// disjunction, or free text that cannot be checked mechanically.
#[derive(Debug)]
pub enum PrereqTree {
    ModuleCode(String),
    And { and: Vec<PrereqTree> },
    Or { or: Vec<PrereqTree> },
    String(String),
}

/// The unit value of a module: its textual credit field read as a
/// number, or zero when that reading fails.
pub open spec fn module_credit_value(m: Module) -> nat {
    match spec_parse_u32(m.module_credit@) {
        Some(v) => v as nat,
        None => 0,
    }
}

/// Whether the module is offered in the given semester number.
pub open spec fn offered_in(m: Module, semester: u8) -> bool {
    exists|i: int| 0 <= i < m.semester_data@.len() && m.semester_data@[i].semester == semester
}

impl Module {
    /// The unit value of this module; an unparsable credit field counts
    /// as zero.
    pub fn credit_value(&self) -> (r: u32)
        ensures
            r as nat == module_credit_value(*self),
    {
        match parse_u32(self.module_credit.as_str()) {
            Some(v) => v,
            None => 0,
        }
    }
}

/// Whether the module's offering data lists the given semester number.
pub fn check_module_availability(module: &Module, semester: u8) -> (r: bool)
    ensures
        r == offered_in(*module, semester),
{
    let mut i: usize = 0;
    while i < module.semester_data.len()
        invariant
            i <= module.semester_data@.len(),
            forall|j: int| 0 <= j < i ==> module.semester_data@[j].semester != semester,
        decreases module.semester_data@.len() - i,
    {
        if module.semester_data[i].semester == semester {
            return true;
        }
        i += 1;
    }
    false
}

} // verus!

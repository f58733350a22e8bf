//! Students and candidature types.

use vstd::prelude::*;

verus! {

/// Enrolment programme of a student; each variant maps to a fixed total
/// number of candidature semesters.
#[derive(Clone, Copy, Debug, PartialEq, Eq, Structural)]
pub enum CandidatureType {
    Standard,
    DoubleHonours,
    DoubleDegreeProgramme,
    ConcurrentDegree,
    EngineeringScholars,
}

impl CandidatureType {
    /// The total number of semesters of the candidature.
    pub open spec fn spec_total_semesters(self) -> int {
        match self {
            CandidatureType::Standard => 8,
            CandidatureType::DoubleHonours => 10,
            CandidatureType::DoubleDegreeProgramme => 10,
            CandidatureType::ConcurrentDegree => 10,
            CandidatureType::EngineeringScholars => 8,
        }
    }
}

/// A student profile: identity, programme, progress, and the module sets
/// that count toward prerequisites and requirements.
#[derive(Clone, Debug)]
pub struct Student {
    pub name: String,
    pub matriculation_year: String,
    pub faculty: String,
    pub major: String,
    pub second_major: Option<String>,
    pub minors: Vec<String>,
    pub completed_modules: Vec<String>,
    pub exempted_modules: Vec<String>,
    pub advanced_placement_credits: u32,
    pub current_semester: u8,
    pub candidature_type: CandidatureType,
}

impl Student {
    /// Semesters left until the candidature's nominal total. The current
    /// semester may not exceed that total.
    pub fn remaining_semesters(&self) -> (r: u8)
        requires
            self.current_semester as int <= self.candidature_type.spec_total_semesters(),
        ensures
            r as int == self.candidature_type.spec_total_semesters()
                - self.current_semester as int,
    {
        match self.candidature_type {
            CandidatureType::Standard => 8 - self.current_semester,
            CandidatureType::DoubleHonours => 10 - self.current_semester,
            CandidatureType::DoubleDegreeProgramme => 10 - self.current_semester,
            CandidatureType::ConcurrentDegree => 10 - self.current_semester,
            CandidatureType::EngineeringScholars => 8 - self.current_semester,
        }
    }
}

} // verus!

//! Data model of the planner: modules, curricula, plans, students, and
//! the module registry.

pub mod curriculum;
pub mod module;
pub mod plan;
pub mod registry;
pub mod student;

pub use curriculum::Curriculum;
pub use curriculum::CurriculumComponent;
pub use curriculum::Requirement;
pub use module::Lesson;
pub use module::Module;
pub use module::PrereqTree;
pub use module::SemesterData;
pub use module::WeekType;
pub use module::check_module_availability;
pub use plan::ActivityType;
pub use plan::ModuleStatus;
pub use plan::Plan;
pub use plan::PlannedModule;
pub use plan::SemesterPlan;
pub use plan::SpecialActivity;
pub use registry::ModuleRegistry;
pub use student::CandidatureType;
pub use student::Student;

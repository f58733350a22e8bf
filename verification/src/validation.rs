//! Plan validation: prerequisite, workload, availability, and graduation
//! checks, accumulated as an ordered list of findings.

use vstd::prelude::*;
use vstd::string::StringExecFns;
use crate::capped_u64;
use crate::codes::code_set;
use crate::codes::lemma_code_set_concat;
use crate::codes::lemma_code_set_push;
use crate::codes::push_all_codes;
use crate::credits::calculate_component_units;
use crate::credits::level_units_u64;
use crate::credits::spec_component_credits;
use crate::credits::spec_level_count;
use crate::models::curriculum::Curriculum;
use crate::models::module::check_module_availability;
use crate::models::module::offered_in;
use crate::models::plan::ModuleStatus;
use crate::models::plan::Plan;
use crate::models::plan::PlannedModule;
use crate::models::plan::SemesterPlan;
use crate::models::plan::SpecialActivity;
use crate::models::plan::activity_credit;
use crate::models::plan::cache_total;
use crate::models::plan::plan_code_set;
use crate::models::registry::ModuleRegistry;
use crate::models::registry::reg_credit;
use crate::models::student::Student;
use crate::prereq::TriState;
use crate::prereq::eval_tree;
use crate::prereq::is_satisfied;
use crate::text::spec_dec_str;
use crate::text::u64_to_dec_string;

verus! {

/// Severity of a validation finding.
#[derive(Clone, Copy, Debug, PartialEq, Eq, Structural)]
pub enum ValidationLevel {
    Info,
    Warning,
    Error,
}

/// One validation finding: a severity, a message, and optionally the
/// module and the semester position it concerns.
#[derive(Clone, Debug)]
pub struct ValidationIssue {
    pub level: ValidationLevel,
    pub message: String,
    pub module_code: Option<String>,
    pub semester_index: Option<usize>,
}

/// The mathematical content of one finding.
pub ghost struct Finding {
    pub level: ValidationLevel,
    pub message: Seq<char>,
    pub module_code: Option<Seq<char>>,
    pub semester_index: Option<int>,
}

impl View for ValidationIssue {
    type V = Finding;

    open spec fn view(&self) -> Finding {
        Finding {
            level: self.level,
            message: self.message@,
            module_code: match self.module_code {
                Some(s) => Some(s@),
                None => None,
            },
            semester_index: match self.semester_index {
                Some(i) => Some(i as int),
                None => None,
            },
        }
    }
}

/// An ordered accumulation of findings; an empty list is a clean result.
#[derive(Debug)]
pub struct ValidationResult {
    pub issues: Vec<ValidationIssue>,
}

impl View for ValidationResult {
    type V = Seq<Finding>;

    open spec fn view(&self) -> Seq<Finding> {
        self.issues@.map_values(|issue: ValidationIssue| issue@)
    }
}

impl Default for ValidationResult {
    fn default() -> (r: Self)
        ensures
            r@ == Seq::<Finding>::empty(),
    {
        ValidationResult::new()
    }
}

impl ValidationResult {
    /// An empty result.
    pub fn new() -> (r: ValidationResult)
        ensures
            r@ == Seq::<Finding>::empty(),
    {
        let r = ValidationResult { issues: Vec::new() };
        proof {
            assert(r@ =~= Seq::<Finding>::empty());
        }
        r
    }

    /// Appends an error finding.
    pub fn add_error(
        &mut self,
        message: &str,
        module_code: Option<&str>,
        semester_index: Option<usize>,
    )
        ensures
            final(self)@ == old(self)@.push(
                (Finding {
                    level: ValidationLevel::Error,
                    message: message@,
                    module_code: (match module_code {
                        Some(s) => Some(s@),
                        None => None,
                    }),
                    semester_index: (match semester_index {
                        Some(i) => Some(i as int),
                        None => None,
                    }),
                }),
            ),
    {
        let code = match module_code {
            Some(s) => Some(s.to_owned()),
            None => None,
        };
        let ghost before = self@;
        self.issues.push(
            ValidationIssue {
                level: ValidationLevel::Error,
                message: message.to_owned(),
                module_code: code,
                semester_index,
            },
        );
        proof {
            assert(self@ =~= before.push(self.issues@.last()@));
        }
    }

    /// Appends a warning finding.
    pub fn add_warning(
        &mut self,
        message: &str,
        module_code: Option<&str>,
        semester_index: Option<usize>,
    )
        ensures
            final(self)@ == old(self)@.push(
                (Finding {
                    level: ValidationLevel::Warning,
                    message: message@,
                    module_code: (match module_code {
                        Some(s) => Some(s@),
                        None => None,
                    }),
                    semester_index: (match semester_index {
                        Some(i) => Some(i as int),
                        None => None,
                    }),
                }),
            ),
    {
        let code = match module_code {
            Some(s) => Some(s.to_owned()),
            None => None,
        };
        let ghost before = self@;
        self.issues.push(
            ValidationIssue {
                level: ValidationLevel::Warning,
                message: message.to_owned(),
                module_code: code,
                semester_index,
            },
        );
        proof {
            assert(self@ =~= before.push(self.issues@.last()@));
        }
    }

    /// Appends an informational finding.
    pub fn add_info(
        &mut self,
        message: &str,
        module_code: Option<&str>,
        semester_index: Option<usize>,
    )
        ensures
            final(self)@ == old(self)@.push(
                (Finding {
                    level: ValidationLevel::Info,
                    message: message@,
                    module_code: (match module_code {
                        Some(s) => Some(s@),
                        None => None,
                    }),
                    semester_index: (match semester_index {
                        Some(i) => Some(i as int),
                        None => None,
                    }),
                }),
            ),
    {
        let code = match module_code {
            Some(s) => Some(s.to_owned()),
            None => None,
        };
        let ghost before = self@;
        self.issues.push(
            ValidationIssue {
                level: ValidationLevel::Info,
                message: message.to_owned(),
                module_code: code,
                semester_index,
            },
        );
        proof {
            assert(self@ =~= before.push(self.issues@.last()@));
        }
    }
}

/// Codes satisfied before any plan semester: the student's completed and
/// exempted modules.
pub open spec fn base_satisfied_set(student: Student) -> Set<Seq<char>> {
    code_set(student.completed_modules@).union(code_set(student.exempted_modules@))
}

/// Codes of the first `j` planned modules whose status is completed.
pub open spec fn completed_codes_mods(mods: Seq<PlannedModule>, j: int) -> Set<Seq<char>>
    decreases j,
{
    if j <= 0 {
        Set::empty()
    } else if mods[j - 1].status == ModuleStatus::Completed {
        completed_codes_mods(mods, j - 1).insert(mods[j - 1].module_code@)
    } else {
        completed_codes_mods(mods, j - 1)
    }
}

/// The satisfied-module set as of semester position `k`: the student's
/// base set plus every module completed in an earlier semester of the
/// plan. Modules of semester `k` itself or later do not count.
pub open spec fn satisfied_before(plan: Plan, student: Student, k: int) -> Set<Seq<char>>
    decreases k,
{
    if k <= 0 {
        base_satisfied_set(student)
    } else {
        satisfied_before(plan, student, k - 1).union(
            completed_codes_mods(
                plan.semesters@[k - 1].modules@,
                plan.semesters@[k - 1].modules@.len() as int,
            ),
        )
    }
}

/// The prerequisite finding of one planned module: an error exactly when
/// the catalog knows the module, gives it a prerequisite tree, and that
/// tree is unsatisfied against the satisfied set. An unknown value and a
/// module absent from the catalog produce nothing.
pub open spec fn module_prereq_findings(
    pm: PlannedModule,
    reg: ModuleRegistry,
    sat: Set<Seq<char>>,
    k: int,
) -> Seq<Finding> {
    if reg.contents().dom().contains(pm.module_code@) && (match reg.contents()[
        pm.module_code@].prereq_tree {
        Some(t) => eval_tree(t, sat) == TriState::Unsatisfied,
        None => false,
    }) {
        seq![
            (Finding {
                level: ValidationLevel::Error,
                message: "Missing prerequisite"@,
                module_code: Some(pm.module_code@),
                semester_index: Some(k),
            }),
        ]
    } else {
        Seq::empty()
    }
}

/// Prerequisite findings of the first `j` modules of semester `k`.
pub open spec fn prereq_findings_mods(
    mods: Seq<PlannedModule>,
    reg: ModuleRegistry,
    sat: Set<Seq<char>>,
    k: int,
    j: int,
) -> Seq<Finding>
    decreases j,
{
    if j <= 0 {
        Seq::empty()
    } else {
        prereq_findings_mods(mods, reg, sat, k, j - 1) + module_prereq_findings(
            mods[j - 1],
            reg,
            sat,
            k,
        )
    }
}

/// Prerequisite findings of the first `k` semesters.
pub open spec fn prereq_findings_upto(
    plan: Plan,
    reg: ModuleRegistry,
    student: Student,
    k: int,
) -> Seq<Finding>
    decreases k,
{
    if k <= 0 {
        Seq::empty()
    } else {
        prereq_findings_upto(plan, reg, student, k - 1) + prereq_findings_mods(
            plan.semesters@[k - 1].modules@,
            reg,
            satisfied_before(plan, student, k - 1),
            k - 1,
            plan.semesters@[k - 1].modules@.len() as int,
        )
    }
}

/// All prerequisite findings of the plan, semester by semester.
pub open spec fn prereq_findings(plan: Plan, reg: ModuleRegistry, student: Student) -> Seq<
    Finding,
> {
    prereq_findings_upto(plan, reg, student, plan.semesters@.len() as int)
}

/// Checks each planned module's prerequisite tree against the modules
/// satisfied before its semester, and appends an error finding for each
/// unsatisfied one.
pub fn validate_prerequisites(
    plan: &Plan,
    registry: &ModuleRegistry,
    student: &Student,
    result: &mut ValidationResult,
)
    ensures
        final(result)@ == old(result)@ + prereq_findings(*plan, *registry, *student),
{
    let mut satisfied: Vec<String> = Vec::new();
    push_all_codes(&mut satisfied, &student.completed_modules);
    push_all_codes(&mut satisfied, &student.exempted_modules);
    proof {
        assert(satisfied@ =~= student.completed_modules@ + student.exempted_modules@);
        lemma_code_set_concat(student.completed_modules@, student.exempted_modules@);
        assert(code_set(satisfied@) == base_satisfied_set(*student));
    }
    let mut k: usize = 0;
    while k < plan.semesters.len()
        invariant
            k <= plan.semesters@.len(),
            code_set(satisfied@) == satisfied_before(*plan, *student, k as int),
            result@ == old(result)@ + prereq_findings_upto(*plan, *registry, *student, k as int),
        decreases plan.semesters@.len() - k,
    {
        let ghost sat_k = satisfied_before(*plan, *student, k as int);
        let mods = &plan.semesters[k].modules;
        let mut j: usize = 0;
        while j < mods.len()
            invariant
                k < plan.semesters@.len(),
                j <= mods@.len(),
                mods@ == plan.semesters@[k as int].modules@,
                code_set(satisfied@) == sat_k,
                sat_k == satisfied_before(*plan, *student, k as int),
                result@ == old(result)@ + prereq_findings_upto(
                    *plan,
                    *registry,
                    *student,
                    k as int,
                ) + prereq_findings_mods(mods@, *registry, sat_k, k as int, j as int),
            decreases mods@.len() - j,
        {
            let ghost res_before = result@;
            match registry.get_module(mods[j].module_code.as_str()) {
                Some(m) => {
                    match &m.prereq_tree {
                        Some(t) => {
                            let v = is_satisfied(t, &satisfied);
                            if v == TriState::Unsatisfied {
                                result.add_error(
                                    "Missing prerequisite",
                                    Some(mods[j].module_code.as_str()),
                                    Some(k),
                                );
                            }
                        },
                        None => {},
                    }
                },
                None => {},
            }
            proof {
                let fs = module_prereq_findings(mods@[j as int], *registry, sat_k, k as int);
                assert(result@ =~= res_before + fs);
                assert(result@ =~= old(result)@ + prereq_findings_upto(
                    *plan,
                    *registry,
                    *student,
                    k as int,
                ) + prereq_findings_mods(mods@, *registry, sat_k, k as int, j + 1));
            }
            j += 1;
        }
        let mut j2: usize = 0;
        while j2 < mods.len()
            invariant
                k < plan.semesters@.len(),
                j2 <= mods@.len(),
                mods@ == plan.semesters@[k as int].modules@,
                sat_k == satisfied_before(*plan, *student, k as int),
                code_set(satisfied@) == sat_k.union(completed_codes_mods(mods@, j2 as int)),
                result@ == old(result)@ + prereq_findings_upto(
                    *plan,
                    *registry,
                    *student,
                    k as int,
                ) + prereq_findings_mods(mods@, *registry, sat_k, k as int, mods@.len() as int),
            decreases mods@.len() - j2,
        {
            proof {
                assert(sat_k.union(completed_codes_mods(mods@, j2 as int)) =~= code_set(
                    satisfied@,
                ));
            }
            if matches!(mods[j2].status, ModuleStatus::Completed) {
                let ghost sat_before_push = satisfied@;
                satisfied.push(mods[j2].module_code.clone());
                proof {
                    lemma_code_set_push(sat_before_push, mods@[j2 as int].module_code);
                    assert(code_set(satisfied@) =~= sat_k.union(
                        completed_codes_mods(mods@, j2 + 1),
                    ));
                }
            }
            j2 += 1;
        }
        proof {
            assert(code_set(satisfied@) == satisfied_before(*plan, *student, k + 1));
            assert(old(result)@ + prereq_findings_upto(*plan, *registry, *student, k as int)
                + prereq_findings_mods(mods@, *registry, sat_k, k as int, mods@.len() as int)
                =~= old(result)@ + prereq_findings_upto(*plan, *registry, *student, k + 1));
        }
        k += 1;
    }
}

/// Registry units of the first `j` modules of a semester.
pub open spec fn mods_credit_sum(mods: Seq<PlannedModule>, reg: ModuleRegistry, j: int) -> nat
    decreases j,
{
    if j <= 0 {
        0
    } else {
        mods_credit_sum(mods, reg, j - 1) + reg_credit(reg, mods[j - 1].module_code@)
    }
}

/// Units of the first `j` special activities of a semester.
pub open spec fn activities_credit_sum(acts: Seq<SpecialActivity>, j: int) -> nat
    decreases j,
{
    if j <= 0 {
        0
    } else {
        activities_credit_sum(acts, j - 1) + activity_credit(acts[j - 1])
    }
}

/// The planned load of a semester: the registry units of its modules
/// plus the units of its credited activities.
pub open spec fn semester_load(sem: SemesterPlan, reg: ModuleRegistry) -> nat {
    mods_credit_sum(sem.modules@, reg, sem.modules@.len() as int) + activities_credit_sum(
        sem.special_activities@,
        sem.special_activities@.len() as int,
    )
}

/// Workload findings of the first `k` semesters: a warning for each
/// semester whose load exceeds the limit.
pub open spec fn workload_findings_upto(
    plan: Plan,
    reg: ModuleRegistry,
    max_units: u32,
    k: int,
) -> Seq<Finding>
    decreases k,
{
    if k <= 0 {
        Seq::empty()
    } else {
        workload_findings_upto(plan, reg, max_units, k - 1) + if semester_load(
            plan.semesters@[k - 1],
            reg,
        ) > max_units {
            seq![
                (Finding {
                    level: ValidationLevel::Warning,
                    message: "Heavy workload in this semester"@,
                    module_code: None,
                    semester_index: Some(k - 1),
                }),
            ]
        } else {
            Seq::empty()
        }
    }
}

/// All workload findings of the plan.
pub open spec fn workload_findings(plan: Plan, reg: ModuleRegistry, max_units: u32) -> Seq<
    Finding,
> {
    workload_findings_upto(plan, reg, max_units, plan.semesters@.len() as int)
}

/// The planned load of a semester, capped at the largest `u64`.
fn semester_load_units(sem: &SemesterPlan, registry: &ModuleRegistry) -> (r: u64)
    ensures
        r == capped_u64(semester_load(*sem, *registry)),
{
    let mut acc: u64 = 0;
    let mut j: usize = 0;
    while j < sem.modules.len()
        invariant
            j <= sem.modules@.len(),
            acc == capped_u64(mods_credit_sum(sem.modules@, *registry, j as int)),
        decreases sem.modules@.len() - j,
    {
        let c = crate::credits::lookup_credit(registry, sem.modules[j].module_code.as_str());
        acc = acc.saturating_add(c as u64);
        j += 1;
    }
    let mut j2: usize = 0;
    while j2 < sem.special_activities.len()
        invariant
            j2 <= sem.special_activities@.len(),
            acc == capped_u64(
                mods_credit_sum(sem.modules@, *registry, sem.modules@.len() as int)
                    + activities_credit_sum(sem.special_activities@, j2 as int),
            ),
        decreases sem.special_activities@.len() - j2,
    {
        let c = match sem.special_activities[j2].credits {
            Some(v) => v,
            None => 0,
        };
        acc = acc.saturating_add(c as u64);
        j2 += 1;
    }
    acc
}

/// Flags each semester whose planned load exceeds `max_units` with a
/// warning finding.
pub fn validate_workload(
    plan: &Plan,
    registry: &ModuleRegistry,
    max_units: u32,
    result: &mut ValidationResult,
)
    ensures
        final(result)@ == old(result)@ + workload_findings(*plan, *registry, max_units),
{
    let mut k: usize = 0;
    while k < plan.semesters.len()
        invariant
            k <= plan.semesters@.len(),
            result@ == old(result)@ + workload_findings_upto(
                *plan,
                *registry,
                max_units,
                k as int,
            ),
        decreases plan.semesters@.len() - k,
    {
        let ghost res_before = result@;
        let load = semester_load_units(&plan.semesters[k], registry);
        if load > max_units as u64 {
            result.add_warning("Heavy workload in this semester", None, Some(k));
        }
        proof {
            assert((load > max_units as u64) == (semester_load(
                plan.semesters@[k as int],
                *registry,
            ) > max_units));
            assert(result@ =~= old(result)@ + workload_findings_upto(
                *plan,
                *registry,
                max_units,
                k + 1,
            ));
        }
        k += 1;
    }
}

/// The availability finding of one planned module: a warning exactly
/// when the catalog knows the module and its offering data does not list
/// the semester's number.
pub open spec fn module_availability_findings(
    pm: PlannedModule,
    sem_no: u8,
    reg: ModuleRegistry,
    k: int,
) -> Seq<Finding> {
    if reg.contents().dom().contains(pm.module_code@) && !offered_in(
        reg.contents()[pm.module_code@],
        sem_no,
    ) {
        seq![
            (Finding {
                level: ValidationLevel::Warning,
                message: "Module not offered in this semester"@,
                module_code: Some(pm.module_code@),
                semester_index: Some(k),
            }),
        ]
    } else {
        Seq::empty()
    }
}

/// Availability findings of the first `j` modules of semester `k`.
pub open spec fn availability_findings_mods(
    mods: Seq<PlannedModule>,
    sem_no: u8,
    reg: ModuleRegistry,
    k: int,
    j: int,
) -> Seq<Finding>
    decreases j,
{
    if j <= 0 {
        Seq::empty()
    } else {
        availability_findings_mods(mods, sem_no, reg, k, j - 1) + module_availability_findings(
            mods[j - 1],
            sem_no,
            reg,
            k,
        )
    }
}

/// Availability findings of the first `k` semesters.
pub open spec fn availability_findings_upto(plan: Plan, reg: ModuleRegistry, k: int) -> Seq<
    Finding,
>
    decreases k,
{
    if k <= 0 {
        Seq::empty()
    } else {
        availability_findings_upto(plan, reg, k - 1) + availability_findings_mods(
            plan.semesters@[k - 1].modules@,
            plan.semesters@[k - 1].semester,
            reg,
            k - 1,
            plan.semesters@[k - 1].modules@.len() as int,
        )
    }
}

/// All availability findings of the plan.
pub open spec fn availability_findings(plan: Plan, reg: ModuleRegistry) -> Seq<Finding> {
    availability_findings_upto(plan, reg, plan.semesters@.len() as int)
}

/// Flags each planned module that the catalog does not offer in its
/// semester's number with a warning finding.
pub fn validate_availability(plan: &Plan, registry: &ModuleRegistry, result: &mut ValidationResult)
    ensures
        final(result)@ == old(result)@ + availability_findings(*plan, *registry),
{
    let mut k: usize = 0;
    while k < plan.semesters.len()
        invariant
            k <= plan.semesters@.len(),
            result@ == old(result)@ + availability_findings_upto(*plan, *registry, k as int),
        decreases plan.semesters@.len() - k,
    {
        let sem_no = plan.semesters[k].semester;
        let mods = &plan.semesters[k].modules;
        let mut j: usize = 0;
        while j < mods.len()
            invariant
                k < plan.semesters@.len(),
                j <= mods@.len(),
                mods@ == plan.semesters@[k as int].modules@,
                sem_no == plan.semesters@[k as int].semester,
                result@ == old(result)@ + availability_findings_upto(*plan, *registry, k as int)
                    + availability_findings_mods(mods@, sem_no, *registry, k as int, j as int),
            decreases mods@.len() - j,
        {
            let ghost res_before = result@;
            match registry.get_module(mods[j].module_code.as_str()) {
                Some(m) => {
                    if !check_module_availability(m, sem_no) {
                        result.add_warning(
                            "Module not offered in this semester",
                            Some(mods[j].module_code.as_str()),
                            Some(k),
                        );
                    }
                },
                None => {},
            }
            proof {
                assert(result@ =~= res_before + module_availability_findings(
                    mods@[j as int],
                    sem_no,
                    *registry,
                    k as int,
                ));
                assert(result@ =~= old(result)@ + availability_findings_upto(
                    *plan,
                    *registry,
                    k as int,
                ) + availability_findings_mods(mods@, sem_no, *registry, k as int, j + 1));
            }
            j += 1;
        }
        proof {
            assert(old(result)@ + availability_findings_upto(*plan, *registry, k as int)
                + availability_findings_mods(
                mods@,
                sem_no,
                *registry,
                k as int,
                mods@.len() as int,
            ) =~= old(result)@ + availability_findings_upto(*plan, *registry, k + 1));
        }
        k += 1;
    }
}

/// Findings of the first `k` curriculum components: an error for each
/// component whose satisfied units fall short of its minimum.
pub open spec fn component_findings_upto(
    cur: Curriculum,
    codes: Set<Seq<char>>,
    reg: ModuleRegistry,
    k: int,
) -> Seq<Finding>
    decreases k,
{
    if k <= 0 {
        Seq::empty()
    } else {
        component_findings_upto(cur, codes, reg, k - 1) + if spec_component_credits(
            cur.components@[k - 1],
            codes,
            reg,
        ) < cur.components@[k - 1].min_units {
            seq![
                (Finding {
                    level: ValidationLevel::Error,
                    message: "Component units below minimum: "@ + cur.components@[k - 1].name@,
                    module_code: None,
                    semester_index: None,
                }),
            ]
        } else {
            Seq::empty()
        }
    }
}

/// All graduation findings: per-component shortfalls, then a shortfall
/// of the plan's overall units against the curriculum total, then an
/// excess of level-1000 units over the curriculum's cap.
pub open spec fn graduation_findings(plan: Plan, cur: Curriculum, reg: ModuleRegistry) -> Seq<
    Finding,
> {
    component_findings_upto(cur, plan_code_set(plan), reg, cur.components@.len() as int) + (if
        cache_total(plan) < cur.total_units_required {
        seq![
            (Finding {
                level: ValidationLevel::Error,
                message: "Total units below curriculum requirement"@,
                module_code: None,
                semester_index: None,
            }),
        ]
    } else {
        Seq::empty()
    }) + (if 4 * spec_level_count(plan, spec_dec_str(1)) > cur.max_level1000_units {
        seq![
            (Finding {
                level: ValidationLevel::Error,
                message: "Level 1000 units exceed maximum"@,
                module_code: None,
                semester_index: None,
            }),
        ]
    } else {
        Seq::empty()
    })
}

/// Checks the curriculum's graduation requirements: each component's
/// minimum, the overall unit total, and the level-1000 cap; appends an
/// error finding for each violation.
pub fn validate_graduation(
    plan: &Plan,
    curriculum: &Curriculum,
    registry: &ModuleRegistry,
    result: &mut ValidationResult,
)
    ensures
        final(result)@ == old(result)@ + graduation_findings(*plan, *curriculum, *registry),
{
    let mut k: usize = 0;
    while k < curriculum.components.len()
        invariant
            k <= curriculum.components@.len(),
            result@ == old(result)@ + component_findings_upto(
                *curriculum,
                plan_code_set(*plan),
                *registry,
                k as int,
            ),
        decreases curriculum.components@.len() - k,
    {
        let ghost res_before = result@;
        let component = &curriculum.components[k];
        let units = calculate_component_units(plan, component, registry);
        if units < component.min_units {
            let mut message = "Component units below minimum: ".to_owned();
            message.append(component.name.as_str());
            result.add_error(message.as_str(), None, None);
        }
        proof {
            assert((units < component.min_units) == (spec_component_credits(
                curriculum.components@[k as int],
                plan_code_set(*plan),
                *registry,
            ) < curriculum.components@[k as int].min_units));
            assert(result@ =~= old(result)@ + component_findings_upto(
                *curriculum,
                plan_code_set(*plan),
                *registry,
                k + 1,
            ));
        }
        k += 1;
    }
    let ghost res_components = result@;
    let total = plan.total_units_u64();
    if total < curriculum.total_units_required as u64 {
        result.add_error("Total units below curriculum requirement", None, None);
    }
    proof {
        assert((total < curriculum.total_units_required as u64) == (cache_total(*plan)
            < curriculum.total_units_required));
    }
    let ghost res_total = result@;
    let prefix = u64_to_dec_string(1);
    let level = level_units_u64(plan, prefix.as_str());
    if level > curriculum.max_level1000_units as u64 {
        result.add_error("Level 1000 units exceed maximum", None, None);
    }
    proof {
        assert(prefix@ == spec_dec_str(1));
        assert((level > curriculum.max_level1000_units as u64) == (4 * spec_level_count(
            *plan,
            spec_dec_str(1),
        ) > curriculum.max_level1000_units));
        assert(result@ =~= old(result)@ + graduation_findings(*plan, *curriculum, *registry));
    }
}

/// All findings of a full validation run, in check order: prerequisites,
/// workload, availability, graduation.
pub open spec fn validation_findings(
    plan: Plan,
    student: Student,
    cur: Curriculum,
    reg: ModuleRegistry,
    max_semester_units: u32,
) -> Seq<Finding> {
    prereq_findings(plan, reg, student) + workload_findings(plan, reg, max_semester_units)
        + availability_findings(plan, reg) + graduation_findings(plan, cur, reg)
}

/// Runs every check on the plan and returns the accumulated findings.
/// The findings are a function of the inputs alone: two runs on equal
/// inputs return equal findings in equal order, and no check
/// short-circuits an earlier one.
pub fn validate_plan(
    plan: &Plan,
    student: &Student,
    curriculum: &Curriculum,
    registry: &ModuleRegistry,
    max_semester_units: u32,
) -> (r: ValidationResult)
    ensures
        r@ == validation_findings(*plan, *student, *curriculum, *registry, max_semester_units),
{
    let mut result = ValidationResult::new();
    validate_prerequisites(plan, registry, student, &mut result);
    validate_workload(plan, registry, max_semester_units, &mut result);
    validate_availability(plan, registry, &mut result);
    validate_graduation(plan, curriculum, registry, &mut result);
    proof {
        assert(result@ =~= validation_findings(
            *plan,
            *student,
            *curriculum,
            *registry,
            max_semester_units,
        ));
    }
    result
}

} // verus!

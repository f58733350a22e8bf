//! Academic plans: an ordered list of semester plans holding planned
//! modules and special activities.

use vstd::prelude::*;
use crate::capped_u32;
use crate::codes::code_set;
use crate::codes::contains_code;
use crate::models::module::Module;
use crate::models::module::module_credit_value;
use crate::models::registry::ModuleRegistry;
use crate::models::registry::reg_credit;
use crate::timeutil::now_timestamp_millis;

verus! {

/// A multi-semester academic plan for one student. The creation and
/// modification stamps are milliseconds since the Unix epoch.
#[derive(Debug)]
pub struct Plan {
    pub id: String,
    pub name: String,
    pub student_id: String,
    pub created_at: i64,
    pub modified_at: i64,
    pub target_graduation: String,
    pub semesters: Vec<SemesterPlan>,
    pub notes: Option<String>,
}

/// One semester of a plan. `total_units` caches the unit sum of the
/// semester's modules and credited activities.
#[derive(Clone, Debug)]
pub struct SemesterPlan {
    pub year: String,
    pub semester: u8,
    pub modules: Vec<PlannedModule>,
    pub total_units: u32,
    pub special_activities: Vec<SpecialActivity>,
}

/// A module placed in a semester of a plan.
#[derive(Clone, Debug)]
pub struct PlannedModule {
    pub module_code: String,
    pub status: ModuleStatus,
    pub grade: Option<String>,
    pub s_u_option: bool,
}

/// Progress state of a planned module.
#[derive(Clone, Copy, Debug, PartialEq, Eq, Structural)]
pub enum ModuleStatus {
    Planned,
    Current,
    Completed,
    Failed,
}

/// A non-module activity placed in a semester, optionally credited.
#[derive(Clone, Debug)]
pub struct SpecialActivity {
    pub activity_type: ActivityType,
    pub description: String,
    pub credits: Option<u32>,
}

/// The kind of a special activity.
#[derive(Clone, Debug)]
pub enum ActivityType {
    InternationalExchange,
    IndustrialAttachment,
    Research,
    CommunityService,
    Other(String),
}

/// Units that a special activity carries; none counts as zero.
pub open spec fn activity_credit(a: SpecialActivity) -> nat {
    match a.credits {
        Some(c) => c as nat,
        None => 0,
    }
}

/// Sum of the cached unit counts of the first `k` semesters.
pub open spec fn cache_total_prefix(sems: Seq<SemesterPlan>, k: int) -> nat
    decreases k,
{
    if k <= 0 {
        0
    } else {
        cache_total_prefix(sems, k - 1) + sems[k - 1].total_units as nat
    }
}

/// Sum of the cached unit counts of all semesters of the plan.
pub open spec fn cache_total(p: Plan) -> nat {
    cache_total_prefix(p.semesters@, p.semesters@.len() as int)
}

/// The set of module codes planned anywhere in the plan.
pub open spec fn plan_code_set(p: Plan) -> Set<Seq<char>> {
    Set::new(
        |c: Seq<char>|
            exists|a: int, b: int|
                0 <= a < p.semesters@.len() && 0 <= b < p.semesters@[a].modules@.len()
                    && p.semesters@[a].modules@[b].module_code@ == c,
    )
}

/// The set of module codes of the first `i` semesters and, within
/// semester `i`, of the first `j` modules.
pub open spec fn plan_code_set_prefix(p: Plan, i: int, j: int) -> Set<Seq<char>> {
    Set::new(
        |c: Seq<char>|
            exists|a: int, b: int|
                0 <= a < p.semesters@.len() && 0 <= b < p.semesters@[a].modules@.len() && (a < i
                    || (a == i && b < j)) && p.semesters@[a].modules@[b].module_code@ == c,
    )
}

/// No two entries of the list denote the same code.
pub open spec fn codes_distinct(codes: Seq<String>) -> bool {
    forall|i: int, j: int| 0 <= i < j < codes.len() ==> codes[i]@ != codes[j]@
}

impl Plan {
    /// A fresh, empty plan; creation and modification stamps are both
    /// the present moment.
    pub fn new(id: String, name: String, student_id: String) -> (r: Plan)
        ensures
            r.id == id,
            r.name == name,
            r.student_id == student_id,
            r.created_at == r.modified_at,
            r.target_graduation@ == Seq::<char>::empty(),
            r.semesters@ == Seq::<SemesterPlan>::empty(),
            r.notes is None,
    {
        let now = now_timestamp_millis();
        Plan {
            id,
            name,
            student_id,
            created_at: now,
            modified_at: now,
            target_graduation: String::new(),
            semesters: Vec::new(),
            notes: None,
        }
    }

    /// Sum of the semesters' cached unit counts, capped at the largest
    /// `u32`.
    pub fn total_units(&self) -> (r: u32)
        ensures
            r == capped_u32(cache_total(*self)),
    {
        let mut acc: u32 = 0;
        let mut i: usize = 0;
        while i < self.semesters.len()
            invariant
                i <= self.semesters@.len(),
                acc == capped_u32(cache_total_prefix(self.semesters@, i as int)),
            decreases self.semesters@.len() - i,
        {
            acc = acc.saturating_add(self.semesters[i].total_units);
            i += 1;
        }
        acc
    }

    /// Sum of the semesters' cached unit counts, capped at the largest
    /// `u64`.
    pub fn total_units_u64(&self) -> (r: u64)
        ensures
            r == crate::capped_u64(cache_total(*self)),
    {
        let mut acc: u64 = 0;
        let mut i: usize = 0;
        while i < self.semesters.len()
            invariant
                i <= self.semesters@.len(),
                acc == crate::capped_u64(cache_total_prefix(self.semesters@, i as int)),
            decreases self.semesters@.len() - i,
        {
            acc = acc.saturating_add(self.semesters[i].total_units as u64);
            i += 1;
        }
        acc
    }

    /// Every module code planned in any semester, each code once; the
    /// order of the result is not specified.
    pub fn all_modules(&self) -> (r: Vec<String>)
        ensures
            code_set(r@) == plan_code_set(*self),
            codes_distinct(r@),
    {
        let mut r: Vec<String> = Vec::new();
        let mut a: usize = 0;
        proof {
            assert(code_set(r@) =~= plan_code_set_prefix(*self, 0, 0));
        }
        while a < self.semesters.len()
            invariant
                a <= self.semesters@.len(),
                code_set(r@) == plan_code_set_prefix(*self, a as int, 0),
                codes_distinct(r@),
            decreases self.semesters@.len() - a,
        {
            let mods = &self.semesters[a].modules;
            let mut b: usize = 0;
            while b < mods.len()
                invariant
                    a < self.semesters@.len(),
                    b <= mods@.len(),
                    mods@ == self.semesters@[a as int].modules@,
                    code_set(r@) == plan_code_set_prefix(*self, a as int, b as int),
                    codes_distinct(r@),
                decreases mods@.len() - b,
            {
                let code = &mods[b].module_code;
                let ghost before = r@;
                let ghost cs = code@;
                if !contains_code(&r, code.as_str()) {
                    r.push(code.clone());
                }
                proof {
                    if !code_set(before).contains(cs) {
                        assert(r@ == before.push(mods@[b as int].module_code));
                        assert forall|c: Seq<char>| #[trigger]
                            code_set(r@).contains(c) implies code_set(before).contains(c) || c
                            == cs by {
                            let x = choose|x: int| 0 <= x < r@.len() && r@[x]@ == c;
                            if x < before.len() {
                                assert(before[x]@ == c);
                            }
                        }
                        assert forall|c: Seq<char>| code_set(before).contains(
                            c,
                        ) implies #[trigger] code_set(r@).contains(c) by {
                            let x = choose|x: int| 0 <= x < before.len() && before[x]@ == c;
                            assert(r@[x]@ == c);
                        }
                        assert(code_set(r@).contains(cs)) by {
                            assert(r@[r@.len() - 1]@ == cs);
                        }
                        assert(codes_distinct(r@)) by {
                            assert forall|x: int, y: int| 0 <= x < y < r@.len() implies r@[x]@
                                != r@[y]@ by {
                                if y < before.len() {
                                    assert(before[x]@ != before[y]@);
                                } else {
                                    if r@[x]@ == cs {
                                        assert(before[x]@ == cs);
                                        assert(code_set(before).contains(cs));
                                    }
                                }
                            }
                        }
                    } else {
                        assert(r@ == before);
                    }
                    assert forall|c: Seq<char>| #[trigger] code_set(r@).contains(
                        c,
                    ) implies plan_code_set_prefix(*self, a as int, b + 1).contains(c) by {
                        if code_set(before).contains(c) {
                            assert(plan_code_set_prefix(*self, a as int, b as int).contains(c));
                            let (ai, bi) = choose|ai: int, bi: int|
                                0 <= ai < self.semesters@.len() && 0 <= bi < self.semesters@[
                                ai].modules@.len() && (ai < a as int || (ai == a as int && bi
                                    < b as int)) && self.semesters@[ai].modules@[bi].module_code@
                                    == c;
                            assert(self.semesters@[ai].modules@[bi].module_code@ == c);
                        } else {
                            assert(c == cs);
                            assert(self.semesters@[a as int].modules@[b as int].module_code@
                                == c);
                        }
                    }
                    assert forall|c: Seq<char>| plan_code_set_prefix(
                        *self,
                        a as int,
                        b + 1,
                    ).contains(c) implies #[trigger] code_set(r@).contains(c) by {
                        let (ai, bi) = choose|ai: int, bi: int|
                            0 <= ai < self.semesters@.len() && 0 <= bi < self.semesters@[
                            ai].modules@.len() && (ai < a as int || (ai == a as int && bi < b
                                + 1)) && self.semesters@[ai].modules@[bi].module_code@ == c;
                        if ai == a as int && bi == b as int {
                            assert(c == cs);
                            assert(code_set(r@).contains(cs));
                        } else {
                            assert(plan_code_set_prefix(*self, a as int, b as int).contains(c));
                            assert(code_set(before).contains(c));
                        }
                    }
                    assert(code_set(r@) =~= plan_code_set_prefix(*self, a as int, b + 1));
                }
                b += 1;
            }
            proof {
                assert(plan_code_set_prefix(*self, a as int, mods@.len() as int)
                    =~= plan_code_set_prefix(*self, a + 1, 0));
            }
            a += 1;
        }
        proof {
            assert(plan_code_set_prefix(*self, self.semesters@.len() as int, 0) =~= plan_code_set(
                *self,
            ));
        }
        r
    }
}

impl SemesterPlan {
    /// Places a catalog module in this semester with status `Planned`
    /// and adds its unit value to the cached total.
    pub fn add_module(&mut self, module: &Module)
        ensures
            final(self).modules@ == old(self).modules@.push(
                (PlannedModule {
                    module_code: module.module_code,
                    status: ModuleStatus::Planned,
                    grade: None,
                    s_u_option: false,
                }),
            ),
            final(self).total_units == capped_u32(
                old(self).total_units as nat + module_credit_value(*module),
            ),
            final(self).year == old(self).year,
            final(self).semester == old(self).semester,
            final(self).special_activities == old(self).special_activities,
    {
        let credits = module.credit_value();
        self.modules.push(
            PlannedModule {
                module_code: module.module_code.clone(),
                status: ModuleStatus::Planned,
                grade: None,
                s_u_option: false,
            },
        );
        self.total_units = self.total_units.saturating_add(credits);
    }

    /// Removes the module at `index`, refunding its catalog unit value
    /// from the cached total (never below zero), and hands the removed
    /// entry back.
    pub fn remove_module(&mut self, index: usize, registry: &ModuleRegistry) -> (r: PlannedModule)
        requires
            index < old(self).modules@.len(),
        ensures
            r == old(self).modules@[index as int],
            final(self).modules@ == old(self).modules@.remove(index as int),
            final(self).total_units as nat == (if old(self).total_units as nat >= reg_credit(
                *registry,
                r.module_code@,
            ) {
                old(self).total_units as nat - reg_credit(*registry, r.module_code@)
            } else {
                0
            }),
            final(self).year == old(self).year,
            final(self).semester == old(self).semester,
            final(self).special_activities == old(self).special_activities,
    {
        let credits = match registry.get_module(self.modules[index].module_code.as_str()) {
            Some(m) => m.credit_value(),
            None => 0,
        };
        self.total_units = self.total_units.saturating_sub(credits);
        self.modules.remove(index)
    }

    /// Places an already-built planned module in this semester, adding
    /// its catalog unit value to the cached total.
    pub fn insert_module(&mut self, module: PlannedModule, registry: &ModuleRegistry)
        ensures
            final(self).modules@ == old(self).modules@.push(module),
            final(self).total_units == capped_u32(
                old(self).total_units as nat + reg_credit(*registry, module.module_code@),
            ),
            final(self).year == old(self).year,
            final(self).semester == old(self).semester,
            final(self).special_activities == old(self).special_activities,
    {
        let credits = match registry.get_module(module.module_code.as_str()) {
            Some(m) => m.credit_value(),
            None => 0,
        };
        self.total_units = self.total_units.saturating_add(credits);
        self.modules.push(module);
    }

    /// Adds a special activity, counting its units (if any) toward the
    /// cached total.
    pub fn add_special_activity(&mut self, activity: SpecialActivity)
        ensures
            final(self).special_activities@ == old(self).special_activities@.push(activity),
            final(self).total_units == capped_u32(
                old(self).total_units as nat + activity_credit(activity),
            ),
            final(self).year == old(self).year,
            final(self).semester == old(self).semester,
            final(self).modules == old(self).modules,
    {
        let credits = match activity.credits {
            Some(c) => c,
            None => 0,
        };
        self.total_units = self.total_units.saturating_add(credits);
        self.special_activities.push(activity);
    }
}

} // verus!

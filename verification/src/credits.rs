//! Requirement satisfaction accounting: how many units of a plan count
//! toward requirements, components, and level buckets.

use vstd::prelude::*;
use vstd::string::StrSliceExecFns;
use crate::capped_u32;
use crate::capped_u64;
use crate::codes::code_set;
use crate::codes::contains_code;
use crate::models::curriculum::CurriculumComponent;
use crate::models::curriculum::Requirement;
use crate::models::plan::Plan;
use crate::models::plan::PlannedModule;
use crate::models::plan::SemesterPlan;
use crate::models::plan::plan_code_set;
use crate::models::registry::ModuleRegistry;
use crate::models::registry::reg_credit;
use crate::text::is_dec_digit;
use crate::text::spec_dec_str;
use crate::text::u64_to_dec_string;

verus! {

/// Units of the first `k` candidate codes that the planned set holds;
/// a candidate listed twice counts twice.
pub open spec fn group_credits_prefix(
    possible: Seq<String>,
    codes: Set<Seq<char>>,
    reg: ModuleRegistry,
    k: int,
) -> nat
    decreases k,
{
    if k <= 0 {
        0
    } else {
        group_credits_prefix(possible, codes, reg, k - 1) + if codes.contains(
            possible[k - 1]@,
        ) {
            reg_credit(reg, possible[k - 1]@)
        } else {
            0
        }
    }
}

/// Units of the candidate codes that the planned set holds, by the
/// registry's credit values.
pub open spec fn spec_group_credits(
    possible: Seq<String>,
    codes: Set<Seq<char>>,
    reg: ModuleRegistry,
) -> nat {
    group_credits_prefix(possible, codes, reg, possible.len() as int)
}

/// Units that a requirement counts as satisfied from a set of planned
/// module codes: a fixed module counts its fixed units exactly when
/// planned; a module group counts the registry units of every planned
/// candidate; an elective never counts mechanically.
pub open spec fn spec_requirement_credits(
    req: Requirement,
    codes: Set<Seq<char>>,
    reg: ModuleRegistry,
) -> nat {
    match req {
        Requirement::FixedModule { module_code, units, .. } => if codes.contains(module_code@) {
            units as nat
        } else {
            0
        },
        Requirement::ModuleGroup { possible_modules, .. } => spec_group_credits(
            possible_modules@,
            codes,
            reg,
        ),
        Requirement::Elective { .. } => 0,
    }
}

/// Satisfied units of the first `k` requirements of a component.
pub open spec fn component_credits_prefix(
    reqs: Seq<Requirement>,
    codes: Set<Seq<char>>,
    reg: ModuleRegistry,
    k: int,
) -> nat
    decreases k,
{
    if k <= 0 {
        0
    } else {
        component_credits_prefix(reqs, codes, reg, k - 1) + spec_requirement_credits(
            reqs[k - 1],
            codes,
            reg,
        )
    }
}

/// Satisfied units of a whole component: the sum over its requirements,
/// each requirement accounted on its own.
pub open spec fn spec_component_credits(
    comp: CurriculumComponent,
    codes: Set<Seq<char>>,
    reg: ModuleRegistry,
) -> nat {
    component_credits_prefix(comp.requirements@, codes, reg, comp.requirements@.len() as int)
}

/// Registry units of the first `k` listed codes.
pub open spec fn units_of_codes_prefix(codes: Seq<String>, reg: ModuleRegistry, k: int) -> nat
    decreases k,
{
    if k <= 0 {
        0
    } else {
        units_of_codes_prefix(codes, reg, k - 1) + reg_credit(reg, codes[k - 1]@)
    }
}

/// Registry units of all listed codes.
pub open spec fn spec_units_of_codes(codes: Seq<String>, reg: ModuleRegistry) -> nat {
    units_of_codes_prefix(codes, reg, codes.len() as int)
}

/// Caps a saturating 64-bit sum down to a `u32` result.
fn cap_to_u32(acc: u64, total: Ghost<nat>) -> (r: u32)
    requires
        acc == capped_u64(total@),
    ensures
        r == capped_u32(total@),
{
    if acc > u32::MAX as u64 {
        u32::MAX
    } else {
        acc as u32
    }
}

/// The registry's unit value of a code: the module's credit value when
/// the code is in the catalog, zero otherwise.
pub fn lookup_credit(registry: &ModuleRegistry, code: &str) -> (r: u32)
    ensures
        r as nat == reg_credit(*registry, code@),
{
    match registry.get_module(code) {
        Some(m) => m.credit_value(),
        None => 0,
    }
}

/// Units that the requirement counts as satisfied from the listed
/// planned module codes, capped at the largest `u32`.
pub fn satisfied_credits(
    requirement: &Requirement,
    plan_module_codes: &Vec<String>,
    registry: &ModuleRegistry,
) -> (r: u32)
    ensures
        r == capped_u32(
            spec_requirement_credits(*requirement, code_set(plan_module_codes@), *registry),
        ),
{
    match requirement {
        Requirement::FixedModule { module_code, units, .. } => {
            if contains_code(plan_module_codes, module_code.as_str()) {
                *units
            } else {
                0
            }
        },
        Requirement::ModuleGroup { possible_modules, .. } => {
            let mut acc: u64 = 0;
            let mut k: usize = 0;
            while k < possible_modules.len()
                invariant
                    k <= possible_modules@.len(),
                    acc == capped_u64(
                        group_credits_prefix(
                            possible_modules@,
                            code_set(plan_module_codes@),
                            *registry,
                            k as int,
                        ),
                    ),
                decreases possible_modules@.len() - k,
            {
                if contains_code(plan_module_codes, possible_modules[k].as_str()) {
                    let c = lookup_credit(registry, possible_modules[k].as_str());
                    acc = acc.saturating_add(c as u64);
                }
                k += 1;
            }
            cap_to_u32(
                acc,
                Ghost(
                    spec_group_credits(possible_modules@, code_set(plan_module_codes@), *registry),
                ),
            )
        },
        Requirement::Elective { .. } => 0,
    }
}

/// Registry units of the listed module codes, capped at the largest
/// `u32`.
pub fn calculate_group_units(modules: &Vec<String>, registry: &ModuleRegistry) -> (r: u32)
    ensures
        r == capped_u32(spec_units_of_codes(modules@, *registry)),
{
    let mut acc: u64 = 0;
    let mut k: usize = 0;
    while k < modules.len()
        invariant
            k <= modules@.len(),
            acc == capped_u64(units_of_codes_prefix(modules@, *registry, k as int)),
        decreases modules@.len() - k,
    {
        let c = lookup_credit(registry, modules[k].as_str());
        acc = acc.saturating_add(c as u64);
        k += 1;
    }
    cap_to_u32(acc, Ghost(spec_units_of_codes(modules@, *registry)))
}

/// Satisfied units of a whole component against the plan's module
/// codes, capped at the largest `u32`.
pub fn calculate_component_units(
    plan: &Plan,
    component: &CurriculumComponent,
    registry: &ModuleRegistry,
) -> (r: u32)
    ensures
        r == capped_u32(spec_component_credits(*component, plan_code_set(*plan), *registry)),
{
    let codes = plan.all_modules();
    let mut acc: u64 = 0;
    let mut k: usize = 0;
    let ghost mut capsum: nat = 0;
    while k < component.requirements.len()
        invariant
            k <= component.requirements@.len(),
            code_set(codes@) == plan_code_set(*plan),
            acc == capped_u64(capsum),
            ({
                let truesum = component_credits_prefix(
                    component.requirements@,
                    plan_code_set(*plan),
                    *registry,
                    k as int,
                );
                capsum == truesum || (capsum >= u32::MAX && truesum >= u32::MAX)
            }),
        decreases component.requirements@.len() - k,
    {
        let units = satisfied_credits(&component.requirements[k], &codes, registry);
        acc = acc.saturating_add(units as u64);
        proof {
            capsum = capsum + units as nat;
        }
        k += 1;
    }
    proof {
        let truesum = spec_component_credits(*component, plan_code_set(*plan), *registry);
        assert(capped_u32(capsum) == capped_u32(truesum));
    }
    cap_to_u32(acc, Ghost(capsum))
}

/// The position of the first decimal digit at or after `i`, or -1.
pub open spec fn first_digit_from(s: Seq<char>, i: int) -> int
    decreases s.len() - i,
{
    if i < 0 || i >= s.len() {
        -1
    } else if is_dec_digit(s[i]) {
        i
    } else {
        first_digit_from(s, i + 1)
    }
}

/// The length of the unbroken run of decimal digits starting at `i`.
pub open spec fn digit_run_len(s: Seq<char>, i: int) -> int
    decreases s.len() - i,
{
    if i < 0 || i >= s.len() || !is_dec_digit(s[i]) {
        0
    } else {
        1 + digit_run_len(s, i + 1)
    }
}

/// Whether a module code belongs to a level bucket: the maximal digit
/// run starting at the code's first digit begins with the given digit
/// string.
pub open spec fn code_matches_level(code: Seq<char>, level_prefix: Seq<char>) -> bool {
    let fd = first_digit_from(code, 0);
    &&& fd != -1
    &&& digit_run_len(code, fd) >= level_prefix.len()
    &&& code.subrange(fd, fd + level_prefix.len() as int) == level_prefix
}

/// How many of the first `j` modules of a semester match the level.
pub open spec fn level_count_mods(mods: Seq<PlannedModule>, level_prefix: Seq<char>, j: int) -> nat
    decreases j,
{
    if j <= 0 {
        0
    } else {
        level_count_mods(mods, level_prefix, j - 1) + if code_matches_level(
            mods[j - 1].module_code@,
            level_prefix,
        ) {
            1nat
        } else {
            0nat
        }
    }
}

/// How many modules of the first `k` semesters match the level.
pub open spec fn level_count_prefix(sems: Seq<SemesterPlan>, level_prefix: Seq<char>, k: int) -> nat
    decreases k,
{
    if k <= 0 {
        0
    } else {
        level_count_prefix(sems, level_prefix, k - 1) + level_count_mods(
            sems[k - 1].modules@,
            level_prefix,
            sems[k - 1].modules@.len() as int,
        )
    }
}

/// How many planned modules of the plan match the level.
pub open spec fn spec_level_count(p: Plan, level_prefix: Seq<char>) -> nat {
    level_count_prefix(p.semesters@, level_prefix, p.semesters@.len() as int)
}

/// Whether the code's first digit run begins with the digit string.
fn code_matches_level_exec(code: &str, level_prefix: &str) -> (r: bool)
    ensures
        r == code_matches_level(code@, level_prefix@),
{
    let len = code.unicode_len();
    let mut i: usize = 0;
    while i < len
        invariant
            i <= len,
            len == code@.len(),
            first_digit_from(code@, 0) == first_digit_from(code@, i as int),
        ensures
            i <= len,
            len == code@.len(),
            i < len ==> first_digit_from(code@, 0) == i as int,
            i >= len ==> first_digit_from(code@, 0) == -1,
        decreases len - i,
    {
        let c = code.get_char(i);
        let cv = c as u32;
        if 48 <= cv && cv <= 57 {
            break ;
        }
        i += 1;
    }
    if i >= len {
        return false;
    }
    let fd = i;
    let mut e: usize = fd;
    while e < len
        invariant
            fd <= e <= len,
            len == code@.len(),
            digit_run_len(code@, fd as int) == (e - fd) + digit_run_len(code@, e as int),
        ensures
            fd <= e <= len,
            digit_run_len(code@, fd as int) == e - fd,
        decreases len - e,
    {
        let c = code.get_char(e);
        let cv = c as u32;
        if !(48 <= cv && cv <= 57) {
            break ;
        }
        e += 1;
    }
    let run = e - fd;
    let plen = level_prefix.unicode_len();
    if run < plen {
        return false;
    }
    let mut t: usize = 0;
    while t < plen
        invariant
            t <= plen,
            plen == level_prefix@.len(),
            len == code@.len(),
            fd + plen <= len,
            first_digit_from(code@, 0) == fd as int,
            digit_run_len(code@, fd as int) >= plen as int,
            forall|x: int| 0 <= x < t ==> code@[fd + x] == level_prefix@[x],
        decreases plen - t,
    {
        if code.get_char(fd + t) != level_prefix.get_char(t) {
            proof {
                assert(code@.subrange(fd as int, fd + plen) != level_prefix@) by {
                    assert(code@.subrange(fd as int, fd + plen)[t as int] == code@[fd + t as int]);
                }
            }
            return false;
        }
        t += 1;
    }
    proof {
        assert(code@.subrange(fd as int, fd + plen) =~= level_prefix@);
    }
    true
}

/// Units counted toward a level bucket: four units for every planned
/// module whose code's first digit run begins with the decimal of
/// `level / 1000`, regardless of the module's catalog credit value,
/// capped at the largest `u32`.
pub fn calculate_level_units(plan: &Plan, level: u32) -> (r: u32)
    ensures
        r == capped_u32(4 * spec_level_count(*plan, spec_dec_str((level / 1000) as nat))),
{
    let prefix = u64_to_dec_string((level / 1000) as u64);
    let acc = level_units_u64(plan, prefix.as_str());
    cap_to_u32(acc, Ghost(4 * spec_level_count(*plan, spec_dec_str((level / 1000) as nat))))
}

/// Units counted toward a level bucket, capped at the largest `u64`.
pub(crate) fn level_units_u64(plan: &Plan, level_prefix: &str) -> (r: u64)
    ensures
        r == capped_u64(4 * spec_level_count(*plan, level_prefix@)),
{
    let ghost lp = level_prefix@;
    let mut acc: u64 = 0;
    let mut a: usize = 0;
    while a < plan.semesters.len()
        invariant
            a <= plan.semesters@.len(),
            lp == level_prefix@,
            acc == capped_u64(4 * level_count_prefix(plan.semesters@, lp, a as int)),
        decreases plan.semesters@.len() - a,
    {
        let mods = &plan.semesters[a].modules;
        let mut b: usize = 0;
        while b < mods.len()
            invariant
                a < plan.semesters@.len(),
                b <= mods@.len(),
                lp == level_prefix@,
                mods@ == plan.semesters@[a as int].modules@,
                acc == capped_u64(
                    4 * (level_count_prefix(plan.semesters@, lp, a as int) + level_count_mods(
                        mods@,
                        lp,
                        b as int,
                    )),
                ),
            decreases mods@.len() - b,
        {
            if code_matches_level_exec(mods[b].module_code.as_str(), level_prefix) {
                acc = acc.saturating_add(4);
            }
            b += 1;
        }
        a += 1;
    }
    acc
}

/// The candidate codes that the planned set holds, in the candidates'
/// order.
pub fn fulfilled_modules(possible_modules: &Vec<String>, plan_codes: &Vec<String>) -> (r: Vec<
    String,
>)
    ensures
        r@ == possible_modules@.filter(
            |m: String| code_set(plan_codes@).contains(m@),
        ),
{
    let ghost pred = |m: String| code_set(plan_codes@).contains(m@);
    let mut r: Vec<String> = Vec::new();
    let mut k: usize = 0;
    proof {
        reveal(Seq::filter);
        assert(possible_modules@.subrange(0, 0) =~= Seq::<String>::empty());
    }
    while k < possible_modules.len()
        invariant
            k <= possible_modules@.len(),
            r@ == possible_modules@.subrange(0, k as int).filter(pred),
            pred == (|m: String| code_set(plan_codes@).contains(m@)),
        decreases possible_modules@.len() - k,
    {
        let present = contains_code(plan_codes, possible_modules[k].as_str());
        if present {
            r.push(possible_modules[k].clone());
        }
        proof {
            reveal(Seq::filter);
            let sub = possible_modules@.subrange(0, k + 1);
            assert(sub.drop_last() =~= possible_modules@.subrange(0, k as int));
            assert(sub.last() == possible_modules@[k as int]);
        }
        k += 1;
    }
    proof {
        assert(possible_modules@.subrange(0, possible_modules@.len() as int)
            =~= possible_modules@);
    }
    r
}

} // verus!

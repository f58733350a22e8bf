//! Semester sequence generation: the chronological skeleton of the
//! semesters a student has left.

use vstd::prelude::*;
use vstd::string::StrSliceExecFns;
use vstd::string::StringExecFns;
use crate::models::plan::Plan;
use crate::models::plan::PlannedModule;
use crate::models::plan::SemesterPlan;
use crate::models::plan::SpecialActivity;
use crate::models::student::Student;
use crate::text::parse_u32;
use crate::text::spec_dec_str;
use crate::text::spec_parse_u32;
use crate::text::u64_to_dec_string;

verus! {

/// Failures of the engine: a malformed matriculation-year string, or a
/// current semester outside the candidature's range.
#[derive(Clone, Copy, Debug, PartialEq, Eq, Structural)]
pub enum PlanError {
    InvalidFormat,
    InvalidSemester,
}

/// `k` splits the string into exactly two slash-separated integer parts.
pub open spec fn is_year_split(s: Seq<char>, k: int) -> bool {
    &&& 0 <= k < s.len()
    &&& s[k] == '/'
    &&& forall|j: int| 0 <= j < s.len() && j != k ==> s[j] != '/'
    &&& spec_parse_u32(s.subrange(0, k)) is Some
    &&& spec_parse_u32(s.subrange(k + 1, s.len() as int)) is Some
}

/// The string has the form of an academic year: two slash-separated
/// integer parts.
pub open spec fn valid_year_string(s: Seq<char>) -> bool {
    exists|k: int| #[trigger] is_year_split(s, k)
}

/// The first of the two integer parts of a valid academic-year string.
pub open spec fn matric_start_year(s: Seq<char>) -> int {
    let k = choose|k: int| is_year_split(s, k);
    match spec_parse_u32(s.subrange(0, k)) {
        Some(v) => v as int,
        None => 0,
    }
}

/// The (academic year, semester number) pair reached `i` steps after a
/// starting year and starting semester number, alternating semesters
/// 1 and 2 and advancing the year after each semester 2.
pub open spec fn semester_at(start_year: int, start_sem: int, i: int) -> (int, int) {
    let t = (start_sem - 1) + i;
    (start_year + t / 2, t % 2 + 1)
}

/// The academic year in which a student with the given current semester
/// index stands, counting from a matriculation year.
pub open spec fn seq_start_year(s: Seq<char>, current_semester: u8) -> int {
    matric_start_year(s) + (current_semester - 1) / 2
}

/// The semester-in-year (1 or 2) of a 1-based semester index.
pub open spec fn seq_start_sem(current_semester: u8) -> int {
    (current_semester - 1) % 2 + 1
}

/// The academic-year label of the year starting at `y`: the decimal of
/// `y`, a slash, and the decimal of `y + 1`.
pub open spec fn year_label(y: int) -> Seq<char> {
    spec_dec_str(y as nat) + seq!['/'] + spec_dec_str((y + 1) as nat)
}

/// An empty semester skeleton for the given (year, semester) pair.
pub open spec fn skeleton_matches(sp: SemesterPlan, pair: (int, int)) -> bool {
    &&& sp.year@ == year_label(pair.0)
    &&& sp.semester as int == pair.1
    &&& sp.modules@ == Seq::<PlannedModule>::empty()
    &&& sp.total_units == 0
    &&& sp.special_activities@ == Seq::<SpecialActivity>::empty()
}

/// Consecutive pairs of the semester sequence alternate semester 1 to 2
/// within a year and 2 to 1 with the year advancing by one.
pub open spec fn adjacent_semesters(a: (int, int), b: (int, int)) -> bool {
    (a.1 == 1 && b.0 == a.0 && b.1 == 2) || (a.1 == 2 && b.0 == a.0 + 1 && b.1 == 1)
}

/// The generated semester sequence is strictly chronological: each pair
/// is adjacent to the next, and no (year, semester) pair repeats.
pub proof fn lemma_semester_sequence_chronological(start_year: int, start_sem: int, count: int)
    requires
        start_sem == 1 || start_sem == 2,
    ensures
        forall|i: int|
            0 <= i < count - 1 ==> adjacent_semesters(
                #[trigger] semester_at(start_year, start_sem, i),
                semester_at(start_year, start_sem, i + 1),
            ),
        forall|i: int, j: int|
            0 <= i < j < count ==> semester_at(start_year, start_sem, i) != semester_at(
                start_year,
                start_sem,
                j,
            ),
{
    assert forall|i: int, j: int| 0 <= i < j < count implies semester_at(start_year, start_sem, i)
        != semester_at(start_year, start_sem, j) by {
        let ti = (start_sem - 1) + i;
        let tj = (start_sem - 1) + j;
        assert(2 * (ti / 2) + ti % 2 == ti);
        assert(2 * (tj / 2) + tj % 2 == tj);
    }
}

/// Builds the academic-year label of the year starting at `y`.
fn year_label_string(y: u64) -> (r: String)
    requires
        y < u64::MAX,
    ensures
        r@ == year_label(y as int),
{
    let mut s = u64_to_dec_string(y);
    s.append("/");
    let second = u64_to_dec_string(y + 1);
    s.append(second.as_str());
    proof {
        reveal_strlit("/");
        assert(s@ =~= year_label(y as int));
    }
    s
}

/// The ordered skeleton of a student's remaining semesters: one empty
/// semester plan for each of `remaining_semesters` steps, starting from
/// the semester with 1-based index `current_semester` counted from the
/// matriculation year. Fails exactly when the matriculation-year string
/// does not split into two slash-separated integers.
pub fn generate_semester_sequence(
    matriculation_year: &str,
    current_semester: u8,
    remaining_semesters: u8,
) -> (r: Result<Vec<SemesterPlan>, PlanError>)
    requires
        1 <= current_semester,
    ensures
        match r {
            Ok(sems) => {
                &&& valid_year_string(matriculation_year@)
                &&& sems@.len() == remaining_semesters as int
                &&& forall|i: int|
                    0 <= i < sems@.len() ==> #[trigger] skeleton_matches(
                        sems@[i],
                        semester_at(
                            seq_start_year(matriculation_year@, current_semester),
                            seq_start_sem(current_semester),
                            i,
                        ),
                    )
            },
            Err(e) => e == PlanError::InvalidFormat && !valid_year_string(matriculation_year@),
        },
{
    let s = matriculation_year;
    let len = s.unicode_len();
    let mut slash: usize = 0;
    let mut nslash: usize = 0;
    let mut i: usize = 0;
    while i < len
        invariant
            i <= len,
            len == s@.len(),
            nslash <= i,
            nslash == 0 ==> forall|j: int| 0 <= j < i ==> s@[j] != '/',
            nslash >= 1 ==> slash < i && s@[slash as int] == '/' && (forall|j: int|
                0 <= j < slash ==> s@[j] != '/'),
            nslash == 1 ==> forall|j: int| slash < j < i ==> s@[j] != '/',
            nslash >= 2 ==> exists|p: int| slash < p < i && s@[p] == '/',
        decreases len - i,
    {
        if s.get_char(i) == '/' {
            if nslash == 0 {
                slash = i;
            }
            nslash += 1;
        }
        i += 1;
    }
    if nslash != 1 {
        proof {
            assert forall|k: int| !is_year_split(s@, k) by {
                if 0 <= k < s@.len() && s@[k] == '/' {
                    if nslash == 0 {
                        assert(false);
                    } else {
                        let p = choose|p: int| slash < p < s@.len() && s@[p] == '/';
                        if k == slash {
                            assert(s@[p] == '/');
                        } else {
                            assert(s@[slash as int] == '/');
                        }
                    }
                }
            }
        }
        return Err(PlanError::InvalidFormat);
    }
    let first = s.substring_char(0, slash);
    let second = s.substring_char(slash + 1, len);
    let parsed_first = parse_u32(first);
    let parsed_second = parse_u32(second);
    proof {
        assert(first@ == s@.subrange(0, slash as int));
        assert(second@ == s@.subrange(slash + 1, s@.len() as int));
        assert forall|k: int| is_year_split(s@, k) implies k == slash as int by {
            if k != slash as int {
                assert(s@[slash as int] == '/');
            }
        }
    }
    if parsed_first.is_none() || parsed_second.is_none() {
        proof {
            assert(!is_year_split(s@, slash as int));
            assert forall|k: int| !is_year_split(s@, k) by {
                if k != slash as int && is_year_split(s@, k) {
                    assert(s@[slash as int] == '/');
                }
            }
        }
        return Err(PlanError::InvalidFormat);
    }
    let start_year: u32 = match parsed_first {
        Some(v) => v,
        None => 0,
    };
    proof {
        assert(is_year_split(s@, slash as int));
        assert(valid_year_string(s@));
        let kk = choose|k: int| is_year_split(s@, k);
        assert(kk == slash as int);
        assert(matric_start_year(s@) == start_year as int);
    }
    let ghost sy = seq_start_year(s@, current_semester);
    let ghost ss = seq_start_sem(current_semester);
    let mut year: u64 = start_year as u64 + ((current_semester - 1) / 2) as u64;
    let mut sem: u8 = (current_semester - 1) % 2 + 1;
    proof {
        assert(year as int == semester_at(sy, ss, 0).0 && sem as int == semester_at(sy, ss, 0).1)
            by {
            let t = (ss - 1) + 0;
            assert(t / 2 == 0 && t % 2 == ss - 1);
        }
    }
    let mut sems: Vec<SemesterPlan> = Vec::new();
    let count = remaining_semesters as usize;
    let mut n: usize = 0;
    while n < count
        invariant
            n <= count,
            sems@.len() == n as int,
            sem == 1 || sem == 2,
            ss == 1 || ss == 2,
            year as int == semester_at(sy, ss, n as int).0,
            sem as int == semester_at(sy, ss, n as int).1,
            year as int <= sy + (n as int + 1),
            sy <= u32::MAX as int + 127,
            count <= 255,
            forall|i: int|
                0 <= i < n as int ==> #[trigger] skeleton_matches(
                    sems@[i],
                    semester_at(sy, ss, i),
                ),
        decreases count - n,
    {
        let year_str = year_label_string(year);
        sems.push(
            SemesterPlan {
                year: year_str,
                semester: sem,
                modules: Vec::new(),
                total_units: 0,
                special_activities: Vec::new(),
            },
        );
        proof {
            let t = (ss - 1) + n as int;
            assert(2 * (t / 2) + t % 2 == t);
            assert(2 * ((t + 1) / 2) + (t + 1) % 2 == t + 1);
        }
        if sem == 2 {
            sem = 1;
            year += 1;
        } else {
            sem = 2;
        }
        n += 1;
    }
    Ok(sems)
}

/// Appends the skeleton of the student's remaining semesters to the
/// plan. Rejects a current semester of zero or one past the
/// candidature's total, and a malformed matriculation-year string.
pub fn initialize_plan_semesters(plan: &mut Plan, student: &Student) -> (r: Result<
    (),
    PlanError,
>)
    ensures
        (r is Ok) == (1 <= student.current_semester as int
            <= student.candidature_type.spec_total_semesters() && valid_year_string(
            student.matriculation_year@,
        )),
        match r {
            Ok(()) => {
                let added = student.candidature_type.spec_total_semesters()
                    - student.current_semester as int;
                let sy = seq_start_year(student.matriculation_year@, student.current_semester);
                let ss = seq_start_sem(student.current_semester);
                &&& final(plan).semesters@.len() == old(plan).semesters@.len() + added
                &&& forall|i: int|
                    0 <= i < old(plan).semesters@.len() ==> final(plan).semesters@[i] == old(
                        plan,
                    ).semesters@[i]
                &&& forall|i: int|
                    old(plan).semesters@.len() <= i < final(plan).semesters@.len()
                        ==> #[trigger] skeleton_matches(
                        final(plan).semesters@[i],
                        semester_at(sy, ss, i - old(plan).semesters@.len()),
                    )
            },
            Err(e) => {
                &&& *final(plan) == *old(plan)
                &&& (e == PlanError::InvalidSemester) == !(1 <= student.current_semester as int
                    <= student.candidature_type.spec_total_semesters())
            },
        },
        final(plan).id == old(plan).id,
        final(plan).name == old(plan).name,
        final(plan).student_id == old(plan).student_id,
        final(plan).created_at == old(plan).created_at,
        final(plan).modified_at == old(plan).modified_at,
        final(plan).target_graduation == old(plan).target_graduation,
        final(plan).notes == old(plan).notes,
{
    let total: u8 = match student.candidature_type {
        crate::models::student::CandidatureType::Standard => 8,
        crate::models::student::CandidatureType::DoubleHonours => 10,
        crate::models::student::CandidatureType::DoubleDegreeProgramme => 10,
        crate::models::student::CandidatureType::ConcurrentDegree => 10,
        crate::models::student::CandidatureType::EngineeringScholars => 8,
    };
    if student.current_semester < 1 || student.current_semester > total {
        return Err(PlanError::InvalidSemester);
    }
    let remaining = student.remaining_semesters();
    match generate_semester_sequence(
        student.matriculation_year.as_str(),
        student.current_semester,
        remaining,
    ) {
        Ok(mut sems) => {
            let ghost appended = sems@;
            plan.semesters.append(&mut sems);
            proof {
                assert(plan.semesters@ == old(plan).semesters@ + appended);
            }
            Ok(())
        },
        Err(e) => Err(e),
    }
}

} // verus!

//! Grade statistics over a fixed roster of students.
//!
//! A GPA is held in tenths of a point (`39` for 3.9), so the comparisons with
//! the average GPA are exact: a GPA is above the average of `count` grades
//! summing to `total` exactly when `gpa * count > total`.
use vstd::prelude::*;

verus! {

/// The academic year of a student.
#[derive(PartialEq, Eq, Structural, Clone, Copy, Debug)]
pub enum ClassYear {
    Senior,
    Junior,
    Sophomore,
    FirstYear,
}

/// The highest GPA, in tenths of a point.
pub const MAX_GPA_TENTHS: u32 = 40;

/// A student with a name, a class year and a GPA in tenths of a point.
pub struct Student {
    pub name: &'static str,
    pub class_year: ClassYear,
    pub gpa_tenths: u32,
}

/// Class year and GPA of each student of the roster, in roster order.
pub open spec fn roster_grades() -> Seq<(ClassYear, u32)> {
    seq![
        (ClassYear::Senior, 39),
        (ClassYear::Sophomore, 23),
        (ClassYear::Junior, 39),
        (ClassYear::Senior, 31),
        (ClassYear::Senior, 0),
        (ClassYear::FirstYear, 40),
        (ClassYear::FirstYear, 40),
        (ClassYear::Junior, 36),
    ]
}

/// The roster has eight students, each GPA at most the highest one.
proof fn lemma_roster_bounded()
    ensures
        roster_grades().len() == 8,
        forall|j: int| 0 <= j < 8 ==> #[trigger] roster_grades()[j].1 <= MAX_GPA_TENTHS,
{
    assert forall|j: int| 0 <= j < 8 implies #[trigger] roster_grades()[j].1 <= MAX_GPA_TENTHS by {
        if j == 0 {
        } else if j == 1 {
        } else if j == 2 {
        } else if j == 3 {
        } else if j == 4 {
        } else if j == 5 {
        } else if j == 6 {
        } else {
        }
    }
}

/// Class year and GPA of each student of `s`.
pub open spec fn grades_of(s: Seq<Student>) -> Seq<(ClassYear, u32)> {
    s.map_values(|st: Student| (st.class_year, st.gpa_tenths))
}

/// Sum of the GPAs of the students of `g` that are not first-year students.
pub open spec fn spec_gpa_total(g: Seq<(ClassYear, u32)>) -> nat
    decreases g.len(),
{
    if g.len() == 0 {
        0
    } else {
        spec_gpa_total(g.drop_last()) + if g.last().0 != ClassYear::FirstYear {
            g.last().1 as nat
        } else {
            0
        }
    }
}

/// Number of students of `g` that are not first-year students.
pub open spec fn spec_gpa_count(g: Seq<(ClassYear, u32)>) -> nat
    decreases g.len(),
{
    if g.len() == 0 {
        0
    } else {
        spec_gpa_count(g.drop_last()) + if g.last().0 != ClassYear::FirstYear {
            1nat
        } else {
            0
        }
    }
}

/// Whether `gpa` is above the average of `count` grades summing to `total`,
/// the average of no grades being zero.
pub open spec fn above_average(gpa: nat, total: nat, count: nat) -> bool {
    if count == 0 {
        gpa > 0
    } else {
        gpa * count > total
    }
}

/// Number of students of `g` in `year` whose GPA is above the average of
/// `total` over `count`.
pub open spec fn spec_excelling(g: Seq<(ClassYear, u32)>, year: ClassYear, total: nat, count: nat) -> nat
    decreases g.len(),
{
    if g.len() == 0 {
        0
    } else {
        spec_excelling(g.drop_last(), year, total, count) + if g.last().0 == year
            && above_average(g.last().1 as nat, total, count) {
            1nat
        } else {
            0
        }
    }
}

/// Number of students of the roster in `year` whose GPA is above the average
/// GPA of the students that are not first-year students.
pub open spec fn spec_num_excel(year: ClassYear) -> nat {
    spec_excelling(
        roster_grades(),
        year,
        spec_gpa_total(roster_grades()),
        spec_gpa_count(roster_grades()),
    )
}

/// The class, among seniors, juniors and sophomores in that order, with the
/// most excelling students; the first of them on a tie.
pub open spec fn spec_best_class(seniors: nat, juniors: nat, sophomores: nat) -> ClassYear {
    if sophomores > seniors && sophomores > juniors {
        ClassYear::Sophomore
    } else if juniors > seniors {
        ClassYear::Junior
    } else {
        ClassYear::Senior
    }
}

/// The students of the roster.
pub fn olin_students() -> (r: Vec<Student>)
    ensures
        grades_of(r@) == roster_grades(),
{
    let mut r: Vec<Student> = Vec::new();
    r.push(Student { name: "Alice", class_year: ClassYear::Senior, gpa_tenths: 39 });
    r.push(Student { name: "Foo", class_year: ClassYear::Sophomore, gpa_tenths: 23 });
    r.push(Student { name: "Bar", class_year: ClassYear::Junior, gpa_tenths: 39 });
    r.push(Student { name: "Ralph", class_year: ClassYear::Senior, gpa_tenths: 31 });
    r.push(Student { name: "Ayush", class_year: ClassYear::Senior, gpa_tenths: 0 });
    r.push(Student { name: "Anna", class_year: ClassYear::FirstYear, gpa_tenths: 40 });
    r.push(Student { name: "Hannah", class_year: ClassYear::FirstYear, gpa_tenths: 40 });
    r.push(Student { name: "Lorin", class_year: ClassYear::Junior, gpa_tenths: 36 });
    assert(grades_of(r@) =~= roster_grades());
    r
}

/// Sum (in tenths) and number of the GPAs of the roster's students that are
/// not first-year students; their average GPA is the one over the other.
pub fn get_gpa_total_and_count() -> (r: (u32, u32))
    ensures
        r.0 == spec_gpa_total(roster_grades()),
        r.1 == spec_gpa_count(roster_grades()),
        r.0 <= MAX_GPA_TENTHS * 8,
        r.1 <= 8,
{
    let students = olin_students();
    let mut total: u32 = 0;
    let mut count: u32 = 0;
    let mut i: usize = 0;
    while i < students.len()
        invariant
            i <= students.len(),
            grades_of(students@) == roster_grades(),
            total == spec_gpa_total(roster_grades().take(i as int)),
            count == spec_gpa_count(roster_grades().take(i as int)),
            total <= MAX_GPA_TENTHS * i,
            count <= i,
        decreases students.len() - i,
    {
        assert(roster_grades().take(i + 1).drop_last() =~= roster_grades().take(i as int));
        assert(students@[i as int].gpa_tenths == roster_grades()[i as int].1);
        proof {
            lemma_roster_bounded();
        }
        if students[i].class_year != ClassYear::FirstYear {
            total = total + students[i].gpa_tenths;
            count = count + 1;
        }
        i = i + 1;
    }
    assert(students@.len() == grades_of(students@).len());
    assert(roster_grades().take(i as int) =~= roster_grades());
    (total, count)
}

/// Number of students of the roster in `class_year` whose GPA is above the
/// average GPA of the students that are not first-year students.
pub fn get_num_excel_students_for_class(class_year: ClassYear) -> (r: u32)
    ensures
        r == spec_num_excel(class_year),
{
    let (total, count) = get_gpa_total_and_count();
    let students = olin_students();
    let mut n: u32 = 0;
    let mut i: usize = 0;
    while i < students.len()
        invariant
            i <= students.len(),
            grades_of(students@) == roster_grades(),
            total == spec_gpa_total(roster_grades()),
            count == spec_gpa_count(roster_grades()),
            total <= MAX_GPA_TENTHS * 8,
            count <= 8,
            n == spec_excelling(roster_grades().take(i as int), class_year, total as nat, count as nat),
            n <= i,
        decreases students.len() - i,
    {
        assert(roster_grades().take(i + 1).drop_last() =~= roster_grades().take(i as int));
        let g = students[i].gpa_tenths;
        assert(g == roster_grades()[i as int].1);
        proof {
            lemma_roster_bounded();
            assert(g * count <= MAX_GPA_TENTHS * 8) by (nonlinear_arith)
                requires
                    g <= MAX_GPA_TENTHS,
                    count <= 8,
            ;
        }
        let excels = if count == 0 {
            g > 0
        } else {
            (g as u64) * (count as u64) > total as u64
        };
        if students[i].class_year == class_year && excels {
            n = n + 1;
        }
        i = i + 1;
    }
    assert(roster_grades().take(i as int) =~= roster_grades());
    n
}

/// The class year, among seniors, juniors and sophomores, with the most
/// students above the average GPA; on a tie the one named first.
pub fn get_best_class() -> (r: ClassYear)
    ensures
        r == spec_best_class(
            spec_num_excel(ClassYear::Senior),
            spec_num_excel(ClassYear::Junior),
            spec_num_excel(ClassYear::Sophomore),
        ),
{
    let class_years: [ClassYear; 3] = [ClassYear::Senior, ClassYear::Junior, ClassYear::Sophomore];
    let mut best_class = ClassYear::Senior;
    let mut max_excelling: u32 = 0;
    let mut k: usize = 0;
    while k < 3
        invariant
            k <= 3,
            class_years@ == seq![ClassYear::Senior, ClassYear::Junior, ClassYear::Sophomore],
            k == 0 ==> best_class == ClassYear::Senior && max_excelling == 0,
            k == 1 ==> best_class == ClassYear::Senior && max_excelling == spec_num_excel(
                ClassYear::Senior,
            ),
            k == 2 ==> best_class == spec_best_class(
                spec_num_excel(ClassYear::Senior),
                spec_num_excel(ClassYear::Junior),
                0,
            ) && max_excelling == if spec_num_excel(ClassYear::Junior) > spec_num_excel(
                ClassYear::Senior,
            ) {
                spec_num_excel(ClassYear::Junior)
            } else {
                spec_num_excel(ClassYear::Senior)
            },
            k == 3 ==> best_class == spec_best_class(
                spec_num_excel(ClassYear::Senior),
                spec_num_excel(ClassYear::Junior),
                spec_num_excel(ClassYear::Sophomore),
            ),
        decreases 3 - k,
    {
        let class_year = class_years[k];
        let excelling_students = get_num_excel_students_for_class(class_year);
        if excelling_students > max_excelling {
            max_excelling = excelling_students;
            best_class = class_year;
        }
        k = k + 1;
    }
    best_class
}

} // verus!

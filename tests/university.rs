use rust_exercises::university::{
    get_best_class, get_gpa_total_and_count, get_num_excel_students_for_class, olin_students,
    ClassYear,
};

#[test]
fn test_get_num_excel_students_for_class() {
    assert_eq!(get_num_excel_students_for_class(ClassYear::Sophomore), 0);
    assert_eq!(get_num_excel_students_for_class(ClassYear::Junior), 2);
    assert_eq!(get_num_excel_students_for_class(ClassYear::Senior), 2);
}

#[test]
fn test_get_best_class() {
    assert_eq!(get_best_class(), ClassYear::Senior);
}

#[test]
fn first_years_are_left_out_of_the_average() {
    assert_eq!(get_gpa_total_and_count(), (168, 6));
    assert_eq!(get_num_excel_students_for_class(ClassYear::FirstYear), 2);
}

#[test]
fn roster_holds_eight_students() {
    let students = olin_students();
    assert_eq!(students.len(), 8);
    assert_eq!(students[0].name, "Alice");
    assert_eq!(students[7].gpa_tenths, 36);
}

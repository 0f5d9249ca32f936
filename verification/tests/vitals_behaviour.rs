use glycerin::vitals::{performance_grade, vitals_score, Rating};

#[test]
fn good_vitals_score_full_marks() {
    assert_eq!(vitals_score(Rating::Good, Rating::Good, Rating::Good), 100);
    assert_eq!(performance_grade(100), 'A');
}

#[test]
fn each_vital_takes_its_own_points_off() {
    assert_eq!(vitals_score(Rating::NeedsImprovement, Rating::Good, Rating::Good), 85);
    assert_eq!(vitals_score(Rating::Poor, Rating::Good, Rating::Good), 70);
    assert_eq!(vitals_score(Rating::Good, Rating::NeedsImprovement, Rating::Good), 88);
    assert_eq!(vitals_score(Rating::Good, Rating::Poor, Rating::Good), 75);
    assert_eq!(vitals_score(Rating::Good, Rating::Good, Rating::NeedsImprovement), 88);
    assert_eq!(vitals_score(Rating::Good, Rating::Good, Rating::Poor), 75);
    assert_eq!(vitals_score(Rating::NeedsImprovement, Rating::Good, Rating::NeedsImprovement), 73);
    assert_eq!(vitals_score(Rating::Poor, Rating::Poor, Rating::Poor), 20);
}

#[test]
fn grades_follow_the_score_bands() {
    assert_eq!(performance_grade(90), 'A');
    assert_eq!(performance_grade(89), 'B');
    assert_eq!(performance_grade(80), 'B');
    assert_eq!(performance_grade(79), 'C');
    assert_eq!(performance_grade(70), 'C');
    assert_eq!(performance_grade(69), 'D');
    assert_eq!(performance_grade(60), 'D');
    assert_eq!(performance_grade(59), 'F');
    assert_eq!(performance_grade(0), 'F');
    assert_eq!(performance_grade(vitals_score(Rating::Poor, Rating::NeedsImprovement, Rating::Good)), 'F');
}

#[test]
fn worse_vitals_never_grade_better() {
    let better = vitals_score(Rating::Good, Rating::NeedsImprovement, Rating::Good);
    let worse = vitals_score(Rating::NeedsImprovement, Rating::Poor, Rating::Good);
    assert!(worse <= better);
    assert!(performance_grade(worse) >= performance_grade(better));
}

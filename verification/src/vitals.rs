//! Core Web Vitals scoring: each vital is rated good, in need of
//! improvement, or poor; the ratings take points off a score of 100, and the
//! score maps to a letter grade.
use vstd::prelude::*;

verus! {

/// How a measured vital compares with its thresholds.
#[derive(Clone, Copy, Debug, PartialEq, Eq, Structural)]
pub enum Rating {
    Good,
    NeedsImprovement,
    Poor,
}

/// The points a rating takes off: `poor` when poor, `needs` when it needs
/// improvement, none when good.
pub open spec fn penalty(r: Rating, poor: int, needs: int) -> int {
    match r {
        Rating::Good => 0,
        Rating::NeedsImprovement => needs,
        Rating::Poor => poor,
    }
}

/// The score of three ratings: largest contentful paint costs 30 or 15
/// points, layout shift and responsiveness 25 or 12 each.
pub open spec fn score_of(lcp: Rating, cls: Rating, responsiveness: Rating) -> int {
    100 - penalty(lcp, 30, 15) - penalty(cls, 25, 12) - penalty(responsiveness, 25, 12)
}

/// The letter grade of a score.
pub open spec fn grade_of(score: int) -> char {
    if score >= 90 {
        'A'
    } else if score >= 80 {
        'B'
    } else if score >= 70 {
        'C'
    } else if score >= 60 {
        'D'
    } else {
        'F'
    }
}

/// `a` is no better than `b`.
pub open spec fn no_better(a: Rating, b: Rating) -> bool {
    penalty(a, 2, 1) >= penalty(b, 2, 1)
}

fn take_off(score: u8, r: Rating, poor: u8, needs: u8) -> (s: u8)
    ensures
        s == if score >= penalty(r, poor as int, needs as int) {
            score - penalty(r, poor as int, needs as int)
        } else {
            0
        },
{
    match r {
        Rating::Good => score,
        Rating::NeedsImprovement => score.saturating_sub(needs),
        Rating::Poor => score.saturating_sub(poor),
    }
}

/// The Core Web Vitals score, 0 to 100, of the three ratings.
pub fn vitals_score(lcp: Rating, cls: Rating, responsiveness: Rating) -> (s: u8)
    ensures
        s == score_of(lcp, cls, responsiveness),
        20 <= s <= 100,
{
    let s = take_off(100, lcp, 30, 15);
    let s = take_off(s, cls, 25, 12);
    take_off(s, responsiveness, 25, 12)
}

/// The grade of a score: A from 90, B from 80, C from 70, D from 60, else F.
pub fn performance_grade(score: u8) -> (g: char)
    ensures
        g == grade_of(score as int),
{
    if score >= 90 {
        'A'
    } else if score >= 80 {
        'B'
    } else if score >= 70 {
        'C'
    } else if score >= 60 {
        'D'
    } else {
        'F'
    }
}

/// A vital that gets worse never raises the score, and never improves the
/// grade (letters later in the alphabet are worse).
pub proof fn law_worse_vitals_never_score_higher(
    lcp: Rating,
    cls: Rating,
    resp: Rating,
    lcp2: Rating,
    cls2: Rating,
    resp2: Rating,
)
    requires
        no_better(lcp2, lcp),
        no_better(cls2, cls),
        no_better(resp2, resp),
    ensures
        score_of(lcp2, cls2, resp2) <= score_of(lcp, cls, resp),
        grade_of(score_of(lcp2, cls2, resp2)) as u32 >= grade_of(score_of(lcp, cls, resp)) as u32,
{
}

} // verus!

//! The rules of derived completion and of the progress percentage, stated
//! over counts alone so that every path through the engine decides alike.
use vstd::prelude::*;
use vstd::arithmetic::div_mod::lemma_fundamental_div_mod_converse;
use crate::error::EngineError;

verus! {

/// A parent is complete when it has at least one child and as many completed
/// children as children.
pub open spec fn all_children_done(total: int, completed: int) -> bool {
    total > 0 && completed == total
}

/// Decides whether a parent with `total` children, `completed` of them done,
/// counts as complete.
pub fn is_fully_complete(total: u64, completed: u64) -> (done: bool)
    ensures
        done == all_children_done(total as int, completed as int),
{
    total > 0 && completed == total
}

/// Answers a request to complete a module from the number of its lessons
/// and the number of those that the learner has completed.
pub fn require_lessons_complete(total_lessons: u64, completed_lessons: u64) -> (outcome: Result<
    (),
    EngineError,
>)
    ensures
        all_children_done(total_lessons as int, completed_lessons as int) ==> outcome == Ok::<
            (),
            EngineError,
        >(()),
        !all_children_done(total_lessons as int, completed_lessons as int) ==> outcome == Err::<
            (),
            EngineError,
        >(EngineError::NotAllLessonsCompleted),
{
    if is_fully_complete(total_lessons, completed_lessons) {
        Ok(())
    } else {
        Err(EngineError::NotAllLessonsCompleted)
    }
}

/// Answers a request to complete a course from the number of its modules
/// and the number of those that the learner has completed.
pub fn require_modules_complete(total_modules: u64, completed_modules: u64) -> (outcome: Result<
    (),
    EngineError,
>)
    ensures
        all_children_done(total_modules as int, completed_modules as int) ==> outcome == Ok::<
            (),
            EngineError,
        >(()),
        !all_children_done(total_modules as int, completed_modules as int) ==> outcome == Err::<
            (),
            EngineError,
        >(EngineError::NotAllModulesCompleted),
{
    if is_fully_complete(total_modules, completed_modules) {
        Ok(())
    } else {
        Err(EngineError::NotAllModulesCompleted)
    }
}

/// Checks the keys of a lesson completion against what is stored: the
/// module that the lesson belongs to and the course that the module belongs
/// to, each `None` where the row does not exist.
pub fn check_lesson_keys(
    module_of_lesson: Option<i64>,
    course_of_module: Option<i64>,
    module_id: i64,
    course_id: i64,
) -> (outcome: Result<(), EngineError>)
    ensures
        (module_of_lesson == Some(module_id) && course_of_module == Some(course_id)) ==> outcome
            == Ok::<(), EngineError>(()),
        !(module_of_lesson == Some(module_id) && course_of_module == Some(course_id)) ==> outcome
            == Err::<(), EngineError>(EngineError::ParentMismatch),
{
    match (module_of_lesson, course_of_module) {
        (Some(module), Some(course)) => {
            if module == module_id && course == course_id {
                Ok(())
            } else {
                Err(EngineError::ParentMismatch)
            }
        },
        _ => Err(EngineError::ParentMismatch),
    }
}

/// A position can be stored when it lies in the 32-bit signed range.
pub open spec fn position_fits(position: i64) -> bool {
    i32::MIN <= position <= i32::MAX
}

/// Narrows a position to 32 bits, or refuses it.
pub fn checked_position(position: i64) -> (narrowed: Option<i32>)
    ensures
        position_fits(position) ==> narrowed == Some(position as i32),
        !position_fits(position) ==> narrowed is None,
{
    if -2147483648 <= position && position <= 2147483647 {
        Some(position as i32)
    } else {
        None
    }
}

/// The total that a ratio is taken over: a missing total counts as one, so
/// that its term contributes zero instead of dropping out of the average.
pub open spec fn effective_total(total: int) -> int {
    if total > 0 {
        total
    } else {
        1
    }
}

/// The completed count of a ratio, held to the range from zero to the total.
pub open spec fn effective_done(completed: int, total: int) -> int {
    if total <= 0 || completed <= 0 {
        0
    } else if completed > total {
        total
    } else {
        completed
    }
}

/// Numerator of the progress percentage: the percentage is the mean of the
/// lesson ratio and the module ratio, times one hundred, which is this
/// numerator over `percent_denominator`.
pub open spec fn percent_numerator(
    completed_lessons: int,
    total_lessons: int,
    completed_modules: int,
    total_modules: int,
) -> int {
    50 * (effective_done(completed_lessons, total_lessons) * effective_total(total_modules)
        + effective_done(completed_modules, total_modules) * effective_total(total_lessons))
}

/// Denominator of the progress percentage.
pub open spec fn percent_denominator(total_lessons: int, total_modules: int) -> int {
    effective_total(total_lessons) * effective_total(total_modules)
}

/// A progress percentage held exactly: `whole` percent and
/// `remainder / denominator` of one more.
#[derive(Clone, Copy, Debug, PartialEq, Eq)]
pub struct ProgressPercent {
    pub whole: u8,
    pub remainder: u128,
    pub denominator: u128,
}

impl ProgressPercent {
    /// The percentage that the four counts give.
    pub open spec fn is_percent_of(
        &self,
        completed_lessons: int,
        total_lessons: int,
        completed_modules: int,
        total_modules: int,
    ) -> bool {
        let n = percent_numerator(
            completed_lessons,
            total_lessons,
            completed_modules,
            total_modules,
        );
        let d = percent_denominator(total_lessons, total_modules);
        &&& self.denominator == d
        &&& self.whole == n / d
        &&& self.remainder == n % d
    }

    /// The percentage without its fraction.
    pub fn truncated(&self) -> (percent: u8)
        ensures
            percent == self.whole,
    {
        self.whole
    }
}

/// The progress percentage of the four counts, as a value.
pub open spec fn percent_of(
    completed_lessons: int,
    total_lessons: int,
    completed_modules: int,
    total_modules: int,
) -> ProgressPercent {
    let n = percent_numerator(completed_lessons, total_lessons, completed_modules, total_modules);
    let d = percent_denominator(total_lessons, total_modules);
    ProgressPercent { whole: (n / d) as u8, remainder: (n % d) as u128, denominator: d as u128 }
}

/// The numerator never exceeds one hundred times the denominator, and neither
/// is negative.
pub proof fn law_percent_is_within_hundred(
    completed_lessons: int,
    total_lessons: int,
    completed_modules: int,
    total_modules: int,
)
    ensures
        percent_denominator(total_lessons, total_modules) > 0,
        0 <= percent_numerator(completed_lessons, total_lessons, completed_modules, total_modules)
            <= 100 * percent_denominator(total_lessons, total_modules),
        0 <= percent_numerator(completed_lessons, total_lessons, completed_modules, total_modules)
            / percent_denominator(total_lessons, total_modules) <= 100,
{
    let el = effective_done(completed_lessons, total_lessons);
    let em = effective_done(completed_modules, total_modules);
    let tl = effective_total(total_lessons);
    let tm = effective_total(total_modules);
    let n = percent_numerator(completed_lessons, total_lessons, completed_modules, total_modules);
    let d = percent_denominator(total_lessons, total_modules);
    assert(0 <= el <= tl && 0 <= em <= tm && tl >= 1 && tm >= 1);
    assert(d > 0 && 0 <= n <= 100 * d) by (nonlinear_arith)
        requires
            0 <= el <= tl,
            0 <= em <= tm,
            tl >= 1,
            tm >= 1,
            n == 50 * (el * tm + em * tl),
            d == tl * tm,
    ;
    assert(0 <= n / d <= 100) by (nonlinear_arith)
        requires
            d > 0,
            0 <= n <= 100 * d,
    ;
}

/// Computes the progress percentage of the four counts: the mean of the
/// lesson ratio and the module ratio, each held to the range from zero to
/// one, scaled to one hundred. A ratio over a total of zero contributes zero.
pub fn progress_percent(
    completed_lessons: u64,
    total_lessons: u64,
    completed_modules: u64,
    total_modules: u64,
) -> (percent: ProgressPercent)
    ensures
        percent.is_percent_of(
            completed_lessons as int,
            total_lessons as int,
            completed_modules as int,
            total_modules as int,
        ),
        percent.whole <= 100,
        percent.remainder < percent.denominator,
        percent == percent_of(
            completed_lessons as int,
            total_lessons as int,
            completed_modules as int,
            total_modules as int,
        ),
{
    let el: u64 = if total_lessons == 0 {
        0
    } else if completed_lessons > total_lessons {
        total_lessons
    } else {
        completed_lessons
    };
    let em: u64 = if total_modules == 0 {
        0
    } else if completed_modules > total_modules {
        total_modules
    } else {
        completed_modules
    };
    let tl: u64 = if total_lessons == 0 {
        1
    } else {
        total_lessons
    };
    let tm: u64 = if total_modules == 0 {
        1
    } else {
        total_modules
    };
    let a: u128 = 50 * (el as u128);
    let b: u128 = 50 * (em as u128);
    let q1: u128 = a / (tl as u128);
    let r1: u128 = a % (tl as u128);
    let q2: u128 = b / (tm as u128);
    let r2: u128 = b % (tm as u128);
    proof {
        assert(q1 <= 50 && (q1 == 50 ==> r1 == 0) && a == q1 * tl + r1) by (nonlinear_arith)
            requires
                q1 == a / (tl as u128),
                r1 == a % (tl as u128),
                a <= 50 * tl,
                tl >= 1,
        ;
        assert(q2 <= 50 && (q2 == 50 ==> r2 == 0) && b == q2 * tm + r2) by (nonlinear_arith)
            requires
                q2 == b / (tm as u128),
                r2 == b % (tm as u128),
                b <= 50 * tm,
                tm >= 1,
        ;
        assert(tl * tm <= 0xffff_ffff_ffff_ffff * 0xffff_ffff_ffff_ffff && r1 * tm < tl * tm && r2
            * tl < tl * tm && tl * tm >= 1) by (nonlinear_arith)
            requires
                1 <= tl <= 0xffff_ffff_ffff_ffff,
                1 <= tm <= 0xffff_ffff_ffff_ffff,
                0 <= r1 < tl,
                0 <= r2 < tm,
        ;
    }
    let d: u128 = (tl as u128) * (tm as u128);
    let x: u128 = r1 * (tm as u128);
    let y: u128 = r2 * (tl as u128);
    let ghost n = percent_numerator(
        completed_lessons as int,
        total_lessons as int,
        completed_modules as int,
        total_modules as int,
    );
    proof {
        assert((r1 == 0 ==> x == 0) && (r2 == 0 ==> y == 0)) by (nonlinear_arith)
            requires
                x == r1 * tm,
                y == r2 * tl,
        ;
        assert(n == (q1 + q2) * d + x + y) by (nonlinear_arith)
            requires
                n == 50 * (el * tm + em * tl),
                50 * el == q1 * tl + r1,
                50 * em == q2 * tm + r2,
                d == tl * tm,
                x == r1 * tm,
                y == r2 * tl,
        ;
    }
    if x >= d - y {
        let whole: u128 = q1 + q2 + 1;
        let rem: u128 = x - (d - y);
        proof {
            assert(n == whole * d + rem) by (nonlinear_arith)
                requires
                    n == (q1 + q2) * d + x + y,
                    whole == q1 + q2 + 1,
                    rem == x + y - d,
            ;
            lemma_fundamental_div_mod_converse(n, d as int, whole as int, rem as int);
        }
        ProgressPercent { whole: whole as u8, remainder: rem, denominator: d }
    } else {
        let whole: u128 = q1 + q2;
        let rem: u128 = x + y;
        proof {
            lemma_fundamental_div_mod_converse(n, d as int, whole as int, rem as int);
        }
        ProgressPercent { whole: whole as u8, remainder: rem, denominator: d }
    }
}

/// The share of completed modules in whole percent, rounded down; zero when
/// there is no module.
pub open spec fn module_share_percent(total_modules: int, completed_modules: int) -> int {
    if total_modules > 0 {
        effective_done(completed_modules, total_modules) * 100 / total_modules
    } else {
        0
    }
}

/// Computes the share of completed modules in whole percent.
pub fn module_percent(total_modules: u64, completed_modules: u64) -> (percent: u8)
    ensures
        percent == module_share_percent(total_modules as int, completed_modules as int),
        percent <= 100,
{
    if total_modules == 0 {
        0
    } else {
        let done: u64 = if completed_modules > total_modules {
            total_modules
        } else {
            completed_modules
        };
        let scaled: u128 = (done as u128) * 100;
        let share: u128 = scaled / (total_modules as u128);
        proof {
            assert(share <= 100) by (nonlinear_arith)
                requires
                    share == scaled / (total_modules as u128),
                    scaled <= 100 * total_modules,
                    total_modules >= 1,
            ;
        }
        share as u8
    }
}

} // verus!

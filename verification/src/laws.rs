//! What holds of the engine as a whole, each law proved from the state's
//! well-formedness and the operations' definitions.
use vstd::prelude::*;
use crate::derivation::{
    child_count, child_of, children_complete, done_child_count, has_child, lemma_counts_decide,
    lemma_derive_again, lemma_insert_unique,
};
use crate::invariants::{
    lemma_record_lesson_keeps_wf, lemma_record_quiz_keeps_wf, lemma_upsert_quiz_result,
};
use crate::models::course::LessonView;
use crate::report::{module_id, module_of_course};
use crate::rules::{effective_done, effective_total, percent_denominator, percent_numerator};
use crate::selection::{lemma_select_none, lemma_select_step, select};
use crate::state::{course_ids, module_ids, QuizCompletionView, StoreState};
use crate::tree::{built_module, lessons_of, module_is_first, quiz_of};

verus! {

/// In a course that has a module, and in which every module has a lesson,
/// the course completion exists exactly when the learner has completed every
/// lesson of the course: it is there after the last lesson, and not before.
pub proof fn law_course_completes_with_last_lesson(
    s: StoreState,
    learner: Seq<char>,
    course_id: i64,
)
    requires
        s.wf(),
        exists|module_id: i64| s.module_in_course(module_id, course_id),
        forall|module_id: i64| #[trigger]
            s.module_in_course(module_id, course_id) ==> has_child(
                module_ids(s.lessons),
                module_id,
            ),
    ensures
        s.course_done(learner, course_id) <==> forall|lesson_id: i64| #[trigger]
            s.lesson_in_course(lesson_id, course_id) ==> s.lesson_done(learner, lesson_id),
{
    let lessons = module_ids(s.lessons);
    let modules = course_ids(s.modules);
    assert(s.course_done(learner, course_id) <==> children_complete(
        modules,
        s.module_completions,
        learner,
        course_id,
    ));
    if s.course_done(learner, course_id) {
        assert forall|lesson_id: i64| #[trigger]
            s.lesson_in_course(lesson_id, course_id) implies s.lesson_done(learner, lesson_id) by {
            let module_id = s.lessons[lesson_id - 1].module_id;
            assert(child_of(modules, module_id, course_id));
            assert(s.module_completions.contains((learner, module_id)));
            assert(children_complete(lessons, s.lesson_completions, learner, module_id));
            assert(child_of(lessons, lesson_id, module_id));
        }
    }
    if forall|lesson_id: i64| #[trigger]
        s.lesson_in_course(lesson_id, course_id) ==> s.lesson_done(learner, lesson_id) {
        assert forall|module_id: i64| #[trigger]
            child_of(modules, module_id, course_id) implies s.module_completions.contains(
            (learner, module_id),
        ) by {
            assert(s.module_in_course(module_id, course_id));
            assert forall|lesson_id: i64| #[trigger]
                child_of(lessons, lesson_id, module_id) implies s.lesson_completions.contains(
                (learner, lesson_id),
            ) by {
                assert(s.lesson_in_course(lesson_id, course_id));
            }
            assert(children_complete(lessons, s.lesson_completions, learner, module_id));
        }
        let module_id = choose|module_id: i64| s.module_in_course(module_id, course_id);
        assert(child_of(modules, module_id, course_id));
    }
}

/// Recording the same lesson completion a second time changes nothing, and
/// is accepted if the first was.
pub proof fn law_lesson_completion_is_idempotent(
    s: StoreState,
    learner: Seq<char>,
    lesson_id: i64,
    module_id: i64,
    course_id: i64,
)
    requires
        s.wf(),
    ensures
        ({
            let once = s.record_lesson_completion(learner, lesson_id, module_id, course_id);
            &&& once.record_lesson_completion(learner, lesson_id, module_id, course_id) == once
            &&& once.lesson_keys_agree(lesson_id, module_id, course_id) == s.lesson_keys_agree(
                lesson_id,
                module_id,
                course_id,
            )
        }),
{
    let once = s.record_lesson_completion(learner, lesson_id, module_id, course_id);
    lemma_record_lesson_keeps_wf(s, learner, lesson_id, module_id, course_id);
    if s.lesson_keys_agree(lesson_id, module_id, course_id) {
        lemma_insert_unique(s.learners, learner);
        lemma_insert_unique(s.enrollments, (learner, course_id));
        lemma_insert_unique(s.lesson_completions, (learner, lesson_id));
        lemma_derive_again(
            module_ids(once.lessons),
            once.lesson_completions,
            once.module_completions,
            learner,
            module_id,
        );
        lemma_derive_again(
            course_ids(once.modules),
            once.module_completions,
            once.course_completions,
            learner,
            course_id,
        );
        let twice = once.record_lesson_completion(learner, lesson_id, module_id, course_id);
        assert(twice.learners == once.learners);
        assert(twice.enrollments == once.enrollments);
        assert(twice.lesson_completions == once.lesson_completions);
        assert(twice.module_completions == once.module_completions);
        assert(twice.course_completions == once.course_completions);
    }
}

/// A module without lessons is never completed, and neither is a course
/// that holds such a module.
pub proof fn law_empty_module_never_completes(
    s: StoreState,
    learner: Seq<char>,
    module_id: i64,
    course_id: i64,
)
    requires
        s.wf(),
        !has_child(module_ids(s.lessons), module_id),
    ensures
        !s.module_done(learner, module_id),
        s.module_in_course(module_id, course_id) ==> !s.course_done(learner, course_id),
{
    assert(s.module_done(learner, module_id) <==> children_complete(
        module_ids(s.lessons),
        s.lesson_completions,
        learner,
        module_id,
    ));
    if s.module_in_course(module_id, course_id) {
        assert(s.course_done(learner, course_id) <==> children_complete(
            course_ids(s.modules),
            s.module_completions,
            learner,
            course_id,
        ));
        if s.course_done(learner, course_id) {
            assert(child_of(course_ids(s.modules), module_id, course_id));
        }
    }
}

/// Without modules the module ratio counts as zero and still takes its half
/// of the average: the percentage is fifty times the lesson ratio, which is
/// less than the hundred times that the lesson ratio alone would give.
pub proof fn law_missing_modules_halve_progress(
    completed_lessons: int,
    total_lessons: int,
    completed_modules: int,
)
    requires
        total_lessons > 0,
        completed_lessons > 0,
    ensures
        percent_denominator(total_lessons, 0) == total_lessons,
        percent_numerator(completed_lessons, total_lessons, completed_modules, 0) == 50
            * effective_done(completed_lessons, total_lessons),
        percent_numerator(completed_lessons, total_lessons, completed_modules, 0) < 100
            * effective_done(completed_lessons, total_lessons),
{
    let done = effective_done(completed_lessons, total_lessons);
    assert(done > 0);
    assert(effective_total(0) == 1);
    assert(effective_done(completed_modules, 0) == 0);
    assert(percent_denominator(total_lessons, 0) == total_lessons) by (nonlinear_arith)
        requires
            percent_denominator(total_lessons, 0) == total_lessons * 1,
    ;
    assert(done * 1 + 0 * total_lessons == done) by (nonlinear_arith);
}

/// A second result of a learner on a quiz takes the place of the first: the
/// learner has one result on the quiz, which is the second, and no row has
/// been added for it.
pub proof fn law_quiz_result_is_replaced(
    s: StoreState,
    first: QuizCompletionView,
    second: QuizCompletionView,
)
    requires
        s.wf(),
        s.has_quiz(first.quiz_id),
        second.learner_id == first.learner_id,
        second.quiz_id == first.quiz_id,
    ensures
        ({
            let once = s.record_quiz_completion(first);
            let twice = once.record_quiz_completion(second);
            &&& twice.quiz_completions.len() == once.quiz_completions.len()
            &&& exists|i: int|
                twice.is_quiz_result(i, second.learner_id, second.quiz_id)
                    && twice.quiz_completions[i] == second
            &&& forall|i: int| #[trigger]
                twice.is_quiz_result(i, second.learner_id, second.quiz_id)
                    ==> twice.quiz_completions[i] == second
            &&& forall|i: int, j: int|
                twice.is_quiz_result(i, second.learner_id, second.quiz_id) && twice.is_quiz_result(
                    j,
                    second.learner_id,
                    second.quiz_id,
                ) ==> i == j
        }),
{
    let once = s.record_quiz_completion(first);
    let twice = once.record_quiz_completion(second);
    lemma_record_quiz_keeps_wf(s, first);
    lemma_record_quiz_keeps_wf(once, second);
    lemma_insert_unique(s.learners, first.learner_id);
    lemma_insert_unique(once.learners, second.learner_id);
    lemma_upsert_quiz_result(s.quiz_completions, first);
    lemma_upsert_quiz_result(once.quiz_completions, second);
    let k = choose|k: int|
        0 <= k < once.quiz_completions.len() && #[trigger] once.quiz_completions[k] == first;
    assert(once.quiz_completions[k].learner_id == second.learner_id);
    assert(twice.quiz_completions[k] == second);
    assert(twice.is_quiz_result(k, second.learner_id, second.quiz_id));
    assert forall|i: int| #[trigger]
        twice.is_quiz_result(i, second.learner_id, second.quiz_id) implies twice.quiz_completions[i]
        == second by {
        assert(once.quiz_completions[i].learner_id == second.learner_id);
    }
    assert forall|i: int, j: int|
        twice.is_quiz_result(i, second.learner_id, second.quiz_id) && twice.is_quiz_result(
            j,
            second.learner_id,
            second.quiz_id,
        ) implies i == j by {
        if i < j {
            assert(!(twice.quiz_completions[i].learner_id == twice.quiz_completions[j].learner_id
                && twice.quiz_completions[i].quiz_id == twice.quiz_completions[j].quiz_id));
        } else if j < i {
            assert(!(twice.quiz_completions[j].learner_id == twice.quiz_completions[i].learner_id
                && twice.quiz_completions[j].quiz_id == twice.quiz_completions[i].quiz_id));
        }
    }
}

/// Nothing that was recorded is lost when a lesson completion is recorded:
/// enrollments and completions stay.
pub proof fn law_lesson_completion_keeps_facts(
    s: StoreState,
    learner: Seq<char>,
    lesson_id: i64,
    module_id: i64,
    course_id: i64,
    who: Seq<char>,
    subject: i64,
)
    ensures
        ({
            let after = s.record_lesson_completion(learner, lesson_id, module_id, course_id);
            &&& s.enrolled(who, subject) ==> after.enrolled(who, subject)
            &&& s.lesson_done(who, subject) ==> after.lesson_done(who, subject)
            &&& s.module_done(who, subject) ==> after.module_done(who, subject)
            &&& s.course_done(who, subject) ==> after.course_done(who, subject)
            &&& after.quiz_completions == s.quiz_completions
            &&& s.lesson_keys_agree(lesson_id, module_id, course_id) ==> after.enrolled(
                learner,
                course_id,
            ) && after.lesson_done(learner, lesson_id)
        }),
{
    lemma_insert_unique(s.learners, learner);
    lemma_insert_unique(s.enrollments, (learner, course_id));
    lemma_insert_unique(s.lesson_completions, (learner, lesson_id));
    lemma_insert_unique(s.module_completions, (learner, module_id));
    lemma_insert_unique(s.course_completions, (learner, course_id));
}

/// Over the first `n` modules, the numbers that a report counts are the
/// numbers that derived completion counts.
pub proof fn lemma_report_counts(s: StoreState, learner: Seq<char>, course_id: i64, n: nat)
    requires
        s.tree_ok(),
        n <= s.modules.len(),
    ensures
        s.modules.take(n as int).filter(module_of_course(course_id)).len() == child_count(
            course_ids(s.modules),
            course_id,
            n,
        ),
        select(
            s.modules.take(n as int),
            s.module_done_of_course(learner, course_id),
            module_id(),
        ).len() == done_child_count(
            course_ids(s.modules),
            s.module_completions,
            learner,
            course_id,
            n,
        ),
    decreases n,
{
    lemma_select_none(s.modules, module_of_course(course_id), module_id());
    lemma_select_none(s.modules, s.module_done_of_course(learner, course_id), module_id());
    if n > 0 {
        lemma_report_counts(s, learner, course_id, (n - 1) as nat);
        lemma_select_step(s.modules, n - 1, module_of_course(course_id), module_id());
        lemma_select_step(
            s.modules,
            n - 1,
            s.module_done_of_course(learner, course_id),
            module_id(),
        );
        assert(s.modules[n - 1].id == n);
    }
}

/// What a progress report says of the course's completion is what is
/// recorded: the report, recomputed from counts, and the course completion
/// never disagree.
pub proof fn law_report_agrees_with_completion(s: StoreState, learner: Seq<char>, course_id: i64)
    requires
        s.wf(),
    ensures
        s.progress_in(learner, course_id).course_completed == s.course_done(learner, course_id),
{
    lemma_report_counts(s, learner, course_id, s.modules.len());
    lemma_select_none(s.modules, module_of_course(course_id), module_id());
    lemma_counts_decide(course_ids(s.modules), s.module_completions, learner, course_id);
    assert(s.course_done(learner, course_id) <==> children_complete(
        course_ids(s.modules),
        s.module_completions,
        learner,
        course_id,
    ));
}

/// Recording a lesson completion never moves a learner back in any course.
pub proof fn law_lesson_completion_only_advances(
    s: StoreState,
    learner: Seq<char>,
    lesson_id: i64,
    module_id: i64,
    course_id: i64,
    who: Seq<char>,
    course: i64,
)
    requires
        s.wf(),
    ensures
        s.status_of(who, course).rank() <= s.record_lesson_completion(
            learner,
            lesson_id,
            module_id,
            course_id,
        ).status_of(who, course).rank(),
{
    let after = s.record_lesson_completion(learner, lesson_id, module_id, course_id);
    law_lesson_completion_keeps_facts(s, learner, lesson_id, module_id, course_id, who, course);
    if s.has_progress_in(who, course) {
        let x = choose|x: i64| s.lesson_in_course(x, course) && s.lesson_done(who, x);
        law_lesson_completion_keeps_facts(s, learner, lesson_id, module_id, course_id, who, x);
        assert(after.lesson_in_course(x, course) && after.lesson_done(who, x));
    }
}

/// Enrolling never moves a learner back in any course, and the learner who
/// enrolls in an existing course is at least enrolled in it.
pub proof fn law_enrolling_only_advances(
    s: StoreState,
    learner: Seq<char>,
    course_id: i64,
    who: Seq<char>,
    course: i64,
)
    requires
        s.wf(),
    ensures
        s.status_of(who, course).rank() <= s.enroll(learner, course_id).status_of(
            who,
            course,
        ).rank(),
        s.has_course(course_id) ==> s.enroll(learner, course_id).status_of(
            learner,
            course_id,
        ).rank() >= 1,
{
    let after = s.enroll(learner, course_id);
    lemma_insert_unique(s.learners, learner);
    lemma_insert_unique(s.enrollments, (learner, course_id));
    if s.has_progress_in(who, course) {
        let x = choose|x: i64| s.lesson_in_course(x, course) && s.lesson_done(who, x);
        assert(after.lesson_in_course(x, course) && after.lesson_done(who, x));
    }
}

/// Recording a quiz result moves no learner in any course.
pub proof fn law_quiz_result_moves_nobody(
    s: StoreState,
    result: QuizCompletionView,
    who: Seq<char>,
    course: i64,
)
    ensures
        s.record_quiz_completion(result).status_of(who, course) == s.status_of(who, course),
{
    let after = s.record_quiz_completion(result);
    if s.has_progress_in(who, course) {
        let x = choose|x: i64| s.lesson_in_course(x, course) && s.lesson_done(who, x);
        assert(after.lesson_in_course(x, course) && after.lesson_done(who, x));
    }
    if after.has_progress_in(who, course) {
        let x = choose|x: i64| after.lesson_in_course(x, course) && after.lesson_done(who, x);
        assert(s.lesson_in_course(x, course) && s.lesson_done(who, x));
    }
}

/// Rows added to the course tree under new courses, as authoring adds them,
/// move no learner in any course.
pub proof fn law_growth_moves_nobody(s: StoreState, later: StoreState, who: Seq<char>, course: i64)
    requires
        s.wf(),
        s.grown_into(later),
    ensures
        later.status_of(who, course) == s.status_of(who, course),
{
    assert forall|x: i64| #[trigger] s.lesson_done(who, x) implies s.has_lesson(x) && s.has_module(
        s.lessons[x - 1].module_id,
    ) by {
        let i = choose|i: int|
            0 <= i < s.lesson_completions.len() && s.lesson_completions[i] == (who, x);
        assert(s.has_lesson(s.lesson_completions[i].1));
    }
    if s.has_progress_in(who, course) {
        let x = choose|x: i64| s.lesson_in_course(x, course) && s.lesson_done(who, x);
        assert(later.lessons[x - 1] == s.lessons[x - 1]);
        assert(later.modules[s.lessons[x - 1].module_id - 1] == s.modules[s.lessons[x
            - 1].module_id - 1]);
        assert(later.lesson_in_course(x, course) && later.lesson_done(who, x));
    }
    if later.has_progress_in(who, course) {
        let x = choose|x: i64| later.lesson_in_course(x, course) && later.lesson_done(who, x);
        assert(s.lesson_done(who, x));
        assert(later.lessons[x - 1] == s.lessons[x - 1]);
        assert(later.modules[s.lessons[x - 1].module_id - 1] == s.modules[s.lessons[x
            - 1].module_id - 1]);
        assert(s.lesson_in_course(x, course));
    }
}

/// The modules of a course among the first `n` modules come with rising
/// ids, each its own.
pub proof fn lemma_course_modules_rise(s: StoreState, course_id: i64, n: nat)
    requires
        s.tree_ok(),
        n <= s.modules.len(),
    ensures
        ({
            let rows = s.modules.take(n as int).filter(module_of_course(course_id));
            &&& forall|i: int|
                0 <= i < rows.len() ==> 1 <= (#[trigger] rows[i]).id <= n && rows[i].course_id
                    == course_id
            &&& forall|i: int, j: int|
                0 <= i < j < rows.len() ==> (#[trigger] rows[i]).id < (#[trigger] rows[j]).id
        }),
    decreases n,
{
    lemma_select_none(s.modules, module_of_course(course_id), module_id());
    if n > 0 {
        lemma_course_modules_rise(s, course_id, (n - 1) as nat);
        lemma_select_step(s.modules, n - 1, module_of_course(course_id), module_id());
        assert(s.modules[n - 1].id == n);
    }
}

/// A course read back from a well-formed store has its modules in the order
/// of their ids, each with all the lessons that belong to it, in the order
/// of theirs, and with the quiz that belongs to it.
pub proof fn law_read_course_is_whole(s: StoreState, course_id: i64, k: int)
    requires
        s.wf(),
        0 <= k < s.module_rows_of(course_id).len(),
    ensures
        ({
            let rows = s.module_rows_of(course_id);
            let module = built_module(rows, s.lessons, s.quizzes, s.questions, s.answers, k);
            &&& s.module_in_course(module.id, course_id)
            &&& forall|j: int| 0 <= j < k ==> (#[trigger] rows[j]).id < module.id
            &&& module.lessons == lessons_of(s.lessons, module.id)
            &&& module.quiz == quiz_of(s.quizzes, s.questions, s.answers, module.id)
            &&& forall|i: int|
                0 <= i < module.lessons.len() ==> s.lesson_in_module(
                    (#[trigger] module.lessons[i]).id,
                    module.id,
                )
        }),
{
    let rows = s.module_rows_of(course_id);
    lemma_course_modules_rise(s, course_id, s.modules.len());
    lemma_select_none(s.modules, module_of_course(course_id), module_id());
    assert(module_is_first(rows, k));
    let module = built_module(rows, s.lessons, s.quizzes, s.questions, s.answers, k);
    assert(s.modules.contains(rows[k])) by {
        s.modules.lemma_filter_contains_rev(module_of_course(course_id), rows[k]);
    }
    let at = choose|at: int| 0 <= at < s.modules.len() && s.modules[at] == rows[k];
    assert(s.modules[at].id == at + 1);
    let kept = lessons_of(s.lessons, module.id);
    assert forall|i: int| 0 <= i < kept.len() implies s.lesson_in_module(
        (#[trigger] kept[i]).id,
        module.id,
    ) by {
        s.lessons.lemma_filter_contains_rev(|l: LessonView| l.module_id == module.id, kept[i]);
        let at = choose|at: int| 0 <= at < s.lessons.len() && s.lessons[at] == kept[i];
        assert(s.lessons[at].id == at + 1);
    }
}

} // verus!

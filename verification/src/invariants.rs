//! Every operation on a well-formed state gives a well-formed state.
use vstd::prelude::*;
use crate::derivation::{
    child_of, children_complete, lemma_child_completed, lemma_derive_again, lemma_insert_unique,
    Fact,
};
use crate::state::{course_ids, module_ids, QuizCompletionView, StoreState};

verus! {

/// Enrolling keeps the state well formed.
pub proof fn lemma_enroll_keeps_wf(s: StoreState, learner: Seq<char>, course_id: i64)
    requires
        s.wf(),
    ensures
        s.enroll(learner, course_id).wf(),
{
    if s.has_course(course_id) {
        let s1 = s.with_learner(learner);
        let s2 = s1.with_enrollment(learner, course_id);
        lemma_insert_unique(s.learners, learner);
        lemma_insert_unique(s.enrollments, (learner, course_id));
        assert(s2.tree_ok());
        assert(s2.facts_are_unique());
        assert(s2.facts_have_subjects()) by {
            assert forall|i: int| 0 <= i < s2.enrollments.len() implies {
                &&& s2.learners.contains((#[trigger] s2.enrollments[i]).0)
                &&& s2.has_course(s2.enrollments[i].1)
            } by {
                if i < s.enrollments.len() {
                    assert(s2.enrollments[i] == s.enrollments[i]);
                }
            }
        }
    }
}

/// Recording a lesson completion keeps the state well formed.
pub proof fn lemma_record_lesson_keeps_wf(
    s: StoreState,
    learner: Seq<char>,
    lesson_id: i64,
    module_id: i64,
    course_id: i64,
)
    requires
        s.wf(),
    ensures
        s.record_lesson_completion(learner, lesson_id, module_id, course_id).wf(),
{
    if s.lesson_keys_agree(lesson_id, module_id, course_id) {
        let s1 = s.with_learner(learner);
        let s2 = s1.with_enrollment(learner, course_id);
        let s3 = s2.with_lesson_completion(learner, lesson_id);
        let s4 = s3.derive_module_completion(learner, module_id);
        let s5 = s4.derive_course_completion(learner, course_id);
        lemma_insert_unique(s.learners, learner);
        lemma_insert_unique(s.enrollments, (learner, course_id));
        lemma_insert_unique(s.lesson_completions, (learner, lesson_id));
        lemma_insert_unique(s.module_completions, (learner, module_id));
        lemma_insert_unique(s.course_completions, (learner, course_id));
        lemma_child_completed(
            module_ids(s.lessons),
            s.lesson_completions,
            s.module_completions,
            learner,
            lesson_id,
            module_id,
        );
        if s4.module_completions == s.module_completions {
            lemma_derive_again(
                course_ids(s.modules),
                s.module_completions,
                s.course_completions,
                learner,
                course_id,
            );
        } else {
            lemma_child_completed(
                course_ids(s.modules),
                s.module_completions,
                s.course_completions,
                learner,
                module_id,
                course_id,
            );
        }
        assert(s5.tree_ok());
        assert(s5.facts_are_unique());
        assert(s5.facts_have_subjects()) by {
            assert forall|i: int| 0 <= i < s5.enrollments.len() implies {
                &&& s5.learners.contains((#[trigger] s5.enrollments[i]).0)
                &&& s5.has_course(s5.enrollments[i].1)
            } by {
                if i < s.enrollments.len() {
                    assert(s5.enrollments[i] == s.enrollments[i]);
                }
            }
            assert forall|i: int| 0 <= i < s5.lesson_completions.len() implies {
                &&& s5.learners.contains((#[trigger] s5.lesson_completions[i]).0)
                &&& s5.has_lesson(s5.lesson_completions[i].1)
            } by {
                if i < s.lesson_completions.len() {
                    assert(s5.lesson_completions[i] == s.lesson_completions[i]);
                }
            }
        }
        assert(s5.completions_are_derived());
        assert(s5.completions_follow_enrollment()) by {
            assert forall|l: Seq<char>, x: i64| #[trigger]
                s5.lesson_completions.contains((l, x)) implies s5.enrollments.contains(
                (l, s5.modules[s5.lessons[x - 1].module_id - 1].course_id),
            ) by {
                if s.lesson_completions.contains((l, x)) {
                    assert(s.enrollments.contains(
                        (l, s.modules[s.lessons[x - 1].module_id - 1].course_id),
                    ));
                } else {
                    assert((l, x) == (learner, lesson_id));
                }
            }
        }
    }
}

/// In a well-formed state the derived completions are all there already:
/// recording a module completion or a course completion by request changes
/// nothing.
pub proof fn lemma_requested_completions_change_nothing(
    s: StoreState,
    learner: Seq<char>,
    module_id: i64,
    course_id: i64,
)
    requires
        s.wf(),
    ensures
        s.record_module_completion(learner, module_id, course_id) == s,
        s.record_course_completion(learner, course_id) == s,
{
    lemma_derive_again(
        module_ids(s.lessons),
        s.lesson_completions,
        s.module_completions,
        learner,
        module_id,
    );
    lemma_derive_again(
        course_ids(s.modules),
        s.module_completions,
        s.course_completions,
        learner,
        course_id,
    );
}

/// What the quiz completions hold after a result came in: the new result
/// under its learner and quiz, every other result as before, and still one
/// result per learner and quiz.
pub proof fn lemma_upsert_quiz_result(rows: Seq<QuizCompletionView>, result: QuizCompletionView)
    requires
        forall|i: int, j: int|
            0 <= i < j < rows.len() ==> !((#[trigger] rows[i]).learner_id == (
            #[trigger] rows[j]).learner_id && rows[i].quiz_id == rows[j].quiz_id),
    ensures
        ({
            let after = StoreState::upsert_quiz_result(rows, result);
            &&& rows.len() <= after.len() <= rows.len() + 1
            &&& exists|k: int| 0 <= k < after.len() && #[trigger] after[k] == result
            &&& forall|i: int, j: int|
                0 <= i < j < after.len() ==> !((#[trigger] after[i]).learner_id == (
                #[trigger] after[j]).learner_id && after[i].quiz_id == after[j].quiz_id)
            &&& forall|i: int|
                0 <= i < after.len() ==> (#[trigger] after[i]) == result || (i < rows.len()
                    && after[i] == rows[i] && !(rows[i].learner_id == result.learner_id
                    && rows[i].quiz_id == result.quiz_id))
            &&& forall|i: int|
                0 <= i < rows.len() && !((#[trigger] rows[i]).learner_id == result.learner_id
                    && rows[i].quiz_id == result.quiz_id) ==> after[i] == rows[i]
        }),
{
    let after = StoreState::upsert_quiz_result(rows, result);
    if exists|i: int|
        0 <= i < rows.len() && (#[trigger] rows[i]).learner_id == result.learner_id
            && rows[i].quiz_id == result.quiz_id {
        let k = choose|i: int|
            0 <= i < rows.len() && (#[trigger] rows[i]).learner_id == result.learner_id
                && rows[i].quiz_id == result.quiz_id;
        assert(after[k] == result);
        assert forall|i: int, j: int| 0 <= i < j < after.len() implies !((
        #[trigger] after[i]).learner_id == (#[trigger] after[j]).learner_id && after[i].quiz_id
            == after[j].quiz_id) by {
            assert(!(rows[i].learner_id == rows[j].learner_id && rows[i].quiz_id
                == rows[j].quiz_id));
        }
    } else {
        assert(after[rows.len() as int] == result);
        assert forall|i: int, j: int| 0 <= i < j < after.len() implies !((
        #[trigger] after[i]).learner_id == (#[trigger] after[j]).learner_id && after[i].quiz_id
            == after[j].quiz_id) by {
            if j < rows.len() {
                assert(!(rows[i].learner_id == rows[j].learner_id && rows[i].quiz_id
                    == rows[j].quiz_id));
            } else {
                assert(after[i] == rows[i]);
            }
        }
    }
}

/// Recording a quiz result keeps the state well formed.
pub proof fn lemma_record_quiz_keeps_wf(s: StoreState, result: QuizCompletionView)
    requires
        s.wf(),
    ensures
        s.record_quiz_completion(result).wf(),
{
    if s.has_quiz(result.quiz_id) {
        let s1 = s.with_learner(result.learner_id);
        let s2 = s.record_quiz_completion(result);
        lemma_insert_unique(s.learners, result.learner_id);
        lemma_upsert_quiz_result(s.quiz_completions, result);
        assert(s2.tree_ok());
        assert(s2.facts_are_unique());
        assert(s2.facts_have_subjects()) by {
            assert forall|i: int| 0 <= i < s2.quiz_completions.len() implies {
                &&& s2.learners.contains((#[trigger] s2.quiz_completions[i]).learner_id)
                &&& s2.has_quiz(s2.quiz_completions[i].quiz_id)
            } by {
                if s2.quiz_completions[i] != result {
                    assert(s2.quiz_completions[i] == s.quiz_completions[i]);
                }
            }
        }
    }
}

/// A well-formed state that grows by rows under new courses, the tree
/// staying sound, is well formed: the facts are about the old rows, which
/// keep their children.
pub proof fn lemma_growth_keeps_wf(s: StoreState, later: StoreState)
    requires
        s.wf(),
        s.grown_into(later),
        later.tree_ok(),
    ensures
        later.wf(),
{
    let old_lessons = module_ids(s.lessons);
    let new_lessons = module_ids(later.lessons);
    let old_modules = course_ids(s.modules);
    let new_modules = course_ids(later.modules);
    assert forall|l: Seq<char>, x: i64| #[trigger] s.lesson_completions.contains((l, x)) implies 1
        <= x <= s.lessons.len() by {
        let i = choose|i: int|
            0 <= i < s.lesson_completions.len() && s.lesson_completions[i] == (l, x);
        assert(s.has_lesson(s.lesson_completions[i].1));
    }
    assert forall|l: Seq<char>, m: i64| #[trigger] s.module_completions.contains((l, m)) implies 1
        <= m <= s.modules.len() by {
        assert(children_complete(old_lessons, s.lesson_completions, l, m));
        let x = choose|x: i64| child_of(old_lessons, x, m);
        assert(s.has_module(s.lessons[x - 1].module_id));
    }
    assert forall|l: Seq<char>, m: i64|
        children_complete(new_lessons, later.lesson_completions, l, m) == children_complete(
            old_lessons,
            s.lesson_completions,
            l,
            m,
        ) by {
        lemma_same_children(old_lessons, new_lessons, s.lesson_completions, s.modules.len(), l, m);
    }
    assert forall|l: Seq<char>, c: i64|
        children_complete(new_modules, later.module_completions, l, c) == children_complete(
            old_modules,
            s.module_completions,
            l,
            c,
        ) by {
        lemma_same_children(old_modules, new_modules, s.module_completions, s.courses.len(), l, c);
    }
    assert(later.completions_are_derived()) by {
        assert forall|l: Seq<char>, m: i64|
            #![trigger later.module_completions.contains((l, m))]
            #![trigger children_complete(new_lessons, later.lesson_completions, l, m)]
            later.module_completions.contains((l, m)) <==> children_complete(
                new_lessons,
                later.lesson_completions,
                l,
                m,
            ) by {
            assert(s.module_completions.contains((l, m)) <==> children_complete(
                old_lessons,
                s.lesson_completions,
                l,
                m,
            ));
        }
        assert forall|l: Seq<char>, c: i64|
            #![trigger later.course_completions.contains((l, c))]
            #![trigger children_complete(new_modules, later.module_completions, l, c)]
            later.course_completions.contains((l, c)) <==> children_complete(
                new_modules,
                later.module_completions,
                l,
                c,
            ) by {
            assert(s.course_completions.contains((l, c)) <==> children_complete(
                old_modules,
                s.module_completions,
                l,
                c,
            ));
        }
    }
    assert(later.completions_follow_enrollment()) by {
        assert forall|l: Seq<char>, x: i64| #[trigger]
            later.lesson_completions.contains((l, x)) implies later.enrollments.contains(
            (l, later.modules[later.lessons[x - 1].module_id - 1].course_id),
        ) by {
            assert(s.lesson_completions.contains((l, x)));
            assert(later.lessons[x - 1] == s.lessons[x - 1]);
            assert(s.has_module(s.lessons[x - 1].module_id));
            assert(later.modules[s.lessons[x - 1].module_id - 1] == s.modules[s.lessons[x
                - 1].module_id - 1]);
        }
    }
    assert(later.facts_have_subjects());
    assert(later.facts_are_unique());
}

/// Children were added, all of them under parents with ids above `bound`,
/// while the facts are about old children under parents up to `bound`: what
/// was complete is complete, and nothing else.
pub proof fn lemma_same_children(
    before: Seq<i64>,
    after: Seq<i64>,
    done: Seq<Fact>,
    bound: nat,
    learner: Seq<char>,
    parent: i64,
)
    requires
        before.len() <= after.len(),
        forall|i: int| 0 <= i < before.len() ==> #[trigger] after[i] == before[i],
        forall|i: int| 0 <= i < before.len() ==> 1 <= #[trigger] before[i] <= bound,
        forall|i: int| before.len() <= i < after.len() ==> #[trigger] after[i] > bound,
        forall|l: Seq<char>, x: i64| #[trigger] done.contains((l, x)) ==> 1 <= x <= before.len(),
    ensures
        children_complete(after, done, learner, parent) == children_complete(
            before,
            done,
            learner,
            parent,
        ),
{
    if children_complete(before, done, learner, parent) {
        let x = choose|x: i64| child_of(before, x, parent);
        assert(child_of(after, x, parent));
        assert forall|c: i64| #[trigger] child_of(after, c, parent) implies done.contains(
            (learner, c),
        ) by {
            if c > before.len() {
                assert(after[c - 1] > bound);
                assert(before[x - 1] <= bound);
            } else {
                assert(child_of(before, c, parent));
            }
        }
    }
    if children_complete(after, done, learner, parent) {
        let x = choose|x: i64| child_of(after, x, parent);
        assert(done.contains((learner, x)));
        assert(child_of(before, x, parent));
        assert forall|c: i64| #[trigger] child_of(before, c, parent) implies done.contains(
            (learner, c),
        ) by {
            assert(child_of(after, c, parent));
        }
    }
}

} // verus!

//! Recording completions and reporting progress.
use vstd::prelude::*;
use crate::derivation::{child_count, done_child_count, lemma_counts_decide, lemma_insert_unique};
use crate::error::EngineError;
use crate::invariants::{
    lemma_record_lesson_keeps_wf, lemma_record_quiz_keeps_wf,
    lemma_requested_completions_change_nothing,
};
use crate::models::course::views;
use crate::models::progress::{
    CompleteQuizPayload, CompletedLessonsQuery, CompletedLessonsResponse, CourseCompleteRequest,
    CourseCompleted, CourseProgressPercentage, CourseProgressQuery, CourseProgressResponse,
    CourseProgressSummary, EnrollmentQuery, LearnerQuery, LessonCompleteRequest, LessonCompleted,
    ModuleCompleteRequest, ModuleCompleted,
};
use crate::report::{lesson_id, module_id, module_of_course, quiz_id, CourseStatus};
use crate::rules::{is_fully_complete, progress_percent};
use crate::selection::{lemma_select_none, lemma_select_step, select};
use crate::state::{course_ids, module_ids, QuizCompletionView};
use crate::store::{lemma_views_push, QuizCompletion, Store};

verus! {

/// Whether the module has a lesson and the learner has completed all of its
/// lessons, found by counting the module's lessons and those of them that the
/// learner has completed.
pub fn module_lessons_complete(store: &Store, learner: &String, module_id: i64) -> (complete: bool)
    requires
        store@.tree_ok(),
    ensures
        complete == store@.lessons_complete(learner@, module_id),
{
    let n = store.lesson_count();
    let ghost parents = module_ids(store@.lessons);
    let ghost done = store@.lesson_completions;
    let mut total: u64 = 0;
    let mut completed: u64 = 0;
    let mut i: usize = 0;
    while i < n
        invariant
            i <= n,
            n == store@.lessons.len(),
            n <= i64::MAX,
            parents == module_ids(store@.lessons),
            done == store@.lesson_completions,
            total == child_count(parents, module_id, i as nat),
            completed == done_child_count(parents, done, learner@, module_id, i as nat),
            completed <= total <= i,
        decreases n - i,
    {
        if store.lesson_at(i).module_id == module_id {
            total += 1;
            if store.has_lesson_completion(learner, (i + 1) as i64) {
                completed += 1;
            }
        }
        i += 1;
    }
    proof {
        lemma_counts_decide(parents, done, learner@, module_id);
    }
    is_fully_complete(total, completed)
}

/// Whether the course has a module and the learner has a completion for all
/// of its modules, found by counting the course's modules and those of them
/// that the learner has completed.
pub fn course_modules_complete(store: &Store, learner: &String, course_id: i64) -> (complete: bool)
    requires
        store@.tree_ok(),
    ensures
        complete == store@.modules_complete(learner@, course_id),
{
    let n = store.module_count();
    let ghost parents = course_ids(store@.modules);
    let ghost done = store@.module_completions;
    let mut total: u64 = 0;
    let mut completed: u64 = 0;
    let mut i: usize = 0;
    while i < n
        invariant
            i <= n,
            n == store@.modules.len(),
            n <= i64::MAX,
            parents == course_ids(store@.modules),
            done == store@.module_completions,
            total == child_count(parents, course_id, i as nat),
            completed == done_child_count(parents, done, learner@, course_id, i as nat),
            completed <= total <= i,
        decreases n - i,
    {
        if store.module_at(i).course_id == course_id {
            total += 1;
            if store.has_module_completion(learner, (i + 1) as i64) {
                completed += 1;
            }
        }
        i += 1;
    }
    proof {
        lemma_counts_decide(parents, done, learner@, course_id);
    }
    is_fully_complete(total, completed)
}

/// Whether the lesson belongs to the module and the module to the course.
pub fn lesson_keys_agree(store: &Store, lesson_id: i64, module_id: i64, course_id: i64) -> (agree:
    bool)
    requires
        store@.tree_ok(),
    ensures
        agree == store@.lesson_keys_agree(lesson_id, module_id, course_id),
{
    if lesson_id < 1 || module_id < 1 {
        return false;
    }
    if lesson_id as u64 > store.lesson_count() as u64 || module_id as u64 > store.module_count() as u64 {
        return false;
    }
    store.lesson_at((lesson_id - 1) as usize).module_id == module_id && store.module_at(
        (module_id - 1) as usize,
    ).course_id == course_id
}

/// Records that a learner completed a lesson.
///
/// The request is refused, and nothing changes, unless the lesson belongs to
/// the module and the module to the course. Otherwise the learner becomes
/// known and enrolled in the course, the lesson completion is recorded once,
/// and the module completion and the course completion are recorded with it
/// as soon as the learner's completions call for them. The answer says
/// whether the module and the course now count as completed.
pub fn complete_lesson(store: &mut Store, payload: &LessonCompleteRequest) -> (outcome: Result<
    LessonCompleted,
    EngineError,
>)
    requires
        old(store)@.wf(),
    ensures
        final(store)@.wf(),
        final(store)@ == old(store)@.record_lesson_completion(
            payload.learner_id@,
            payload.lesson_id,
            payload.module_id,
            payload.course_id,
        ),
        old(store)@.lesson_keys_agree(payload.lesson_id, payload.module_id, payload.course_id)
            ==> outcome == Ok::<LessonCompleted, EngineError>(
            LessonCompleted {
                module_completed: final(store)@.module_done(
                    payload.learner_id@,
                    payload.module_id,
                ),
                course_completed: final(store)@.course_done(
                    payload.learner_id@,
                    payload.course_id,
                ),
            },
        ),
        !old(store)@.lesson_keys_agree(payload.lesson_id, payload.module_id, payload.course_id)
            ==> outcome == Err::<LessonCompleted, EngineError>(EngineError::ParentMismatch),
{
    let learner = &payload.learner_id;
    proof {
        lemma_record_lesson_keeps_wf(
            store@,
            learner@,
            payload.lesson_id,
            payload.module_id,
            payload.course_id,
        );
    }
    if !lesson_keys_agree(store, payload.lesson_id, payload.module_id, payload.course_id) {
        return Err(EngineError::ParentMismatch);
    }
    store.add_learner(learner);
    store.add_enrollment(learner, payload.course_id);
    store.add_lesson_completion(learner, payload.lesson_id);
    let ghost s3 = store@;
    let module_completed = module_lessons_complete(store, learner, payload.module_id);
    if module_completed {
        store.add_module_completion(learner, payload.module_id);
    }
    let ghost s4 = store@;
    assert(s4 == s3.derive_module_completion(learner@, payload.module_id));
    let course_completed = course_modules_complete(store, learner, payload.course_id);
    if course_completed {
        store.add_course_completion(learner, payload.course_id);
    }
    assert(store@ == s4.derive_course_completion(learner@, payload.course_id));
    proof {
        lemma_insert_unique(s3.module_completions, (learner@, payload.module_id));
        lemma_insert_unique(s4.course_completions, (learner@, payload.course_id));
    }
    Ok(LessonCompleted { module_completed, course_completed })
}

/// Answers a request to record that a learner completed a module.
///
/// The request is refused unless the module has a lesson and the learner has
/// completed all of its lessons. Otherwise the module completion is recorded,
/// and the course completion with it if the learner's module completions call
/// for it; in a well-formed store both are there already, so the store does
/// not change. The answer says whether the course counts as completed.
pub fn complete_module(store: &mut Store, payload: &ModuleCompleteRequest) -> (outcome: Result<
    ModuleCompleted,
    EngineError,
>)
    requires
        old(store)@.wf(),
    ensures
        final(store)@.wf(),
        final(store)@ == old(store)@.record_module_completion(
            payload.learner_id@,
            payload.module_id,
            payload.course_id,
        ),
        final(store)@ == old(store)@,
        old(store)@.lessons_complete(payload.learner_id@, payload.module_id) ==> outcome == Ok::<
            ModuleCompleted,
            EngineError,
        >(
            ModuleCompleted {
                module_completed: true,
                course_completed: old(store)@.modules_complete(
                    payload.learner_id@,
                    payload.course_id,
                ),
            },
        ),
        !old(store)@.lessons_complete(payload.learner_id@, payload.module_id) ==> outcome == Err::<
            ModuleCompleted,
            EngineError,
        >(EngineError::NotAllLessonsCompleted),
{
    let learner = &payload.learner_id;
    proof {
        lemma_requested_completions_change_nothing(
            store@,
            learner@,
            payload.module_id,
            payload.course_id,
        );
    }
    if !module_lessons_complete(store, learner, payload.module_id) {
        return Err(EngineError::NotAllLessonsCompleted);
    }
    store.add_module_completion(learner, payload.module_id);
    let course_completed = course_modules_complete(store, learner, payload.course_id);
    if course_completed {
        store.add_course_completion(learner, payload.course_id);
    }
    Ok(ModuleCompleted { module_completed: true, course_completed })
}

/// Answers a request to record that a learner completed a course.
///
/// The request is refused unless the course has a module and the learner has
/// a completion for all of its modules. Otherwise the course completion is
/// recorded; in a well-formed store it is there already, so the store does
/// not change.
pub fn complete_course(store: &mut Store, payload: &CourseCompleteRequest) -> (outcome: Result<
    CourseCompleted,
    EngineError,
>)
    requires
        old(store)@.wf(),
    ensures
        final(store)@.wf(),
        final(store)@ == old(store)@.record_course_completion(
            payload.learner_id@,
            payload.course_id,
        ),
        final(store)@ == old(store)@,
        old(store)@.modules_complete(payload.learner_id@, payload.course_id) ==> outcome == Ok::<
            CourseCompleted,
            EngineError,
        >(CourseCompleted { course_completed: true }),
        !old(store)@.modules_complete(payload.learner_id@, payload.course_id) ==> outcome == Err::<
            CourseCompleted,
            EngineError,
        >(EngineError::NotAllModulesCompleted),
{
    let learner = &payload.learner_id;
    proof {
        lemma_requested_completions_change_nothing(store@, learner@, 0, payload.course_id);
    }
    if !course_modules_complete(store, learner, payload.course_id) {
        return Err(EngineError::NotAllModulesCompleted);
    }
    store.add_course_completion(learner, payload.course_id);
    Ok(CourseCompleted { course_completed: true })
}

/// The result that a quiz payload and the time of its arrival make.
pub open spec fn quiz_result_of(payload: CompleteQuizPayload, completed_at: i64) -> QuizCompletionView {
    QuizCompletionView {
        learner_id: payload.learner_id@,
        quiz_id: payload.quiz_id,
        score: payload.score,
        total_questions: payload.total_questions,
        completed_at,
    }
}

/// Records a learner's result on a quiz, at the time `completed_at`.
///
/// The request is refused where the quiz does not exist. Otherwise the
/// learner becomes known and the result takes the place of the learner's
/// earlier result on that quiz, if there is one. No module or course
/// completion follows from a quiz.
pub fn complete_quiz(store: &mut Store, payload: &CompleteQuizPayload, completed_at: i64) -> (outcome:
    Result<(), EngineError>)
    requires
        old(store)@.wf(),
    ensures
        final(store)@.wf(),
        final(store)@ == old(store)@.record_quiz_completion(quiz_result_of(*payload, completed_at)),
        old(store)@.has_quiz(payload.quiz_id) ==> outcome == Ok::<(), EngineError>(()),
        !old(store)@.has_quiz(payload.quiz_id) ==> outcome == Err::<(), EngineError>(
            EngineError::StorageFailure,
        ),
{
    proof {
        lemma_record_quiz_keeps_wf(store@, quiz_result_of(*payload, completed_at));
    }
    if payload.quiz_id < 1 || payload.quiz_id as u64 > store.quiz_count() as u64 {
        return Err(EngineError::StorageFailure);
    }
    store.add_learner(&payload.learner_id);
    proof {
        lemma_insert_unique(old(store)@.learners, payload.learner_id@);
    }
    store.put_quiz_completion(
        QuizCompletion {
            learner_id: payload.learner_id.clone(),
            quiz_id: payload.quiz_id,
            score: payload.score,
            total_questions: payload.total_questions,
            completed_at,
        },
    );
    Ok(())
}

/// Whether the module exists and belongs to the course.
pub fn module_belongs(store: &Store, module_id: i64, course_id: i64) -> (belongs: bool)
    ensures
        belongs == store@.module_in_course(module_id, course_id),
{
    if module_id < 1 || module_id as u64 > store.module_count() as u64 {
        return false;
    }
    store.module_at((module_id - 1) as usize).course_id == course_id
}

fn count_lessons_in_course(store: &Store, course_id: i64) -> (n: usize)
    ensures
        n == store@.lessons_in_course(course_id),
{
    let ghost rows = store@.lessons;
    let ghost keep = store@.lesson_of_course(course_id);
    let count = store.lesson_count();
    let mut n: usize = 0;
    let mut i: usize = 0;
    proof {
        lemma_select_none(rows, keep, lesson_id());
    }
    while i < count
        invariant
            i <= count,
            count == rows.len(),
            rows == store@.lessons,
            keep == store@.lesson_of_course(course_id),
            n == rows.take(i as int).filter(keep).len(),
            n <= i,
        decreases count - i,
    {
        proof {
            lemma_select_step(rows, i as int, keep, lesson_id());
        }
        if module_belongs(store, store.lesson_at(i).module_id, course_id) {
            n += 1;
        }
        i += 1;
    }
    n
}

pub(crate) fn count_modules_in_course(store: &Store, course_id: i64) -> (n: usize)
    ensures
        n == store@.modules_in_course(course_id),
{
    let ghost rows = store@.modules;
    let ghost keep = module_of_course(course_id);
    let count = store.module_count();
    let mut n: usize = 0;
    let mut i: usize = 0;
    proof {
        lemma_select_none(rows, keep, module_id());
    }
    while i < count
        invariant
            i <= count,
            count == rows.len(),
            rows == store@.modules,
            keep == module_of_course(course_id),
            n == rows.take(i as int).filter(keep).len(),
            n <= i,
        decreases count - i,
    {
        proof {
            lemma_select_step(rows, i as int, keep, module_id());
        }
        if store.module_at(i).course_id == course_id {
            n += 1;
        }
        i += 1;
    }
    n
}

fn done_lesson_ids(store: &Store, learner: &String, course_id: i64) -> (ids: Vec<i64>)
    ensures
        ids@ == store@.lessons_done_in_course(learner@, course_id),
{
    let ghost rows = store@.lessons;
    let ghost keep = store@.lesson_done_of_course(learner@, course_id);
    let count = store.lesson_count();
    let mut ids: Vec<i64> = Vec::new();
    let mut i: usize = 0;
    proof {
        lemma_select_none(rows, keep, lesson_id());
    }
    while i < count
        invariant
            i <= count,
            count == rows.len(),
            rows == store@.lessons,
            keep == store@.lesson_done_of_course(learner@, course_id),
            ids@ == select(rows.take(i as int), keep, lesson_id()),
        decreases count - i,
    {
        proof {
            lemma_select_step(rows, i as int, keep, lesson_id());
        }
        let row = store.lesson_at(i);
        if module_belongs(store, row.module_id, course_id) && store.has_lesson_completion(
            learner,
            row.id,
        ) {
            ids.push(row.id);
        }
        i += 1;
    }
    ids
}

fn done_quiz_ids(store: &Store, learner: &String, course_id: i64) -> (ids: Vec<i64>)
    ensures
        ids@ == store@.quizzes_done_in_course(learner@, course_id),
{
    let ghost rows = store@.quizzes;
    let ghost keep = store@.quiz_done_of_course(learner@, course_id);
    let count = store.quiz_count();
    let mut ids: Vec<i64> = Vec::new();
    let mut i: usize = 0;
    proof {
        lemma_select_none(rows, keep, quiz_id());
    }
    while i < count
        invariant
            i <= count,
            count == rows.len(),
            rows == store@.quizzes,
            keep == store@.quiz_done_of_course(learner@, course_id),
            ids@ == select(rows.take(i as int), keep, quiz_id()),
        decreases count - i,
    {
        proof {
            lemma_select_step(rows, i as int, keep, quiz_id());
        }
        let row = store.quiz_at(i);
        if module_belongs(store, row.module_id, course_id) && store.find_quiz_completion(
            learner,
            row.id,
        ).is_some() {
            ids.push(row.id);
        }
        i += 1;
    }
    ids
}

pub(crate) fn done_module_ids(store: &Store, learner: &String, course_id: i64) -> (ids: Vec<i64>)
    ensures
        ids@ == store@.modules_done_in_course(learner@, course_id),
{
    let ghost rows = store@.modules;
    let ghost keep = store@.module_done_of_course(learner@, course_id);
    let count = store.module_count();
    let mut ids: Vec<i64> = Vec::new();
    let mut i: usize = 0;
    proof {
        lemma_select_none(rows, keep, module_id());
    }
    while i < count
        invariant
            i <= count,
            count == rows.len(),
            rows == store@.modules,
            keep == store@.module_done_of_course(learner@, course_id),
            ids@ == select(rows.take(i as int), keep, module_id()),
        decreases count - i,
    {
        proof {
            lemma_select_step(rows, i as int, keep, module_id());
        }
        let row = store.module_at(i);
        if row.course_id == course_id && store.has_module_completion(learner, row.id) {
            ids.push(row.id);
        }
        i += 1;
    }
    ids
}

/// A learner's progress in a course, recomputed from the completion facts,
/// whether or not the learner is enrolled.
pub fn course_progress(store: &Store, learner: &String, course_id: i64) -> (progress:
    CourseProgressResponse)
    ensures
        progress@ == store@.progress_in(learner@, course_id),
{
    let completed_lesson_ids = done_lesson_ids(store, learner, course_id);
    let completed_quiz_ids = done_quiz_ids(store, learner, course_id);
    let completed_module_ids = done_module_ids(store, learner, course_id);
    let total_lessons = count_lessons_in_course(store, course_id);
    let total_modules = count_modules_in_course(store, course_id);
    let progress_percent = progress_percent(
        completed_lesson_ids.len() as u64,
        total_lessons as u64,
        completed_module_ids.len() as u64,
        total_modules as u64,
    );
    let course_completed = is_fully_complete(total_modules as u64, completed_module_ids.len() as u64);
    CourseProgressResponse {
        completed_lesson_ids,
        completed_quiz_ids,
        completed_module_ids,
        progress_percent,
        course_completed,
    }
}

/// Reports a learner's progress in a course: the lessons, quizzes and
/// modules that the learner has completed, the progress percentage and
/// whether the course is completed. Where the learner is not enrolled in the
/// course there is nothing to report.
pub fn get_course_progress(store: &Store, query: &CourseProgressQuery) -> (outcome: Result<
    CourseProgressResponse,
    EngineError,
>)
    ensures
        match outcome {
            Ok(progress) => store@.enrolled(query.learner_id@, query.course_id) && progress@
                == store@.progress_in(query.learner_id@, query.course_id),
            Err(error) => !store@.enrolled(query.learner_id@, query.course_id) && error
                == EngineError::NotFound,
        },
{
    if !store.has_enrollment(&query.learner_id, query.course_id) {
        return Err(EngineError::NotFound);
    }
    Ok(course_progress(store, &query.learner_id, query.course_id))
}

/// Reports a learner's progress percentage in a course in whole percent,
/// the fraction cut off.
pub fn get_course_progress_percentage(store: &Store, query: &CourseProgressQuery) -> (answer:
    CourseProgressPercentage)
    ensures
        answer.progress_percent == store@.progress_in(
            query.learner_id@,
            query.course_id,
        ).progress_percent.whole,
        answer.progress_percent <= 100,
{
    let completed_lessons = done_lesson_ids(store, &query.learner_id, query.course_id);
    let completed_modules = done_module_ids(store, &query.learner_id, query.course_id);
    let total_lessons = count_lessons_in_course(store, query.course_id);
    let total_modules = count_modules_in_course(store, query.course_id);
    let percent = progress_percent(
        completed_lessons.len() as u64,
        total_lessons as u64,
        completed_modules.len() as u64,
        total_modules as u64,
    );
    CourseProgressPercentage { progress_percent: percent.truncated() }
}

/// Lists the lessons of a course that a learner has completed.
pub fn get_completed_lesson_ids(store: &Store, query: &CompletedLessonsQuery) -> (answer:
    CompletedLessonsResponse)
    ensures
        answer.lesson_ids@ == store@.lessons_done_in_course(query.learner_id@, query.course_id),
{
    CompletedLessonsResponse {
        lesson_ids: done_lesson_ids(store, &query.learner_id, query.course_id),
    }
}

/// Whether a learner is enrolled in a course.
pub fn is_enrolled(store: &Store, query: &EnrollmentQuery) -> (enrolled: bool)
    ensures
        enrolled == store@.enrolled(query.learner_id@, query.course_id),
{
    store.has_enrollment(&query.learner_id, query.course_id)
}

/// Reports a learner's progress in every course that the learner is enrolled
/// in.
pub fn get_all_course_progress(store: &Store, query: &LearnerQuery) -> (summaries: Vec<
    CourseProgressSummary,
>)
    ensures
        views(summaries@) == store@.all_progress_of(query.learner_id@),
{
    let learner = &query.learner_id;
    let ghost rows = store@.courses;
    let ghost keep = store@.course_of_learner(learner@);
    let ghost pick = store@.summary_of(learner@);
    let count = store.course_count();
    let mut summaries: Vec<CourseProgressSummary> = Vec::new();
    let mut i: usize = 0;
    proof {
        lemma_select_none(rows, keep, pick);
        assert(views(summaries@) =~= Seq::empty());
    }
    while i < count
        invariant
            i <= count,
            count == rows.len(),
            rows == store@.courses,
            keep == store@.course_of_learner(learner@),
            pick == store@.summary_of(learner@),
            views(summaries@) == select(rows.take(i as int), keep, pick),
        decreases count - i,
    {
        proof {
            lemma_select_step(rows, i as int, keep, pick);
        }
        let course = store.course_at(i);
        if store.has_enrollment(learner, course.id) {
            let progress = course_progress(store, learner, course.id);
            let summary = CourseProgressSummary {
                course_id: course.id,
                course_title: course.title.clone(),
                completed_lesson_ids: progress.completed_lesson_ids,
                completed_quiz_ids: progress.completed_quiz_ids,
                completed_module_ids: progress.completed_module_ids,
                progress_percent: progress.progress_percent,
                course_completed: progress.course_completed,
            };
            proof {
                lemma_views_push(summaries@, summary);
            }
            summaries.push(summary);
        }
        i += 1;
    }
    summaries
}

/// Tells how far a learner has come in a course.
pub fn course_status(store: &Store, learner: &String, course_id: i64) -> (status: CourseStatus)
    requires
        store@.wf(),
    ensures
        status == store@.status_of(learner@, course_id),
{
    if !store.has_enrollment(learner, course_id) {
        return CourseStatus::NotEnrolled;
    }
    if store.has_course_completion(learner, course_id) {
        return CourseStatus::CourseComplete;
    }
    let count = store.lesson_count();
    let mut i: usize = 0;
    while i < count
        invariant
            i <= count,
            count == store@.lessons.len(),
            count <= i64::MAX,
            store@.enrolled(learner@, course_id),
            !store@.course_done(learner@, course_id),
            forall|lesson_id: i64|
                1 <= lesson_id <= i ==> !(store@.lesson_in_course(lesson_id, course_id)
                    && #[trigger] store@.lesson_done(learner@, lesson_id)),
        decreases count - i,
    {
        let lesson_id = (i + 1) as i64;
        if module_belongs(store, store.lesson_at(i).module_id, course_id)
            && store.has_lesson_completion(learner, lesson_id) {
            assert(store@.lesson_in_course(lesson_id, course_id) && store@.lesson_done(
                learner@,
                lesson_id,
            ));
            return CourseStatus::PartiallyComplete;
        }
        i += 1;
    }
    CourseStatus::Enrolled
}

} // verus!

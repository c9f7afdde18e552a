//! Authoring courses, enrolling learners and reading courses back.
use vstd::prelude::*;
use crate::authoring::{
    law_authored_course_is_written, lemma_answer_added, lemma_answers_grow, lemma_course_added, lemma_creator_added,
    lemma_lesson_added, lemma_module_added, lemma_positions, lemma_question_added,
    lemma_quiz_added, lemma_totals_grow, lesson_positions_fit,
};
use crate::error::EngineError;
use crate::invariants::{lemma_enroll_keeps_wf, lemma_growth_keeps_wf};
use crate::engine::progress::{count_modules_in_course, done_module_ids};
use crate::models::course::{
    views, Course, CourseCreatorResponse, CoursePreview, CourseQuery, CourseRow,
    CreateAnswerOptionPayload, CreateCoursePayload, CreateLessonPayload, CreateModulePayload,
    CreateQuestionPayload, CreatedCourse, EnrolledCourse, JoinCourseRequest, LearnerId, ModuleRow,
    NumCompletedResponse, UserCoursesResponse, UserQuery,
};
use crate::readback::{law_authored_course_reads_back, written_course};
use crate::report::{clip, clip32, course_of_creator, first_lower, module_id, module_of_course};
use crate::rules::{checked_position, is_fully_complete, module_percent, position_fits};
use crate::selection::{lemma_select_none, lemma_select_step, select};
use crate::store::lemma_views_push;
use crate::tree::{assemble_course, course_tree};
use crate::state::{
    answer_total, answers_among, answers_in, first_bad_lesson_position, first_bad_position,
    lesson_total, question_total, questions_in, quiz_total, StoreState,
};
use crate::store::Store;

verus! {

fn find_bad_lesson_position(lessons: &Vec<CreateLessonPayload>) -> (bad: Option<i64>)
    ensures
        bad == first_bad_lesson_position(views(lessons@), 0),
{
    let mut j: usize = 0;
    while j < lessons.len()
        invariant
            j <= lessons.len(),
            first_bad_lesson_position(views(lessons@), 0) == first_bad_lesson_position(
                views(lessons@),
                j as int,
            ),
        decreases lessons.len() - j,
    {
        if checked_position(lessons[j].position).is_none() {
            return Some(lessons[j].position);
        }
        j += 1;
    }
    None
}

/// The first position of the payload's modules and lessons, in the order in
/// which authoring visits them, that lies outside the 32-bit signed range.
pub fn find_bad_position(modules: &Vec<CreateModulePayload>) -> (bad: Option<i64>)
    ensures
        bad == first_bad_position(views(modules@), 0),
{
    let mut k: usize = 0;
    while k < modules.len()
        invariant
            k <= modules.len(),
            first_bad_position(views(modules@), 0) == first_bad_position(views(modules@), k as int),
        decreases modules.len() - k,
    {
        if checked_position(modules[k].position).is_none() {
            return Some(modules[k].position);
        }
        let bad = find_bad_lesson_position(&modules[k].lessons);
        if bad.is_some() {
            return bad;
        }
        k += 1;
    }
    None
}

/// Adds a count to a running total that must stay within the ids: `None`
/// stands for a total beyond them.
fn add_rows(total: Option<u64>, rows: usize) -> (sum: Option<u64>)
    requires
        total is Some ==> total->0 <= i64::MAX,
    ensures
        match sum {
            Some(t) => total is Some && t == total->0 + rows && t <= i64::MAX,
            None => total is None || total->0 + rows > i64::MAX,
        },
{
    match total {
        Some(t) => {
            if rows as u64 <= 9223372036854775807u64 - t {
                Some(t + rows as u64)
            } else {
                None
            }
        },
        None => None,
    }
}

fn count_answers(questions: &Vec<CreateQuestionPayload>) -> (total: Option<u64>)
    ensures
        match total {
            Some(t) => t == answers_among(views(questions@), questions.len() as nat) && t
                <= i64::MAX,
            None => answers_among(views(questions@), questions.len() as nat) > i64::MAX,
        },
{
    let mut total: Option<u64> = Some(0);
    let mut j: usize = 0;
    while j < questions.len()
        invariant
            j <= questions.len(),
            match total {
                Some(t) => t == answers_among(views(questions@), j as nat) && t <= i64::MAX,
                None => answers_among(views(questions@), j as nat) > i64::MAX,
            },
        decreases questions.len() - j,
    {
        total = add_rows(total, questions[j].answers.len());
        j += 1;
    }
    total
}

/// Whether every table of the store can take the rows of the payload without
/// running out of ids.
pub fn has_room(store: &Store, payload: &CreateCoursePayload) -> (room: bool)
    requires
        store@.tree_ok(),
    ensures
        room == store@.has_room_for(payload@),
{
    let modules = &payload.modules;
    let ghost specs = views(modules@);
    let mut lessons: Option<u64> = Some(store.lesson_count() as u64);
    let mut quizzes: Option<u64> = Some(store.quiz_count() as u64);
    let mut questions: Option<u64> = Some(store.question_count() as u64);
    let mut answers: Option<u64> = Some(store.answer_count() as u64);
    let mut k: usize = 0;
    while k < modules.len()
        invariant
            k <= modules.len(),
            specs == views(modules@),
            match lessons {
                Some(t) => t == store@.lessons.len() + lesson_total(specs, k as nat) && t
                    <= i64::MAX,
                None => store@.lessons.len() + lesson_total(specs, k as nat) > i64::MAX,
            },
            match quizzes {
                Some(t) => t == store@.quizzes.len() + quiz_total(specs, k as nat) && t
                    <= i64::MAX,
                None => store@.quizzes.len() + quiz_total(specs, k as nat) > i64::MAX,
            },
            match questions {
                Some(t) => t == store@.questions.len() + question_total(specs, k as nat) && t
                    <= i64::MAX,
                None => store@.questions.len() + question_total(specs, k as nat) > i64::MAX,
            },
            match answers {
                Some(t) => t == store@.answers.len() + answer_total(specs, k as nat) && t
                    <= i64::MAX,
                None => store@.answers.len() + answer_total(specs, k as nat) > i64::MAX,
            },
        decreases modules.len() - k,
    {
        lessons = add_rows(lessons, modules[k].lessons.len());
        match &modules[k].quiz {
            Some(quiz) => {
                quizzes = add_rows(quizzes, 1);
                questions = add_rows(questions, quiz.questions.len());
                match count_answers(&quiz.questions) {
                    Some(n) => {
                        answers = match answers {
                            Some(t) => if n <= 9223372036854775807u64 - t {
                                Some(t + n)
                            } else {
                                None
                            },
                            None => None,
                        };
                    },
                    None => {
                        answers = None;
                    },
                }
            },
            None => {},
        }
        k += 1;
    }
    let courses = store.course_count() as u64;
    let module_rows = store.module_count() as u64;
    courses < 9223372036854775807u64 && modules.len() as u64 <= 9223372036854775807u64
        - module_rows && lessons.is_some() && quizzes.is_some() && questions.is_some()
        && answers.is_some()
}

fn insert_answers(
    store: &mut Store,
    question_id: i64,
    answers: &Vec<CreateAnswerOptionPayload>,
    Ghost(origin): Ghost<StoreState>,
)
    requires
        origin.grown_into(old(store)@),
        old(store)@.tree_ok(),
        old(store)@.has_question(question_id),
        old(store)@.answers.len() + answers.len() <= i64::MAX,
    ensures
        final(store)@ == old(store)@.author_answers(
            question_id,
            views(answers@),
            answers.len() as nat,
        ),
        origin.grown_into(final(store)@),
        final(store)@.tree_ok(),
        final(store)@.answers.len() == old(store)@.answers.len() + answers.len(),
        final(store)@ == (StoreState { answers: final(store)@.answers, ..old(store)@ }),
{
    let ghost start = store@;
    let mut j: usize = 0;
    while j < answers.len()
        invariant
            j <= answers.len(),
            store@ == start.author_answers(question_id, views(answers@), j as nat),
            origin.grown_into(store@),
            store@.tree_ok(),
            store@.answers.len() == start.answers.len() + j,
            start.answers.len() + answers.len() <= i64::MAX,
            start.has_question(question_id),
            store@ == (StoreState { answers: store@.answers, ..start }),
        decreases answers.len() - j,
    {
        proof {
            lemma_answer_added(origin, store@, question_id, answers[j as int]@);
        }
        store.push_answer(question_id, &answers[j]);
        j += 1;
    }
}

fn insert_questions(
    store: &mut Store,
    quiz_id: i64,
    questions: &Vec<CreateQuestionPayload>,
    Ghost(origin): Ghost<StoreState>,
)
    requires
        origin.grown_into(old(store)@),
        old(store)@.tree_ok(),
        old(store)@.has_quiz(quiz_id),
        old(store)@.questions.len() + questions.len() <= i64::MAX,
        old(store)@.answers.len() + answers_among(views(questions@), questions.len() as nat)
            <= i64::MAX,
    ensures
        final(store)@ == old(store)@.author_questions(
            quiz_id,
            views(questions@),
            questions.len() as nat,
        ),
        origin.grown_into(final(store)@),
        final(store)@.tree_ok(),
        final(store)@.questions.len() == old(store)@.questions.len() + questions.len(),
        final(store)@.answers.len() == old(store)@.answers.len() + answers_among(
            views(questions@),
            questions.len() as nat,
        ),
        final(store)@ == (StoreState {
            questions: final(store)@.questions,
            answers: final(store)@.answers,
            ..old(store)@
        }),
{
    let ghost start = store@;
    let ghost specs = views(questions@);
    let mut j: usize = 0;
    while j < questions.len()
        invariant
            j <= questions.len(),
            specs == views(questions@),
            store@ == start.author_questions(quiz_id, specs, j as nat),
            origin.grown_into(store@),
            store@.tree_ok(),
            store@.questions.len() == start.questions.len() + j,
            store@.answers.len() == start.answers.len() + answers_among(specs, j as nat),
            start.questions.len() + questions.len() <= i64::MAX,
            start.answers.len() + answers_among(specs, questions.len() as nat) <= i64::MAX,
            start.has_quiz(quiz_id),
            store@ == (StoreState {
                questions: store@.questions,
                answers: store@.answers,
                ..start
            }),
        decreases questions.len() - j,
    {
        proof {
            lemma_question_added(origin, store@, quiz_id, questions[j as int].question_text@);
            lemma_answers_grow(specs, (j + 1) as nat, questions.len() as nat);
        }
        let question_id = store.push_question(quiz_id, &questions[j].question_text);
        insert_answers(store, question_id, &questions[j].answers, Ghost(origin));
        j += 1;
    }
}

fn insert_lessons(
    store: &mut Store,
    module_id: i64,
    lessons: &Vec<CreateLessonPayload>,
    Ghost(origin): Ghost<StoreState>,
)
    requires
        origin.grown_into(old(store)@),
        old(store)@.tree_ok(),
        old(store)@.has_module(module_id),
        module_id > origin.modules.len(),
        old(store)@.lessons.len() + lessons.len() <= i64::MAX,
        lesson_positions_fit(views(lessons@)),
    ensures
        final(store)@ == old(store)@.author_lessons(
            module_id,
            views(lessons@),
            lessons.len() as nat,
        ),
        origin.grown_into(final(store)@),
        final(store)@.tree_ok(),
        final(store)@.lessons.len() == old(store)@.lessons.len() + lessons.len(),
        final(store)@ == (StoreState { lessons: final(store)@.lessons, ..old(store)@ }),
{
    let ghost start = store@;
    let mut j: usize = 0;
    while j < lessons.len()
        invariant
            j <= lessons.len(),
            store@ == start.author_lessons(module_id, views(lessons@), j as nat),
            origin.grown_into(store@),
            store@.tree_ok(),
            store@.lessons.len() == start.lessons.len() + j,
            start.lessons.len() + lessons.len() <= i64::MAX,
            start.has_module(module_id),
            module_id > origin.modules.len(),
            lesson_positions_fit(views(lessons@)),
            store@ == (StoreState { lessons: store@.lessons, ..start }),
        decreases lessons.len() - j,
    {
        proof {
            lemma_lesson_added(origin, store@, module_id, lessons[j as int]@);
            assert(position_fits(views(lessons@)[j as int].position));
        }
        store.push_lesson(module_id, &lessons[j]);
        j += 1;
    }
}

fn insert_module(
    store: &mut Store,
    course_id: i64,
    module: &CreateModulePayload,
    Ghost(origin): Ghost<StoreState>,
)
    requires
        origin.grown_into(old(store)@),
        old(store)@.tree_ok(),
        old(store)@.has_course(course_id),
        course_id > origin.courses.len(),
        position_fits(module.position),
        lesson_positions_fit(views(module.lessons@)),
        old(store)@.modules.len() + 1 <= i64::MAX,
        old(store)@.lessons.len() + module.lessons.len() <= i64::MAX,
        module.quiz is Some ==> old(store)@.quizzes.len() + 1 <= i64::MAX,
        old(store)@.questions.len() + questions_in(module@) <= i64::MAX,
        old(store)@.answers.len() + answers_in(module@) <= i64::MAX,
    ensures
        final(store)@ == old(store)@.author_module(course_id, module@),
        origin.grown_into(final(store)@),
        final(store)@.tree_ok(),
        final(store)@.courses == old(store)@.courses,
        final(store)@.modules.len() == old(store)@.modules.len() + 1,
        final(store)@.lessons.len() == old(store)@.lessons.len() + module.lessons.len(),
        final(store)@.quizzes.len() == old(store)@.quizzes.len() + if module.quiz is Some {
            1int
        } else {
            0int
        },
        final(store)@.questions.len() == old(store)@.questions.len() + questions_in(module@),
        final(store)@.answers.len() == old(store)@.answers.len() + answers_in(module@),
{
    proof {
        lemma_module_added(origin, store@, course_id, module.title@, module.position);
    }
    let module_id = store.push_module(course_id, &module.title, module.position);
    insert_lessons(store, module_id, &module.lessons, Ghost(origin));
    match &module.quiz {
        Some(quiz) => {
            proof {
                lemma_quiz_added(origin, store@, module_id);
            }
            let quiz_id = store.push_quiz(module_id);
            insert_questions(store, quiz_id, &quiz.questions, Ghost(origin));
        },
        None => {},
    }
}

/// Authors a course: writes the course, its modules, their lessons and their
/// quizzes with questions and answer options, all or nothing.
///
/// The payload is refused, and nothing is written, when a position of a
/// module or a lesson lies outside the 32-bit signed range: the error names
/// the first such position in the order of the payload. It is refused as a
/// storage failure when a table would run out of ids. Otherwise the creator
/// becomes known, every row takes the next id of its table, and the answer is
/// the id of the new course. What learners have recorded stays as it is,
/// and the new course reads back as the tree of the payload.
pub fn create_course(store: &mut Store, payload: &CreateCoursePayload) -> (outcome: Result<
    i64,
    EngineError,
>)
    requires
        old(store)@.wf(),
    ensures
        final(store)@.wf(),
        old(store)@.grown_into(final(store)@),
        match first_bad_position(payload@.modules, 0) {
            Some(position) => {
                &&& outcome == Err::<i64, EngineError>(
                    EngineError::PositionOutOfRange { position },
                )
                &&& final(store)@ == old(store)@
            },
            None => if old(store)@.has_room_for(payload@) {
                &&& outcome == Ok::<i64, EngineError>((old(store)@.courses.len() + 1) as i64)
                &&& final(store)@ == old(store)@.author_course(payload@)
                &&& old(store)@.course_written(payload@, final(store)@)
                &&& course_tree(
                    final(store)@.course_row_of(
                        final(store)@.courses[old(store)@.courses.len() as int],
                    ),
                    final(store)@.module_rows_of((old(store)@.courses.len() + 1) as i64),
                    final(store)@.lessons,
                    final(store)@.quizzes,
                    final(store)@.questions,
                    final(store)@.answers,
                ) == written_course(old(store)@, payload@)
            } else {
                &&& outcome == Err::<i64, EngineError>(EngineError::StorageFailure)
                &&& final(store)@ == old(store)@
            },
        },
{
    let modules = &payload.modules;
    let ghost specs = views(modules@);
    let ghost origin = store@;
    match find_bad_position(modules) {
        Some(position) => {
            return Err(EngineError::PositionOutOfRange { position });
        },
        None => {},
    }
    if !has_room(store, payload) {
        return Err(EngineError::StorageFailure);
    }
    proof {
        law_authored_course_is_written(origin, payload@);
        lemma_positions(specs, 0);
        lemma_creator_added(origin, origin, payload.creator_id@);
        lemma_course_added(
            origin,
            origin.with_creator(payload.creator_id@),
            payload.title@,
            payload.description@,
            payload.creator_id@,
        );
    }
    store.add_creator(&payload.creator_id);
    let course_id = store.push_course(&payload.title, &payload.description, &payload.creator_id);
    let ghost base = store@;
    let mut k: usize = 0;
    while k < modules.len()
        invariant
            k <= modules.len(),
            specs == views(modules@),
            specs == payload@.modules,
            origin.has_room_for(payload@),
            forall|t: int|
                0 <= t < specs.len() ==> position_fits((#[trigger] specs[t]).position)
                    && lesson_positions_fit(specs[t].lessons),
            course_id == origin.courses.len() + 1,
            store@ == base.author_modules(course_id, specs, k as nat),
            origin.grown_into(store@),
            store@.tree_ok(),
            store@.courses == base.courses,
            base.courses.len() == origin.courses.len() + 1,
            store@.modules.len() == origin.modules.len() + k,
            store@.lessons.len() == origin.lessons.len() + lesson_total(specs, k as nat),
            store@.quizzes.len() == origin.quizzes.len() + quiz_total(specs, k as nat),
            store@.questions.len() == origin.questions.len() + question_total(specs, k as nat),
            store@.answers.len() == origin.answers.len() + answer_total(specs, k as nat),
        decreases modules.len() - k,
    {
        proof {
            lemma_totals_grow(specs, (k + 1) as nat, modules.len() as nat);
            assert(specs[k as int] == modules[k as int]@);
            assert(specs[k as int].lessons == views(modules[k as int].lessons@));
        }
        insert_module(store, course_id, &modules[k], Ghost(origin));
        k += 1;
    }
    proof {
        lemma_growth_keeps_wf(origin, store@);
        law_authored_course_reads_back(origin, payload@, store@);
    }
    Ok(course_id)
}

/// Enrolls a learner in a course.
///
/// The request is refused, and nothing changes, when the course does not
/// exist. Otherwise the learner becomes known and the enrollment is
/// recorded; enrolling again changes nothing.
pub fn enroll(store: &mut Store, payload: &JoinCourseRequest) -> (outcome: Result<i64, EngineError>)
    requires
        old(store)@.wf(),
    ensures
        final(store)@.wf(),
        final(store)@ == old(store)@.enroll(payload.learner_id@, payload.course_id),
        old(store)@.has_course(payload.course_id) ==> outcome == Ok::<i64, EngineError>(
            payload.course_id,
        ),
        !old(store)@.has_course(payload.course_id) ==> outcome == Err::<i64, EngineError>(
            EngineError::NotFound,
        ),
{
    proof {
        lemma_enroll_keeps_wf(store@, payload.learner_id@, payload.course_id);
    }
    if payload.course_id < 1 || payload.course_id as u64 > store.course_count() as u64 {
        return Err(EngineError::NotFound);
    }
    store.add_learner(&payload.learner_id);
    store.add_enrollment(&payload.learner_id, payload.course_id);
    Ok(payload.course_id)
}

fn clip_count(n: usize) -> (clipped: i64)
    ensures
        clipped == clip(n as int),
{
    if n as u64 > 9223372036854775807u64 {
        9223372036854775807i64
    } else {
        n as i64
    }
}

fn clip_count32(n: usize) -> (clipped: i32)
    ensures
        clipped == clip32(n as int),
{
    if n as u64 > 2147483647u64 {
        2147483647i32
    } else {
        n as i32
    }
}

fn select_modules(store: &Store, course_id: i64) -> (rows: Vec<ModuleRow>)
    ensures
        views(rows@) == store@.module_rows_of(course_id),
{
    let ghost all = store@.modules;
    let ghost keep = module_of_course(course_id);
    let count = store.module_count();
    let mut rows: Vec<ModuleRow> = Vec::new();
    let mut i: usize = 0;
    proof {
        lemma_select_none(all, keep, module_id());
        assert(views(rows@) =~= Seq::empty());
    }
    while i < count
        invariant
            i <= count,
            count == all.len(),
            all == store@.modules,
            keep == module_of_course(course_id),
            views(rows@) == all.take(i as int).filter(keep),
        decreases count - i,
    {
        proof {
            lemma_select_step(all, i as int, keep, module_id());
        }
        let row = store.module_at(i);
        if row.course_id == course_id {
            let copy = row.clone();
            proof {
                lemma_views_push(rows@, copy);
            }
            rows.push(copy);
        }
        i += 1;
    }
    rows
}

/// Reads a course back as a full tree: the course with the numbers of its
/// learners and of those who completed it, its modules in order, and under
/// each module its lessons and its quiz with questions and answer options.
pub fn get_course(store: &Store, query: &CourseQuery) -> (outcome: Result<Course, EngineError>)
    requires
        store@.wf(),
    ensures
        match outcome {
            Ok(course) => {
                &&& store@.has_course(query.course_id)
                &&& course.id == query.course_id
                &&& course@ == course_tree(
                    store@.course_row_of(store@.courses[query.course_id - 1]),
                    store@.module_rows_of(query.course_id),
                    store@.lessons,
                    store@.quizzes,
                    store@.questions,
                    store@.answers,
                )
            },
            Err(error) => !store@.has_course(query.course_id) && error == EngineError::NotFound,
        },
{
    if query.course_id < 1 || query.course_id as u64 > store.course_count() as u64 {
        return Err(EngineError::NotFound);
    }
    let record = store.course_at((query.course_id - 1) as usize);
    let course_row = CourseRow {
        id: record.id,
        title: record.title.clone(),
        description: record.description.clone(),
        creator_id: record.creator_id.clone(),
        num_learners: clip_count32(store.enrollments_in(record.id)),
        num_completed: clip_count32(store.completions_of(record.id)),
    };
    let module_rows = select_modules(store, query.course_id);
    Ok(
        assemble_course(
            &course_row,
            &module_rows,
            store.lessons(),
            store.quizzes(),
            store.questions(),
            store.answers(),
        ),
    )
}

/// Names the creator of a course.
pub fn get_course_creator(store: &Store, query: &CourseQuery) -> (outcome: Result<
    CourseCreatorResponse,
    EngineError,
>)
    ensures
        match outcome {
            Ok(answer) => store@.has_course(query.course_id) && answer.creator_id@
                == store@.courses[query.course_id - 1].creator_id,
            Err(error) => !store@.has_course(query.course_id) && error == EngineError::NotFound,
        },
{
    if query.course_id < 1 || query.course_id as u64 > store.course_count() as u64 {
        return Err(EngineError::NotFound);
    }
    let record = store.course_at((query.course_id - 1) as usize);
    Ok(CourseCreatorResponse { creator_id: record.creator_id.clone() })
}

/// Counts the learners who have completed a course.
pub fn get_num_completed(store: &Store, query: &CourseQuery) -> (answer: NumCompletedResponse)
    ensures
        answer.num_completed == clip(store@.completions_of(query.course_id) as int),
{
    NumCompletedResponse { num_completed: clip_count(store.completions_of(query.course_id)) }
}

/// Lists the learners enrolled in a course, in the order in which they
/// enrolled.
pub fn get_learners_by_course(store: &Store, query: &CourseQuery) -> (learners: Vec<LearnerId>)
    ensures
        views(learners@) == store@.learners_of(query.course_id),
{
    store.learners_of(query.course_id)
}

fn preview_course(store: &Store, i: usize) -> (preview: CoursePreview)
    requires
        i < store@.courses.len(),
    ensures
        preview@ == store@.preview_of(store@.courses[i as int]),
{
    let record = store.course_at(i);
    CoursePreview {
        course_id: record.id,
        title: record.title.clone(),
        creator_id: record.creator_id.clone(),
        num_enrollments: clip_count(store.enrollments_in(record.id)),
        num_completions: clip_count(store.completions_of(record.id)),
        num_modules: clip_count(count_modules_in_course(store, record.id)),
    }
}

fn find_rank(listing: &Vec<CoursePreview>, enrollments: i64) -> (at: usize)
    ensures
        at == first_lower(views(listing@), enrollments, 0),
        at <= listing.len(),
{
    let mut at: usize = 0;
    while at < listing.len()
        invariant
            at <= listing.len(),
            first_lower(views(listing@), enrollments, 0) == first_lower(
                views(listing@),
                enrollments,
                at as int,
            ),
        decreases listing.len() - at,
    {
        if listing[at].num_enrollments < enrollments {
            return at;
        }
        at += 1;
    }
    at
}

/// Lists all courses with their numbers of enrollments, completions and
/// modules, those with more enrollments first and among equals the earlier
/// course.
pub fn get_all_courses(store: &Store) -> (listing: Vec<CoursePreview>)
    ensures
        views(listing@) == store@.course_listing(),
{
    let count = store.course_count();
    let mut listing: Vec<CoursePreview> = Vec::new();
    let mut k: usize = 0;
    proof {
        assert(views(listing@) =~= Seq::empty());
    }
    while k < count
        invariant
            k <= count,
            count == store@.courses.len(),
            views(listing@) == store@.listing_upto(k as nat),
        decreases count - k,
    {
        let preview = preview_course(store, k);
        let at = find_rank(&listing, preview.num_enrollments);
        let ghost before = listing@;
        listing.insert(at, preview);
        proof {
            assert(views(listing@) =~= views(before).insert(at as int, preview@));
        }
        k += 1;
    }
    listing
}

/// Lists the three courses with the most enrollments.
pub fn get_top_courses(store: &Store) -> (listing: Vec<CoursePreview>)
    ensures
        views(listing@) == store@.top_courses(),
{
    let mut listing = get_all_courses(store);
    let ghost all = listing@;
    listing.truncate(3);
    proof {
        if all.len() > 3 {
            assert(views(listing@) =~= views(all).take(3));
        }
    }
    listing
}

fn created_courses(store: &Store, user: &String) -> (created: Vec<CreatedCourse>)
    ensures
        views(created@) == store@.created_by(user@),
{
    let ghost rows = store@.courses.reverse();
    let ghost keep = course_of_creator(user@);
    let ghost pick = store@.created_of();
    let count = store.course_count();
    let mut created: Vec<CreatedCourse> = Vec::new();
    let mut i: usize = 0;
    proof {
        lemma_select_none(rows, keep, pick);
        assert(views(created@) =~= Seq::empty());
    }
    while i < count
        invariant
            i <= count,
            count == rows.len(),
            count == store@.courses.len(),
            rows == store@.courses.reverse(),
            keep == course_of_creator(user@),
            pick == store@.created_of(),
            views(created@) == select(rows.take(i as int), keep, pick),
        decreases count - i,
    {
        proof {
            lemma_select_step(rows, i as int, keep, pick);
        }
        let record = store.course_at(count - 1 - i);
        if record.creator_id == *user {
            let course = CreatedCourse {
                course_id: record.id,
                title: record.title.clone(),
                num_learners: clip_count(store.enrollments_in(record.id)),
                num_completed: clip_count(store.completions_of(record.id)),
            };
            proof {
                lemma_views_push(created@, course);
            }
            created.push(course);
        }
        i += 1;
    }
    created
}

fn enrolled_courses(store: &Store, user: &String) -> (enrolled: Vec<EnrolledCourse>)
    ensures
        views(enrolled@) == store@.enrolled_by(user@),
{
    let ghost rows = store@.courses.reverse();
    let ghost keep = store@.course_of_learner(user@);
    let ghost pick = store@.enrolled_of(user@);
    let count = store.course_count();
    let mut enrolled: Vec<EnrolledCourse> = Vec::new();
    let mut i: usize = 0;
    proof {
        lemma_select_none(rows, keep, pick);
        assert(views(enrolled@) =~= Seq::empty());
    }
    while i < count
        invariant
            i <= count,
            count == rows.len(),
            count == store@.courses.len(),
            rows == store@.courses.reverse(),
            keep == store@.course_of_learner(user@),
            pick == store@.enrolled_of(user@),
            views(enrolled@) == select(rows.take(i as int), keep, pick),
        decreases count - i,
    {
        proof {
            lemma_select_step(rows, i as int, keep, pick);
        }
        let record = store.course_at(count - 1 - i);
        if store.has_enrollment(user, record.id) {
            let total = count_modules_in_course(store, record.id);
            let completed = done_module_ids(store, user, record.id).len();
            let course = EnrolledCourse {
                course_id: record.id,
                title: record.title.clone(),
                total_modules: clip_count(total),
                completed_modules: clip_count(completed),
                progress_percent: module_percent(total as u64, completed as u64) as i64,
                completed: is_fully_complete(total as u64, completed as u64),
            };
            proof {
                lemma_views_push(enrolled@, course);
            }
            enrolled.push(course);
        }
        i += 1;
    }
    enrolled
}

/// Lists the courses that a user created and the courses that the user is
/// enrolled in, the latest first in both.
pub fn get_user_courses(store: &Store, query: &UserQuery) -> (answer: UserCoursesResponse)
    ensures
        views(answer.created_courses@) == store@.created_by(query.user_id@),
        views(answer.enrolled_courses@) == store@.enrolled_by(query.user_id@),
{
    UserCoursesResponse {
        created_courses: created_courses(store, &query.user_id),
        enrolled_courses: enrolled_courses(store, &query.user_id),
    }
}

} // verus!

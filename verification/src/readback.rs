//! An authored course reads back as it was written: the tree that reading
//! assembles from the tables is the tree of the payload, with the ids that
//! authoring gave.
use vstd::prelude::*;
use crate::authoring::{lemma_answers_grow, lemma_totals_grow};
use crate::derivation::{child_of, children_complete};
use crate::models::course::{
    AnswerOptionView, CourseView, CreateAnswerOptionPayloadView, CreateCoursePayloadView,
    CreateLessonPayloadView, CreateModulePayloadView, CreateQuestionPayloadView, LessonView,
    ModuleRowView, ModuleView, QuestionRowView, QuestionView, QuizRow, QuizView,
};
use crate::report::{about, clip32, module_of_course};
use crate::selection::lemma_filter_block;
use crate::state::{
    answer_row, answer_rows_written, answer_total, answers_among, course_ids, lesson_row,
    lesson_rows_written, lesson_total, module_row, module_rows_written, question_row,
    question_rows_written, question_total, quiz_questions, quiz_rows_written, quiz_total,
    StoreState,
};
use crate::tree::{
    answers_of, built_questions, built_quizzes, course_tree, lessons_of, module_is_first,
    question_is_first, questions_of, quiz_is_first, quiz_of,
};

verus! {

/// The lessons of a module of a payload as they are stored: under the
/// module, with the ids that follow `after`.
pub open spec fn written_lessons(
    lessons: Seq<CreateLessonPayloadView>,
    module_id: int,
    after: int,
) -> Seq<LessonView> {
    Seq::new(lessons.len(), |j: int| lesson_row(lessons[j], module_id, after + j + 1))
}

/// The answer options of a question of a payload as they are stored: under
/// the question, with the ids that follow `after`.
pub open spec fn written_answers(
    answers: Seq<CreateAnswerOptionPayloadView>,
    question_id: int,
    after: int,
) -> Seq<AnswerOptionView> {
    Seq::new(answers.len(), |a: int| answer_row(answers[a], question_id, after + a + 1))
}

/// The questions of a quiz of a payload as they read back: under the quiz,
/// with the ids that follow `after_question`, each with its answer options,
/// whose ids follow `after_answer` and the answer options of the questions
/// before.
pub open spec fn written_questions(
    asked: Seq<CreateQuestionPayloadView>,
    quiz_id: int,
    after_question: int,
    after_answer: int,
) -> Seq<QuestionView> {
    Seq::new(
        asked.len(),
        |i: int|
            QuestionView {
                id: (after_question + i + 1) as i64,
                quiz_id: quiz_id as i64,
                question_text: asked[i].question_text,
                answers: written_answers(
                    asked[i].answers,
                    after_question + i + 1,
                    after_answer + answers_among(asked, i as nat),
                ),
            },
    )
}

/// Module `k` of a payload as it reads back after it was authored on the
/// state `s` under the course `course_id`.
pub open spec fn written_module(
    s: StoreState,
    course_id: int,
    modules: Seq<CreateModulePayloadView>,
    k: int,
) -> ModuleView {
    let module_id = s.modules.len() + k + 1;
    let quiz_id = (s.quizzes.len() + quiz_total(modules, k as nat) + 1) as int;
    ModuleView {
        id: module_id as i64,
        course_id: course_id as i64,
        title: modules[k].title,
        position: modules[k].position as i32,
        lessons: written_lessons(
            modules[k].lessons,
            module_id,
            (s.lessons.len() + lesson_total(modules, k as nat)) as int,
        ),
        quiz: match modules[k].quiz {
            Some(quiz) => Some(
                QuizView {
                    id: quiz_id as i64,
                    module_id: module_id as i64,
                    questions: written_questions(
                        quiz.questions,
                        quiz_id,
                        (s.questions.len() + question_total(modules, k as nat)) as int,
                        (s.answers.len() + answer_total(modules, k as nat)) as int,
                    ),
                },
            ),
            None => None,
        },
    }
}

/// The course of a payload as it reads back after it was authored on the
/// state `s`: nobody has enrolled in it yet.
pub open spec fn written_course(s: StoreState, payload: CreateCoursePayloadView) -> CourseView {
    CourseView {
        id: (s.courses.len() + 1) as i64,
        title: payload.title,
        description: payload.description,
        creator_id: payload.creator_id,
        modules: Seq::new(
            payload.modules.len(),
            |k: int| written_module(s, (s.courses.len() + 1) as int, payload.modules, k),
        ),
        num_learners: 0,
        num_completed: 0,
    }
}

/// Every place among the lessons of the first `n` modules is the place of
/// one lesson of one of them.
proof fn lemma_find_lesson(modules: Seq<CreateModulePayloadView>, n: nat, x: int) -> (at: (int, int))
    requires
        0 <= x < lesson_total(modules, n),
    ensures
        0 <= at.0 < n,
        0 <= at.1 < modules[at.0].lessons.len(),
        x == lesson_total(modules, at.0 as nat) + at.1,
    decreases n,
{
    if x >= lesson_total(modules, (n - 1) as nat) {
        (n - 1, x - lesson_total(modules, (n - 1) as nat))
    } else {
        lemma_find_lesson(modules, (n - 1) as nat, x)
    }
}

/// Every place among the quizzes of the first `n` modules is the place of
/// the quiz of one of them.
proof fn lemma_find_quiz(modules: Seq<CreateModulePayloadView>, n: nat, x: int) -> (k: int)
    requires
        0 <= x < quiz_total(modules, n),
    ensures
        0 <= k < n,
        modules[k].quiz is Some,
        x == quiz_total(modules, k as nat),
    decreases n,
{
    if x >= quiz_total(modules, (n - 1) as nat) {
        n - 1
    } else {
        lemma_find_quiz(modules, (n - 1) as nat, x)
    }
}

/// Every place among the questions of the first `n` modules is the place of
/// one question of the quiz of one of them.
proof fn lemma_find_question(modules: Seq<CreateModulePayloadView>, n: nat, x: int) -> (at: (
    int,
    int,
))
    requires
        0 <= x < question_total(modules, n),
    ensures
        0 <= at.0 < n,
        0 <= at.1 < quiz_questions(modules[at.0]).len(),
        x == question_total(modules, at.0 as nat) + at.1,
    decreases n,
{
    if x >= question_total(modules, (n - 1) as nat) {
        (n - 1, x - question_total(modules, (n - 1) as nat))
    } else {
        lemma_find_question(modules, (n - 1) as nat, x)
    }
}

/// Every place among the answer options of the first `n` questions is the
/// place of one answer option of one of them.
proof fn lemma_find_answer_among(asked: Seq<CreateQuestionPayloadView>, n: nat, x: int) -> (at: (
    int,
    int,
))
    requires
        0 <= x < answers_among(asked, n),
    ensures
        0 <= at.0 < n,
        0 <= at.1 < asked[at.0].answers.len(),
        x == answers_among(asked, at.0 as nat) + at.1,
    decreases n,
{
    if x >= answers_among(asked, (n - 1) as nat) {
        (n - 1, x - answers_among(asked, (n - 1) as nat))
    } else {
        lemma_find_answer_among(asked, (n - 1) as nat, x)
    }
}

/// Every place among the answer options of the first `n` modules is the
/// place of one answer option of one question of the quiz of one of them.
proof fn lemma_find_answer(modules: Seq<CreateModulePayloadView>, n: nat, x: int) -> (at: (
    int,
    int,
    int,
))
    requires
        0 <= x < answer_total(modules, n),
    ensures
        0 <= at.0 < n,
        0 <= at.1 < quiz_questions(modules[at.0]).len(),
        0 <= at.2 < quiz_questions(modules[at.0])[at.1].answers.len(),
        x == answer_total(modules, at.0 as nat) + answers_among(
            quiz_questions(modules[at.0]),
            at.1 as nat,
        ) + at.2,
    decreases n,
{
    if x >= answer_total(modules, (n - 1) as nat) {
        let asked = quiz_questions(modules[n - 1]);
        let inner = lemma_find_answer_among(
            asked,
            asked.len(),
            x - answer_total(modules, (n - 1) as nat),
        );
        (n - 1, inner.0, inner.1)
    } else {
        lemma_find_answer(modules, (n - 1) as nat, x)
    }
}

/// The modules of the new course are the modules of the payload.
proof fn lemma_modules_read_back(
    rows: Seq<ModuleRowView>,
    course_id: int,
    m0: int,
    modules: Seq<CreateModulePayloadView>,
)
    requires
        module_rows_written(rows, course_id, m0, modules, modules.len()),
        rows.len() == m0 + modules.len(),
        0 <= m0,
        0 < course_id <= i64::MAX,
        forall|i: int| 0 <= i < m0 ==> (#[trigger] rows[i]).course_id < course_id,
    ensures
        rows.filter(module_of_course(course_id as i64)) == Seq::new(
            modules.len(),
            |k: int| module_row(modules[k], course_id, m0 + k + 1),
        ),
{
    let keep = module_of_course(course_id as i64);
    assert forall|i: int| 0 <= i < rows.len() implies (keep(#[trigger] rows[i]) <==> m0 <= i
        < rows.len()) by {
        if i >= m0 {
            assert(rows[m0 + (i - m0)] == module_row(modules[i - m0], course_id, m0 + (i - m0) + 1));
        }
    }
    lemma_filter_block(rows, keep, m0, rows.len() as int);
    assert forall|k: int| 0 <= k < modules.len() implies rows.subrange(m0, rows.len() as int)[k]
        == module_row(modules[k], course_id, m0 + k + 1) by {
        assert(rows[m0 + k] == module_row(modules[k], course_id, m0 + k + 1));
    }
    assert(rows.subrange(m0, rows.len() as int) =~= Seq::new(
        modules.len(),
        |k: int| module_row(modules[k], course_id, m0 + k + 1),
    ));
}

/// The lessons of new module `k` stand together, and no other lesson names
/// the module.
proof fn lemma_lesson_block(
    rows: Seq<LessonView>,
    m0: int,
    l0: int,
    modules: Seq<CreateModulePayloadView>,
    k: int,
    x: int,
)
    requires
        lesson_rows_written(rows, m0, l0, modules, modules.len()),
        rows.len() == l0 + lesson_total(modules, modules.len()),
        0 <= m0,
        0 <= l0,
        m0 + modules.len() <= i64::MAX,
        0 <= k < modules.len(),
        0 <= x < rows.len(),
        forall|i: int| 0 <= i < l0 ==> (#[trigger] rows[i]).module_id <= m0,
    ensures
        rows[x].module_id == (m0 + k + 1) as i64 <==> l0 + lesson_total(modules, k as nat) <= x
            < l0 + lesson_total(modules, (k + 1) as nat),
{
    let n = modules.len();
    lemma_totals_grow(modules, (k + 1) as nat, n);
    if x >= l0 {
        let at = lemma_find_lesson(modules, n, x - l0);
        assert(rows[l0 + lesson_total(modules, at.0 as nat) + at.1] == lesson_row(
            modules[at.0].lessons[at.1],
            m0 + at.0 + 1,
            l0 + lesson_total(modules, at.0 as nat) + at.1 + 1,
        ));
        if at.0 < k {
            lemma_totals_grow(modules, (at.0 + 1) as nat, k as nat);
        } else if at.0 > k {
            lemma_totals_grow(modules, (k + 1) as nat, at.0 as nat);
        }
    }
}

/// The lessons of a new module are the lessons of its payload.
proof fn lemma_lessons_read_back(
    rows: Seq<LessonView>,
    m0: int,
    l0: int,
    modules: Seq<CreateModulePayloadView>,
    k: int,
)
    requires
        lesson_rows_written(rows, m0, l0, modules, modules.len()),
        rows.len() == l0 + lesson_total(modules, modules.len()),
        0 <= m0,
        0 <= l0,
        m0 + modules.len() <= i64::MAX,
        0 <= k < modules.len(),
        forall|i: int| 0 <= i < l0 ==> (#[trigger] rows[i]).module_id <= m0,
    ensures
        lessons_of(rows, (m0 + k + 1) as i64) == written_lessons(
            modules[k].lessons,
            m0 + k + 1,
            l0 + lesson_total(modules, k as nat),
        ),
{
    let module_id = (m0 + k + 1) as i64;
    let keep = |l: LessonView| l.module_id == module_id;
    let lo = l0 + lesson_total(modules, k as nat);
    let hi = l0 + lesson_total(modules, (k + 1) as nat);
    lemma_totals_grow(modules, (k + 1) as nat, modules.len());
    assert forall|x: int| 0 <= x < rows.len() implies (keep(#[trigger] rows[x]) <==> lo <= x
        < hi) by {
        lemma_lesson_block(rows, m0, l0, modules, k, x);
    }
    lemma_filter_block(rows, keep, lo, hi);
    let expected = written_lessons(modules[k].lessons, m0 + k + 1, lo);
    assert forall|j: int| 0 <= j < expected.len() implies rows.subrange(lo, hi)[j]
        == expected[j] by {
        assert(rows[l0 + lesson_total(modules, k as nat) + j] == lesson_row(
            modules[k].lessons[j],
            m0 + k + 1,
            l0 + lesson_total(modules, k as nat) + j + 1,
        ));
    }
    assert(rows.subrange(lo, hi) =~= expected);
}

/// The answer options of question `i` of new module `k` stand together, and
/// no other answer option names the question.
proof fn lemma_answer_block(
    rows: Seq<AnswerOptionView>,
    t0: int,
    a0: int,
    modules: Seq<CreateModulePayloadView>,
    k: int,
    i: int,
    x: int,
)
    requires
        answer_rows_written(rows, t0, a0, modules, modules.len()),
        rows.len() == a0 + answer_total(modules, modules.len()),
        0 <= t0,
        0 <= a0,
        t0 + question_total(modules, modules.len()) <= i64::MAX,
        0 <= k < modules.len(),
        0 <= i < quiz_questions(modules[k]).len(),
        0 <= x < rows.len(),
        forall|y: int| 0 <= y < a0 ==> (#[trigger] rows[y]).question_id <= t0,
    ensures
        rows[x].question_id == (t0 + question_total(modules, k as nat) + i + 1) as i64 <==> a0
            + answer_total(modules, k as nat) + answers_among(
            quiz_questions(modules[k]),
            i as nat,
        ) <= x < a0 + answer_total(modules, k as nat) + answers_among(
            quiz_questions(modules[k]),
            (i + 1) as nat,
        ),
{
    let n = modules.len();
    let asked = quiz_questions(modules[k]);
    lemma_totals_grow(modules, (k + 1) as nat, n);
    lemma_answers_grow(asked, (i + 1) as nat, asked.len());
    if x >= a0 {
        let at = lemma_find_answer(modules, n, x - a0);
        let others = quiz_questions(modules[at.0]);
        assert(rows[a0 + answer_total(modules, at.0 as nat) + answers_among(others, at.1 as nat)
            + at.2] == answer_row(
            others[at.1].answers[at.2],
            t0 + question_total(modules, at.0 as nat) + at.1 + 1,
            a0 + answer_total(modules, at.0 as nat) + answers_among(others, at.1 as nat) + at.2
                + 1,
        ));
        lemma_totals_grow(modules, (at.0 + 1) as nat, n);
        lemma_answers_grow(others, (at.1 + 1) as nat, others.len());
        if at.0 < k {
            lemma_totals_grow(modules, (at.0 + 1) as nat, k as nat);
        } else if at.0 > k {
            lemma_totals_grow(modules, (k + 1) as nat, at.0 as nat);
        } else if at.1 < i {
            lemma_answers_grow(asked, (at.1 + 1) as nat, i as nat);
        } else if at.1 > i {
            lemma_answers_grow(asked, (i + 1) as nat, at.1 as nat);
        }
    }
}

/// The answer options of a new question are the answer options of its
/// payload.
proof fn lemma_answers_read_back(
    rows: Seq<AnswerOptionView>,
    t0: int,
    a0: int,
    modules: Seq<CreateModulePayloadView>,
    k: int,
    i: int,
)
    requires
        answer_rows_written(rows, t0, a0, modules, modules.len()),
        rows.len() == a0 + answer_total(modules, modules.len()),
        0 <= t0,
        0 <= a0,
        t0 + question_total(modules, modules.len()) <= i64::MAX,
        0 <= k < modules.len(),
        0 <= i < quiz_questions(modules[k]).len(),
        forall|y: int| 0 <= y < a0 ==> (#[trigger] rows[y]).question_id <= t0,
    ensures
        answers_of(rows, (t0 + question_total(modules, k as nat) + i + 1) as i64)
            == written_answers(
            quiz_questions(modules[k])[i].answers,
            t0 + question_total(modules, k as nat) + i + 1,
            a0 + answer_total(modules, k as nat) + answers_among(
                quiz_questions(modules[k]),
                i as nat,
            ),
        ),
{
    let asked = quiz_questions(modules[k]);
    let question_id = (t0 + question_total(modules, k as nat) + i + 1) as i64;
    let keep = |a: AnswerOptionView| a.question_id == question_id;
    let lo = a0 + answer_total(modules, k as nat) + answers_among(asked, i as nat);
    let hi = a0 + answer_total(modules, k as nat) + answers_among(asked, (i + 1) as nat);
    lemma_totals_grow(modules, (k + 1) as nat, modules.len());
    lemma_answers_grow(asked, (i + 1) as nat, asked.len());
    assert forall|x: int| 0 <= x < rows.len() implies (keep(#[trigger] rows[x]) <==> lo <= x
        < hi) by {
        lemma_answer_block(rows, t0, a0, modules, k, i, x);
    }
    lemma_filter_block(rows, keep, lo, hi);
    let expected = written_answers(
        asked[i].answers,
        t0 + question_total(modules, k as nat) + i + 1,
        lo,
    );
    assert forall|a: int| 0 <= a < expected.len() implies rows.subrange(lo, hi)[a]
        == expected[a] by {
        assert(rows[a0 + answer_total(modules, k as nat) + answers_among(asked, i as nat) + a]
            == answer_row(
            asked[i].answers[a],
            t0 + question_total(modules, k as nat) + i + 1,
            a0 + answer_total(modules, k as nat) + answers_among(asked, i as nat) + a + 1,
        ));
    }
    assert(rows.subrange(lo, hi) =~= expected);
}

/// The questions of the quiz of new module `k` stand together, and no other
/// question names the quiz.
proof fn lemma_question_block(
    rows: Seq<QuestionRowView>,
    q0: int,
    t0: int,
    modules: Seq<CreateModulePayloadView>,
    k: int,
    x: int,
)
    requires
        question_rows_written(rows, q0, t0, modules, modules.len()),
        rows.len() == t0 + question_total(modules, modules.len()),
        0 <= q0,
        0 <= t0,
        q0 + quiz_total(modules, modules.len()) <= i64::MAX,
        0 <= k < modules.len(),
        modules[k].quiz is Some,
        0 <= x < rows.len(),
        forall|y: int| 0 <= y < t0 ==> (#[trigger] rows[y]).quiz_id <= q0,
    ensures
        rows[x].quiz_id == (q0 + quiz_total(modules, k as nat) + 1) as i64 <==> t0
            + question_total(modules, k as nat) <= x < t0 + question_total(
            modules,
            (k + 1) as nat,
        ),
{
    let n = modules.len();
    lemma_totals_grow(modules, (k + 1) as nat, n);
    if x >= t0 {
        let at = lemma_find_question(modules, n, x - t0);
        assert(rows[t0 + question_total(modules, at.0 as nat) + at.1] == question_row(
            quiz_questions(modules[at.0])[at.1],
            q0 + quiz_total(modules, at.0 as nat) + 1,
            t0 + question_total(modules, at.0 as nat) + at.1 + 1,
        ));
        lemma_totals_grow(modules, (at.0 + 1) as nat, n);
        if at.0 < k {
            lemma_totals_grow(modules, (at.0 + 1) as nat, k as nat);
        } else if at.0 > k {
            lemma_totals_grow(modules, (k + 1) as nat, at.0 as nat);
        }
    }
}

/// The questions of a new quiz are the questions of its payload, each with
/// its answer options.
proof fn lemma_questions_read_back(
    questions: Seq<QuestionRowView>,
    answers: Seq<AnswerOptionView>,
    q0: int,
    t0: int,
    a0: int,
    modules: Seq<CreateModulePayloadView>,
    k: int,
)
    requires
        question_rows_written(questions, q0, t0, modules, modules.len()),
        answer_rows_written(answers, t0, a0, modules, modules.len()),
        questions.len() == t0 + question_total(modules, modules.len()),
        answers.len() == a0 + answer_total(modules, modules.len()),
        questions.len() <= i64::MAX,
        forall|x: int| 0 <= x < questions.len() ==> (#[trigger] questions[x]).id == x + 1,
        0 <= q0,
        0 <= t0,
        0 <= a0,
        q0 + quiz_total(modules, modules.len()) <= i64::MAX,
        0 <= k < modules.len(),
        modules[k].quiz is Some,
        forall|y: int| 0 <= y < t0 ==> (#[trigger] questions[y]).quiz_id <= q0,
        forall|y: int| 0 <= y < a0 ==> (#[trigger] answers[y]).question_id <= t0,
    ensures
        questions_of(questions, answers, (q0 + quiz_total(modules, k as nat) + 1) as i64)
            == written_questions(
            quiz_questions(modules[k]),
            q0 + quiz_total(modules, k as nat) + 1,
            t0 + question_total(modules, k as nat),
            a0 + answer_total(modules, k as nat),
        ),
{
    let asked = quiz_questions(modules[k]);
    let quiz_id = (q0 + quiz_total(modules, k as nat) + 1) as i64;
    let built = built_questions(questions, answers);
    let keep = |q: QuestionView| q.quiz_id == quiz_id;
    let lo = t0 + question_total(modules, k as nat);
    let hi = t0 + question_total(modules, (k + 1) as nat);
    lemma_totals_grow(modules, (k + 1) as nat, modules.len());
    assert forall|x: int| 0 <= x < built.len() implies (keep(#[trigger] built[x]) <==> lo <= x
        < hi) by {
        lemma_question_block(questions, q0, t0, modules, k, x);
    }
    lemma_filter_block(built, keep, lo, hi);
    let expected = written_questions(asked, quiz_id as int, lo, a0 + answer_total(modules, k as nat));
    assert forall|i: int| 0 <= i < expected.len() implies built.subrange(lo, hi)[i]
        == expected[i] by {
        assert(questions[t0 + question_total(modules, k as nat) + i] == question_row(
            asked[i],
            q0 + quiz_total(modules, k as nat) + 1,
            t0 + question_total(modules, k as nat) + i + 1,
        ));
        assert(question_is_first(questions, lo + i));
        lemma_answers_read_back(answers, t0, a0, modules, k, i);
    }
    assert(built.subrange(lo, hi) =~= expected);
}

/// The quiz of new module `k`, if it has one, is the only quiz that names
/// the module.
proof fn lemma_quiz_block(
    rows: Seq<QuizRow>,
    m0: int,
    q0: int,
    modules: Seq<CreateModulePayloadView>,
    k: int,
    x: int,
)
    requires
        quiz_rows_written(rows, m0, q0, modules, modules.len()),
        rows.len() == q0 + quiz_total(modules, modules.len()),
        0 <= m0,
        0 <= q0,
        m0 + modules.len() <= i64::MAX,
        0 <= k < modules.len(),
        0 <= x < rows.len(),
        forall|y: int| 0 <= y < q0 ==> (#[trigger] rows[y]).module_id <= m0,
    ensures
        rows[x].module_id == (m0 + k + 1) as i64 <==> q0 + quiz_total(modules, k as nat) <= x < q0
            + quiz_total(modules, (k + 1) as nat),
{
    let n = modules.len();
    lemma_totals_grow(modules, (k + 1) as nat, n);
    if x >= q0 {
        let other = lemma_find_quiz(modules, n, x - q0);
        assert(modules[other].quiz is Some);
        assert(rows[q0 + quiz_total(modules, other as nat)] == (QuizRow {
            id: (q0 + quiz_total(modules, other as nat) + 1) as i64,
            module_id: (m0 + other + 1) as i64,
        }));
        lemma_totals_grow(modules, (other + 1) as nat, n);
        if other < k {
            lemma_totals_grow(modules, (other + 1) as nat, k as nat);
        } else if other > k {
            lemma_totals_grow(modules, (k + 1) as nat, other as nat);
        }
    }
}

/// The quiz of a new module is the quiz of its payload, if it has one.
proof fn lemma_quiz_reads_back(
    b: StoreState,
    course_id: int,
    modules: Seq<CreateModulePayloadView>,
    later: StoreState,
    k: int,
)
    requires
        b.modules_written(course_id, modules, modules.len(), later),
        later.ids_in_order(),
        b.modules.len() + modules.len() <= i64::MAX,
        b.quizzes.len() + quiz_total(modules, modules.len()) <= i64::MAX,
        0 <= k < modules.len(),
        forall|x: int|
            0 <= x < b.quizzes.len() ==> (#[trigger] later.quizzes[x]).module_id
                <= b.modules.len(),
        forall|x: int|
            0 <= x < b.questions.len() ==> (#[trigger] later.questions[x]).quiz_id
                <= b.quizzes.len(),
        forall|x: int|
            0 <= x < b.answers.len() ==> (#[trigger] later.answers[x]).question_id
                <= b.questions.len(),
    ensures
        quiz_of(
            later.quizzes,
            later.questions,
            later.answers,
            (b.modules.len() + k + 1) as i64,
        ) == written_module(b, course_id, modules, k).quiz,
{
    let m0 = b.modules.len() as int;
    let q0 = b.quizzes.len() as int;
    let module_id = (m0 + k + 1) as i64;
    let built = built_quizzes(later.quizzes, later.questions, later.answers);
    let keep = |q: QuizView| q.module_id == module_id;
    let lo = q0 + quiz_total(modules, k as nat);
    let hi = q0 + quiz_total(modules, (k + 1) as nat);
    lemma_totals_grow(modules, (k + 1) as nat, modules.len());
    assert forall|x: int| 0 <= x < built.len() implies (keep(#[trigger] built[x]) <==> lo <= x
        < hi) by {
        lemma_quiz_block(later.quizzes, m0, q0, modules, k, x);
    }
    lemma_filter_block(built, keep, lo, hi);
    if modules[k].quiz is Some {
        assert(later.quizzes[q0 + quiz_total(modules, k as nat)] == (QuizRow {
            id: (q0 + quiz_total(modules, k as nat) + 1) as i64,
            module_id: (m0 + k + 1) as i64,
        }));
        assert(quiz_is_first(later.quizzes, lo));
        lemma_questions_read_back(
            later.questions,
            later.answers,
            q0,
            b.questions.len() as int,
            b.answers.len() as int,
            modules,
            k,
        );
        assert(built.subrange(lo, hi).last() == built[lo]);
    }
}

/// An authored course reads back as it was written: the tree that is
/// assembled from the tables is the tree of the payload, every row with the
/// id that authoring gave it, and nobody enrolled yet.
pub proof fn law_authored_course_reads_back(
    s: StoreState,
    payload: CreateCoursePayloadView,
    later: StoreState,
)
    requires
        s.wf(),
        s.has_room_for(payload),
        s.course_written(payload, later),
        later.ids_in_order(),
    ensures
        later.has_course((s.courses.len() + 1) as i64),
        course_tree(
            later.course_row_of(later.courses[s.courses.len() as int]),
            later.module_rows_of((s.courses.len() + 1) as i64),
            later.lessons,
            later.quizzes,
            later.questions,
            later.answers,
        ) == written_course(s, payload),
{
    let course_id = (s.courses.len() + 1) as int;
    let modules = payload.modules;
    let b = s.with_creator(payload.creator_id).with_course(
        payload.title,
        payload.description,
        payload.creator_id,
    );
    let rows = later.module_rows_of(course_id as i64);
    let tree = course_tree(
        later.course_row_of(later.courses[s.courses.len() as int]),
        rows,
        later.lessons,
        later.quizzes,
        later.questions,
        later.answers,
    );
    assert(clip32(later.enrollments_in(course_id as i64) as int) == 0) by {
        assert forall|i: int| 0 <= i < s.enrollments.len() implies !(about(course_id as i64))(
            #[trigger] s.enrollments[i],
        ) by {
            assert(s.has_course(s.enrollments[i].1));
        }
        lemma_filter_block(later.enrollments, about(course_id as i64), 0, 0);
    }
    assert(clip32(later.completions_of(course_id as i64) as int) == 0) by {
        assert forall|i: int| 0 <= i < s.course_completions.len() implies !(about(
            course_id as i64,
        ))(#[trigger] s.course_completions[i]) by {
            let fact = s.course_completions[i];
            assert(s.course_completions.contains((fact.0, fact.1)));
            assert(children_complete(
                course_ids(s.modules),
                s.module_completions,
                fact.0,
                fact.1,
            ));
            let module_id = choose|module_id: i64|
                child_of(course_ids(s.modules), module_id, fact.1);
            assert(s.has_course(s.modules[module_id - 1].course_id));
        }
        lemma_filter_block(later.course_completions, about(course_id as i64), 0, 0);
    }
    assert(rows == Seq::new(
        modules.len(),
        |k: int| module_row(modules[k], course_id, s.modules.len() + k + 1),
    )) by {
        assert forall|i: int| 0 <= i < s.modules.len() implies (
        #[trigger] later.modules[i]).course_id < course_id by {
            assert(later.modules[i] == s.modules[i]);
            assert(s.has_course(s.modules[i].course_id));
        }
        lemma_modules_read_back(later.modules, course_id, s.modules.len() as int, modules);
    }
    assert forall|k: int| 0 <= k < modules.len() implies #[trigger] tree.modules[k]
        == written_module(s, course_id, modules, k) by {
        lemma_module_reads_back(s, b, course_id, modules, later, k);
        assert(module_is_first(rows, k));
    }
    assert(tree.modules =~= written_course(s, payload).modules);
}

/// The lessons and the quiz of a new module are those of its payload.
proof fn lemma_module_reads_back(
    s: StoreState,
    b: StoreState,
    course_id: int,
    modules: Seq<CreateModulePayloadView>,
    later: StoreState,
    k: int,
)
    requires
        s.tree_ok(),
        b.modules == s.modules,
        b.lessons == s.lessons,
        b.quizzes == s.quizzes,
        b.questions == s.questions,
        b.answers == s.answers,
        b.modules_written(course_id, modules, modules.len(), later),
        later.ids_in_order(),
        s.modules.len() + modules.len() <= i64::MAX,
        s.quizzes.len() + quiz_total(modules, modules.len()) <= i64::MAX,
        0 <= k < modules.len(),
    ensures
        lessons_of(later.lessons, (s.modules.len() + k + 1) as i64) == written_module(
            s,
            course_id,
            modules,
            k,
        ).lessons,
        quiz_of(
            later.quizzes,
            later.questions,
            later.answers,
            (s.modules.len() + k + 1) as i64,
        ) == written_module(s, course_id, modules, k).quiz,
{
    assert forall|i: int| 0 <= i < s.lessons.len() implies (
    #[trigger] later.lessons[i]).module_id <= s.modules.len() by {
        assert(later.lessons[i] == s.lessons[i]);
        assert(s.has_module(s.lessons[i].module_id));
    }
    assert forall|i: int| 0 <= i < s.quizzes.len() implies (
    #[trigger] later.quizzes[i]).module_id <= s.modules.len() by {
        assert(later.quizzes[i] == s.quizzes[i]);
        assert(s.has_module(s.quizzes[i].module_id));
    }
    assert forall|i: int| 0 <= i < s.questions.len() implies (
    #[trigger] later.questions[i]).quiz_id <= s.quizzes.len() by {
        assert(later.questions[i] == s.questions[i]);
        assert(s.has_quiz(s.questions[i].quiz_id));
    }
    assert forall|i: int| 0 <= i < s.answers.len() implies (
    #[trigger] later.answers[i]).question_id <= s.questions.len() by {
        assert(later.answers[i] == s.answers[i]);
        assert(s.has_question(s.answers[i].question_id));
    }
    lemma_lessons_read_back(
        later.lessons,
        s.modules.len() as int,
        s.lessons.len() as int,
        modules,
        k,
    );
    lemma_quiz_reads_back(b, course_id, modules, later, k);
    assert(written_module(b, course_id, modules, k) == written_module(s, course_id, modules, k));
}

} // verus!

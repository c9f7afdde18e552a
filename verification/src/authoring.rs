//! What authoring relies on: the totals of a payload only grow from module
//! to module, a payload without a position out of range has none, and every
//! single row keeps the tree sound.
use vstd::prelude::*;
use crate::derivation::lemma_insert_unique;
use crate::models::course::{
    CreateAnswerOptionPayloadView, CreateCoursePayloadView, CreateLessonPayloadView,
    CreateModulePayloadView, CreateQuestionPayloadView,
};
use crate::rules::position_fits;
use crate::models::course::{AnswerOptionView, LessonView, ModuleRowView, QuestionRowView, QuizRow};
use crate::state::{
    answer_row, answer_rows_written, answer_total, answers_among, first_bad_lesson_position,
    first_bad_module_position, first_bad_position, lesson_row, lesson_rows_written, lesson_total,
    module_row, module_rows_written, question_row, question_rows_written, question_total,
    quiz_questions, quiz_rows_written, quiz_total, StoreState,
};

verus! {

/// Every position of the lessons lies in the 32-bit signed range.
pub open spec fn lesson_positions_fit(lessons: Seq<CreateLessonPayloadView>) -> bool {
    forall|j: int| 0 <= j < lessons.len() ==> position_fits((#[trigger] lessons[j]).position)
}

/// No lesson from `from` on has a position out of range exactly when the
/// search for the first such position finds none.
pub proof fn lemma_lesson_positions(lessons: Seq<CreateLessonPayloadView>, from: int)
    requires
        0 <= from <= lessons.len(),
    ensures
        first_bad_lesson_position(lessons, from) is None <==> forall|j: int|
            from <= j < lessons.len() ==> position_fits((#[trigger] lessons[j]).position),
        first_bad_lesson_position(lessons, from) is Some ==> !position_fits(
            first_bad_lesson_position(lessons, from)->0,
        ),
    decreases lessons.len() - from,
{
    if from < lessons.len() {
        lemma_lesson_positions(lessons, from + 1);
        if position_fits(lessons[from].position) {
            if first_bad_lesson_position(lessons, from + 1) is None {
                assert forall|j: int| from <= j < lessons.len() implies position_fits(
                    (#[trigger] lessons[j]).position,
                ) by {
                    if j > from {
                    }
                }
            }
        }
    }
}

/// No module from `from` on has a position out of range, its own or a
/// lesson's, exactly when the search for the first such position finds none.
pub proof fn lemma_positions(modules: Seq<CreateModulePayloadView>, from: int)
    requires
        0 <= from <= modules.len(),
    ensures
        first_bad_position(modules, from) is None <==> forall|k: int|
            from <= k < modules.len() ==> position_fits((#[trigger] modules[k]).position)
                && lesson_positions_fit(modules[k].lessons),
        first_bad_position(modules, from) is Some ==> !position_fits(
            first_bad_position(modules, from)->0,
        ),
    decreases modules.len() - from,
{
    if from < modules.len() {
        lemma_positions(modules, from + 1);
        lemma_lesson_positions(modules[from].lessons, 0);
        if first_bad_module_position(modules[from]) is None {
            if first_bad_position(modules, from + 1) is None {
                assert forall|k: int| from <= k < modules.len() implies position_fits(
                    (#[trigger] modules[k]).position,
                ) && lesson_positions_fit(modules[k].lessons) by {
                    if k > from {
                    }
                }
            }
        }
    }
}

/// The totals over the first `a` modules are at most those over the first
/// `b`, for `a` up to `b`.
pub proof fn lemma_totals_grow(modules: Seq<CreateModulePayloadView>, a: nat, b: nat)
    requires
        a <= b,
    ensures
        lesson_total(modules, a) <= lesson_total(modules, b),
        quiz_total(modules, a) <= quiz_total(modules, b),
        question_total(modules, a) <= question_total(modules, b),
        answer_total(modules, a) <= answer_total(modules, b),
    decreases b,
{
    if a < b {
        lemma_totals_grow(modules, a, (b - 1) as nat);
    }
}

/// The answer options among the first `a` questions are at most those among
/// the first `b`, for `a` up to `b`.
pub proof fn lemma_answers_grow(questions: Seq<CreateQuestionPayloadView>, a: nat, b: nat)
    requires
        a <= b,
    ensures
        answers_among(questions, a) <= answers_among(questions, b),
    decreases b,
{
    if a < b {
        lemma_answers_grow(questions, a, (b - 1) as nat);
    }
}

/// A creator becoming known keeps a grown state grown and its tree sound.
pub proof fn lemma_creator_added(origin: StoreState, s: StoreState, creator: Seq<char>)
    requires
        origin.grown_into(s),
        s.tree_ok(),
    ensures
        origin.grown_into(s.with_creator(creator)),
        s.with_creator(creator).tree_ok(),
        s.with_creator(creator).creators.contains(creator),
{
    lemma_insert_unique(s.creators, creator);
}

/// A new course of a known creator keeps a grown state grown and its tree
/// sound.
pub proof fn lemma_course_added(
    origin: StoreState,
    s: StoreState,
    title: Seq<char>,
    description: Seq<char>,
    creator: Seq<char>,
)
    requires
        origin.grown_into(s),
        s.tree_ok(),
        s.creators.contains(creator),
        s.courses.len() < i64::MAX,
    ensures
        origin.grown_into(s.with_course(title, description, creator)),
        s.with_course(title, description, creator).tree_ok(),
{
}

/// A new module under a new course keeps a grown state grown and its tree
/// sound.
pub proof fn lemma_module_added(
    origin: StoreState,
    s: StoreState,
    course_id: i64,
    title: Seq<char>,
    position: i64,
)
    requires
        origin.grown_into(s),
        s.tree_ok(),
        s.has_course(course_id),
        course_id > origin.courses.len(),
        s.modules.len() < i64::MAX,
    ensures
        origin.grown_into(s.with_module(course_id, title, position)),
        s.with_module(course_id, title, position).tree_ok(),
{
}

/// A new lesson under a new module keeps a grown state grown and its tree
/// sound.
pub proof fn lemma_lesson_added(
    origin: StoreState,
    s: StoreState,
    module_id: i64,
    lesson: CreateLessonPayloadView,
)
    requires
        origin.grown_into(s),
        s.tree_ok(),
        s.has_module(module_id),
        module_id > origin.modules.len(),
        s.lessons.len() < i64::MAX,
    ensures
        origin.grown_into(s.with_lesson(module_id, lesson)),
        s.with_lesson(module_id, lesson).tree_ok(),
{
}

/// A quiz for a module that has none keeps a grown state grown and its tree
/// sound.
pub proof fn lemma_quiz_added(origin: StoreState, s: StoreState, module_id: i64)
    requires
        origin.grown_into(s),
        s.tree_ok(),
        s.has_module(module_id),
        forall|i: int| 0 <= i < s.quizzes.len() ==> (#[trigger] s.quizzes[i]).module_id != module_id,
        s.quizzes.len() < i64::MAX,
    ensures
        origin.grown_into(s.with_quiz(module_id)),
        s.with_quiz(module_id).tree_ok(),
{
}

/// A new question under a quiz keeps a grown state grown and its tree sound.
pub proof fn lemma_question_added(
    origin: StoreState,
    s: StoreState,
    quiz_id: i64,
    question_text: Seq<char>,
)
    requires
        origin.grown_into(s),
        s.tree_ok(),
        s.has_quiz(quiz_id),
        s.questions.len() < i64::MAX,
    ensures
        origin.grown_into(s.with_question(quiz_id, question_text)),
        s.with_question(quiz_id, question_text).tree_ok(),
{
}

/// A new answer option under a question keeps a grown state grown and its
/// tree sound.
pub proof fn lemma_answer_added(
    origin: StoreState,
    s: StoreState,
    question_id: i64,
    answer: CreateAnswerOptionPayloadView,
)
    requires
        origin.grown_into(s),
        s.tree_ok(),
        s.has_question(question_id),
        s.answers.len() < i64::MAX,
    ensures
        origin.grown_into(s.with_answer(question_id, answer)),
        s.with_answer(question_id, answer).tree_ok(),
{
}

/// The lessons written under a module stand behind the lessons that were
/// there, in order, and nothing else changes.
pub proof fn lemma_lessons_written(
    s: StoreState,
    module_id: i64,
    lessons: Seq<CreateLessonPayloadView>,
    n: nat,
)
    requires
        n <= lessons.len(),
    ensures
        ({
            let after = s.author_lessons(module_id, lessons, n);
            &&& after == (StoreState { lessons: after.lessons, ..s })
            &&& after.lessons.len() == s.lessons.len() + n
            &&& forall|i: int|
                0 <= i < s.lessons.len() ==> #[trigger] after.lessons[i] == s.lessons[i]
            &&& forall|j: int|
                0 <= j < n ==> after.lessons[s.lessons.len() + j] == lesson_row(
                    #[trigger] lessons[j],
                    module_id as int,
                    s.lessons.len() + j + 1,
                )
        }),
    decreases n,
{
    if n > 0 {
        lemma_lessons_written(s, module_id, lessons, (n - 1) as nat);
    }
}

/// The answer options written under a question stand behind the answer
/// options that were there, in order, and nothing else changes.
pub proof fn lemma_answers_written(
    s: StoreState,
    question_id: i64,
    answers: Seq<CreateAnswerOptionPayloadView>,
    n: nat,
)
    requires
        n <= answers.len(),
    ensures
        ({
            let after = s.author_answers(question_id, answers, n);
            &&& after == (StoreState { answers: after.answers, ..s })
            &&& after.answers.len() == s.answers.len() + n
            &&& forall|i: int|
                0 <= i < s.answers.len() ==> #[trigger] after.answers[i] == s.answers[i]
            &&& forall|a: int|
                0 <= a < n ==> after.answers[s.answers.len() + a] == answer_row(
                    #[trigger] answers[a],
                    question_id as int,
                    s.answers.len() + a + 1,
                )
        }),
    decreases n,
{
    if n > 0 {
        lemma_answers_written(s, question_id, answers, (n - 1) as nat);
    }
}

/// The questions written under a quiz stand behind the questions that were
/// there, in order, the answer options of each behind those of the
/// questions before it, and nothing else changes.
pub proof fn lemma_questions_written(
    s: StoreState,
    quiz_id: i64,
    questions: Seq<CreateQuestionPayloadView>,
    n: nat,
)
    requires
        n <= questions.len(),
        s.questions.len() + n <= i64::MAX,
    ensures
        ({
            let after = s.author_questions(quiz_id, questions, n);
            let t0 = s.questions.len() as int;
            let a0 = s.answers.len() as int;
            &&& after == (StoreState { questions: after.questions, answers: after.answers, ..s })
            &&& after.questions.len() == t0 + n
            &&& after.answers.len() == a0 + answers_among(questions, n)
            &&& forall|i: int|
                0 <= i < t0 ==> #[trigger] after.questions[i] == s.questions[i]
            &&& forall|i: int| 0 <= i < a0 ==> #[trigger] after.answers[i] == s.answers[i]
            &&& forall|i: int|
                0 <= i < n ==> after.questions[t0 + i] == question_row(
                    #[trigger] questions[i],
                    quiz_id as int,
                    t0 + i + 1,
                )
            &&& forall|i: int, a: int|
                0 <= i < n && 0 <= a < questions[i].answers.len() ==> after.answers[a0
                    + answers_among(questions, i as nat) + a] == answer_row(
                    #[trigger] questions[i].answers[a],
                    t0 + i + 1,
                    a0 + answers_among(questions, i as nat) + a + 1,
                )
        }),
    decreases n,
{
    if n > 0 {
        let m = (n - 1) as nat;
        let before = s.author_questions(quiz_id, questions, m);
        let asked = before.with_question(quiz_id, questions[n - 1].question_text);
        let after = s.author_questions(quiz_id, questions, n);
        lemma_questions_written(s, quiz_id, questions, m);
        lemma_answers_written(
            asked,
            (before.questions.len() + 1) as i64,
            questions[n - 1].answers,
            questions[n - 1].answers.len(),
        );
        let t0 = s.questions.len() as int;
        let a0 = s.answers.len() as int;
        assert forall|i: int, a: int|
            0 <= i < n && 0 <= a < questions[i].answers.len() implies after.answers[a0
            + answers_among(questions, i as nat) + a] == answer_row(
            #[trigger] questions[i].answers[a],
            t0 + i + 1,
            a0 + answers_among(questions, i as nat) + a + 1,
        ) by {
            if i < m {
                lemma_answers_grow(questions, (i + 1) as nat, m);
                assert(after.answers[a0 + answers_among(questions, i as nat) + a]
                    == before.answers[a0 + answers_among(questions, i as nat) + a]);
            }
        }
    }
}

/// One module more: its row stands behind the rows of the modules before.
proof fn lemma_module_rows_step(
    before: Seq<ModuleRowView>,
    after: Seq<ModuleRowView>,
    course_id: int,
    m0: int,
    modules: Seq<CreateModulePayloadView>,
    n: nat,
)
    requires
        0 < n <= modules.len(),
        module_rows_written(before, course_id, m0, modules, (n - 1) as nat),
        before.len() == m0 + n - 1,
        m0 >= 0,
        after == before.push(module_row(modules[n - 1], course_id, m0 + n)),
    ensures
        module_rows_written(after, course_id, m0, modules, n),
{
    assert forall|k: int| 0 <= k < n implies after[m0 + k] == module_row(
        #[trigger] modules[k],
        course_id,
        m0 + k + 1,
    ) by {
        if k < n - 1 {
            assert(after[m0 + k] == before[m0 + k]);
        }
    }
}

/// One module more: its lessons stand behind the lessons of the modules
/// before.
proof fn lemma_lesson_rows_step(
    before: Seq<LessonView>,
    after: Seq<LessonView>,
    m0: int,
    l0: int,
    modules: Seq<CreateModulePayloadView>,
    n: nat,
)
    requires
        0 < n <= modules.len(),
        lesson_rows_written(before, m0, l0, modules, (n - 1) as nat),
        before.len() == l0 + lesson_total(modules, (n - 1) as nat),
        l0 >= 0,
        after.len() == before.len() + modules[n - 1].lessons.len(),
        forall|i: int| 0 <= i < before.len() ==> #[trigger] after[i] == before[i],
        forall|j: int|
            0 <= j < modules[n - 1].lessons.len() ==> after[before.len() + j] == lesson_row(
                #[trigger] modules[n - 1].lessons[j],
                m0 + n,
                before.len() + j + 1,
            ),
    ensures
        lesson_rows_written(after, m0, l0, modules, n),
{
    assert forall|k: int, j: int|
        0 <= k < n && 0 <= j < modules[k].lessons.len() implies after[l0 + lesson_total(
        modules,
        k as nat,
    ) + j] == lesson_row(
        #[trigger] modules[k].lessons[j],
        m0 + k + 1,
        l0 + lesson_total(modules, k as nat) + j + 1,
    ) by {
        if k < n - 1 {
            lemma_totals_grow(modules, (k + 1) as nat, (n - 1) as nat);
            let at = l0 + lesson_total(modules, k as nat) + j;
            assert(after[at] == before[at]);
        }
    }
}

/// One module more: its quiz, if it has one, stands behind the quizzes of
/// the modules before.
proof fn lemma_quiz_rows_step(
    before: Seq<QuizRow>,
    after: Seq<QuizRow>,
    m0: int,
    q0: int,
    modules: Seq<CreateModulePayloadView>,
    n: nat,
)
    requires
        0 < n <= modules.len(),
        quiz_rows_written(before, m0, q0, modules, (n - 1) as nat),
        before.len() == q0 + quiz_total(modules, (n - 1) as nat),
        q0 >= 0,
        after == if modules[n - 1].quiz is Some {
            before.push(QuizRow { id: (before.len() + 1) as i64, module_id: (m0 + n) as i64 })
        } else {
            before
        },
    ensures
        quiz_rows_written(after, m0, q0, modules, n),
{
    assert forall|k: int| 0 <= k < n && (#[trigger] modules[k]).quiz is Some implies after[q0
        + quiz_total(modules, k as nat)] == (QuizRow {
        id: (q0 + quiz_total(modules, k as nat) + 1) as i64,
        module_id: (m0 + k + 1) as i64,
    }) by {
        if k < n - 1 {
            lemma_totals_grow(modules, (k + 1) as nat, (n - 1) as nat);
            let at = q0 + quiz_total(modules, k as nat);
            assert(after[at] == before[at]);
        }
    }
}

/// One module more: the questions of its quiz stand behind the questions of
/// the modules before.
proof fn lemma_question_rows_step(
    before: Seq<QuestionRowView>,
    after: Seq<QuestionRowView>,
    q0: int,
    t0: int,
    modules: Seq<CreateModulePayloadView>,
    n: nat,
)
    requires
        0 < n <= modules.len(),
        question_rows_written(before, q0, t0, modules, (n - 1) as nat),
        before.len() == t0 + question_total(modules, (n - 1) as nat),
        t0 >= 0,
        after.len() == before.len() + quiz_questions(modules[n - 1]).len(),
        forall|i: int| 0 <= i < before.len() ==> #[trigger] after[i] == before[i],
        forall|i: int|
            0 <= i < quiz_questions(modules[n - 1]).len() ==> after[before.len() + i]
                == question_row(
                #[trigger] quiz_questions(modules[n - 1])[i],
                q0 + quiz_total(modules, (n - 1) as nat) + 1,
                before.len() + i + 1,
            ),
    ensures
        question_rows_written(after, q0, t0, modules, n),
{
    assert forall|k: int, i: int|
        0 <= k < n && 0 <= i < quiz_questions(modules[k]).len() implies after[t0 + question_total(
        modules,
        k as nat,
    ) + i] == question_row(
        #[trigger] quiz_questions(modules[k])[i],
        q0 + quiz_total(modules, k as nat) + 1,
        t0 + question_total(modules, k as nat) + i + 1,
    ) by {
        if k < n - 1 {
            lemma_totals_grow(modules, (k + 1) as nat, (n - 1) as nat);
            let at = t0 + question_total(modules, k as nat) + i;
            assert(after[at] == before[at]);
        }
    }
}

/// One module more: the answer options of its quiz stand behind the answer
/// options of the modules before.
proof fn lemma_answer_rows_step(
    before: Seq<AnswerOptionView>,
    after: Seq<AnswerOptionView>,
    t0: int,
    a0: int,
    modules: Seq<CreateModulePayloadView>,
    n: nat,
)
    requires
        0 < n <= modules.len(),
        answer_rows_written(before, t0, a0, modules, (n - 1) as nat),
        before.len() == a0 + answer_total(modules, (n - 1) as nat),
        a0 >= 0,
        after.len() == before.len() + answers_among(
            quiz_questions(modules[n - 1]),
            quiz_questions(modules[n - 1]).len(),
        ),
        forall|i: int| 0 <= i < before.len() ==> #[trigger] after[i] == before[i],
        forall|i: int, a: int|
            0 <= i < quiz_questions(modules[n - 1]).len() && 0 <= a < quiz_questions(
                modules[n - 1],
            )[i].answers.len() ==> after[before.len() + answers_among(
                quiz_questions(modules[n - 1]),
                i as nat,
            ) + a] == answer_row(
                #[trigger] quiz_questions(modules[n - 1])[i].answers[a],
                t0 + question_total(modules, (n - 1) as nat) + i + 1,
                before.len() + answers_among(quiz_questions(modules[n - 1]), i as nat) + a + 1,
            ),
    ensures
        answer_rows_written(after, t0, a0, modules, n),
{
    assert forall|k: int, i: int, a: int|
        0 <= k < n && 0 <= i < quiz_questions(modules[k]).len() && 0 <= a < quiz_questions(
            modules[k],
        )[i].answers.len() implies after[a0 + answer_total(modules, k as nat) + answers_among(
        quiz_questions(modules[k]),
        i as nat,
    ) + a] == answer_row(
        #[trigger] quiz_questions(modules[k])[i].answers[a],
        t0 + question_total(modules, k as nat) + i + 1,
        a0 + answer_total(modules, k as nat) + answers_among(
            quiz_questions(modules[k]),
            i as nat,
        ) + a + 1,
    ) by {
        let asked = quiz_questions(modules[k]);
        lemma_answers_grow(asked, (i + 1) as nat, asked.len());
        if k < n - 1 {
            lemma_totals_grow(modules, (k + 1) as nat, (n - 1) as nat);
            let at = a0 + answer_total(modules, k as nat) + answers_among(asked, i as nat) + a;
            assert(after[at] == before[at]);
        }
    }
}

/// What authoring one module does to each table: the module is the last of
/// the modules, and its lessons, its quiz, the questions of the quiz and
/// their answer options stand behind the rows that were there.
pub proof fn lemma_module_written(s: StoreState, course_id: i64, module: CreateModulePayloadView)
    requires
        s.modules.len() + 1 <= i64::MAX,
        module.quiz is Some ==> s.quizzes.len() + 1 <= i64::MAX,
        s.questions.len() + quiz_questions(module).len() <= i64::MAX,
    ensures
        ({
            let after = s.author_module(course_id, module);
            let asked = quiz_questions(module);
            let m0 = s.modules.len() as int;
            let l0 = s.lessons.len() as int;
            let q0 = s.quizzes.len() as int;
            let t0 = s.questions.len() as int;
            let a0 = s.answers.len() as int;
            &&& after == (StoreState {
                modules: after.modules,
                lessons: after.lessons,
                quizzes: after.quizzes,
                questions: after.questions,
                answers: after.answers,
                ..s
            })
            &&& s.rows_kept_in(after)
            &&& after.modules == s.modules.push(module_row(module, course_id as int, m0 + 1))
            &&& after.lessons.len() == l0 + module.lessons.len()
            &&& forall|j: int|
                0 <= j < module.lessons.len() ==> after.lessons[l0 + j] == lesson_row(
                    #[trigger] module.lessons[j],
                    m0 + 1,
                    l0 + j + 1,
                )
            &&& after.quizzes == if module.quiz is Some {
                s.quizzes.push(QuizRow { id: (q0 + 1) as i64, module_id: (m0 + 1) as i64 })
            } else {
                s.quizzes
            }
            &&& after.questions.len() == t0 + asked.len()
            &&& forall|i: int|
                0 <= i < asked.len() ==> after.questions[t0 + i] == question_row(
                    #[trigger] asked[i],
                    q0 + 1,
                    t0 + i + 1,
                )
            &&& after.answers.len() == a0 + answers_among(asked, asked.len())
            &&& forall|i: int, a: int|
                0 <= i < asked.len() && 0 <= a < asked[i].answers.len() ==> after.answers[a0
                    + answers_among(asked, i as nat) + a] == answer_row(
                    #[trigger] asked[i].answers[a],
                    t0 + i + 1,
                    a0 + answers_among(asked, i as nat) + a + 1,
                )
        }),
{
    let module_id = (s.modules.len() + 1) as i64;
    let named = s.with_module(course_id, module.title, module.position);
    let taught = named.author_lessons(module_id, module.lessons, module.lessons.len());
    let asked = quiz_questions(module);
    lemma_lessons_written(named, module_id, module.lessons, module.lessons.len());
    if module.quiz is Some {
        lemma_questions_written(
            taught.with_quiz(module_id),
            (taught.quizzes.len() + 1) as i64,
            asked,
            asked.len(),
        );
    }
}

/// The first `n` modules of a payload, authored under a course, are written
/// as `modules_written` says: every row where its id puts it.
pub proof fn lemma_modules_written(
    s: StoreState,
    course_id: i64,
    modules: Seq<CreateModulePayloadView>,
    n: nat,
)
    requires
        n <= modules.len(),
        s.modules.len() + n <= i64::MAX,
        s.quizzes.len() + quiz_total(modules, n) <= i64::MAX,
        s.questions.len() + question_total(modules, n) <= i64::MAX,
    ensures
        s.modules_written(course_id as int, modules, n, s.author_modules(course_id, modules, n)),
    decreases n,
{
    if n > 0 {
        let m = (n - 1) as nat;
        let before = s.author_modules(course_id, modules, m);
        let after = s.author_modules(course_id, modules, n);
        let m0 = s.modules.len() as int;
        let l0 = s.lessons.len() as int;
        let q0 = s.quizzes.len() as int;
        let t0 = s.questions.len() as int;
        let a0 = s.answers.len() as int;
        lemma_totals_grow(modules, m, n);
        lemma_modules_written(s, course_id, modules, m);
        lemma_module_written(before, course_id, modules[n - 1]);
        lemma_module_rows_step(before.modules, after.modules, course_id as int, m0, modules, n);
        lemma_lesson_rows_step(before.lessons, after.lessons, m0, l0, modules, n);
        lemma_quiz_rows_step(before.quizzes, after.quizzes, m0, q0, modules, n);
        lemma_question_rows_step(before.questions, after.questions, q0, t0, modules, n);
        lemma_answer_rows_step(before.answers, after.answers, t0, a0, modules, n);
    }
}

/// An authored course is written as `course_written` says.
pub proof fn law_authored_course_is_written(s: StoreState, payload: CreateCoursePayloadView)
    requires
        s.has_room_for(payload),
    ensures
        s.course_written(payload, s.author_course(payload)),
{
    let known = s.with_creator(payload.creator_id).with_course(
        payload.title,
        payload.description,
        payload.creator_id,
    );
    lemma_modules_written(
        known,
        (s.courses.len() + 1) as i64,
        payload.modules,
        payload.modules.len(),
    );
}

} // verus!

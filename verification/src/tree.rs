//! Assembling a course tree from the flat rows it is stored as.
//!
//! Children are attached to the first parent row that carries their parent
//! id; a later row with the same id gets none. When several quiz rows name
//! one module, the last of them is that module's quiz.
use vstd::prelude::*;
use crate::models::course::{
    views, AnswerOption, AnswerOptionView, Course, CourseRow, CourseRowView, CourseView, Lesson,
    LessonView, Module, ModuleRow, ModuleRowView, ModuleView, Question, QuestionRow,
    QuestionRowView, QuestionView, Quiz, QuizRow, QuizView,
};

verus! {

/// The answer options of one question, in row order.
pub open spec fn answers_of(answers: Seq<AnswerOptionView>, question_id: i64) -> Seq<
    AnswerOptionView,
> {
    answers.filter(|a: AnswerOptionView| a.question_id == question_id)
}

/// The lessons of one module, in row order.
pub open spec fn lessons_of(lessons: Seq<LessonView>, module_id: i64) -> Seq<LessonView> {
    lessons.filter(|l: LessonView| l.module_id == module_id)
}

/// No question row before row `k` has the id of row `k`.
pub open spec fn question_is_first(questions: Seq<QuestionRowView>, k: int) -> bool {
    forall|j: int| 0 <= j < k ==> questions[j].id != questions[k].id
}

/// No quiz row before row `k` has the id of row `k`.
pub open spec fn quiz_is_first(quizzes: Seq<QuizRow>, k: int) -> bool {
    forall|j: int| 0 <= j < k ==> quizzes[j].id != quizzes[k].id
}

/// No module row before row `k` has the id of row `k`.
pub open spec fn module_is_first(modules: Seq<ModuleRowView>, k: int) -> bool {
    forall|j: int| 0 <= j < k ==> modules[j].id != modules[k].id
}

/// The question built from question row `k`.
pub open spec fn built_question(
    questions: Seq<QuestionRowView>,
    answers: Seq<AnswerOptionView>,
    k: int,
) -> QuestionView {
    QuestionView {
        id: questions[k].id,
        quiz_id: questions[k].quiz_id,
        question_text: questions[k].question_text,
        answers: if question_is_first(questions, k) {
            answers_of(answers, questions[k].id)
        } else {
            Seq::empty()
        },
    }
}

/// Every question row turned into a question, in row order.
pub open spec fn built_questions(
    questions: Seq<QuestionRowView>,
    answers: Seq<AnswerOptionView>,
) -> Seq<QuestionView> {
    Seq::new(questions.len(), |k: int| built_question(questions, answers, k))
}

/// The questions of one quiz, in row order.
pub open spec fn questions_of(
    questions: Seq<QuestionRowView>,
    answers: Seq<AnswerOptionView>,
    quiz_id: i64,
) -> Seq<QuestionView> {
    built_questions(questions, answers).filter(|q: QuestionView| q.quiz_id == quiz_id)
}

/// The quiz built from quiz row `k`.
pub open spec fn built_quiz(
    quizzes: Seq<QuizRow>,
    questions: Seq<QuestionRowView>,
    answers: Seq<AnswerOptionView>,
    k: int,
) -> QuizView {
    QuizView {
        id: quizzes[k].id,
        module_id: quizzes[k].module_id,
        questions: if quiz_is_first(quizzes, k) {
            questions_of(questions, answers, quizzes[k].id)
        } else {
            Seq::empty()
        },
    }
}

/// Every quiz row turned into a quiz, in row order.
pub open spec fn built_quizzes(
    quizzes: Seq<QuizRow>,
    questions: Seq<QuestionRowView>,
    answers: Seq<AnswerOptionView>,
) -> Seq<QuizView> {
    Seq::new(quizzes.len(), |k: int| built_quiz(quizzes, questions, answers, k))
}

/// The quiz of one module: the last quiz row that names it, if any does.
pub open spec fn quiz_of(
    quizzes: Seq<QuizRow>,
    questions: Seq<QuestionRowView>,
    answers: Seq<AnswerOptionView>,
    module_id: i64,
) -> Option<QuizView> {
    let named = built_quizzes(quizzes, questions, answers).filter(
        |q: QuizView| q.module_id == module_id,
    );
    if named.len() > 0 {
        Some(named.last())
    } else {
        None
    }
}

/// The module built from module row `k`.
pub open spec fn built_module(
    modules: Seq<ModuleRowView>,
    lessons: Seq<LessonView>,
    quizzes: Seq<QuizRow>,
    questions: Seq<QuestionRowView>,
    answers: Seq<AnswerOptionView>,
    k: int,
) -> ModuleView {
    ModuleView {
        id: modules[k].id,
        course_id: modules[k].course_id,
        title: modules[k].title,
        position: modules[k].position,
        lessons: if module_is_first(modules, k) {
            lessons_of(lessons, modules[k].id)
        } else {
            Seq::empty()
        },
        quiz: if module_is_first(modules, k) {
            quiz_of(quizzes, questions, answers, modules[k].id)
        } else {
            None
        },
    }
}

/// The course tree that the rows describe: the course row's own columns and
/// one module per module row, in row order.
pub open spec fn course_tree(
    course: CourseRowView,
    modules: Seq<ModuleRowView>,
    lessons: Seq<LessonView>,
    quizzes: Seq<QuizRow>,
    questions: Seq<QuestionRowView>,
    answers: Seq<AnswerOptionView>,
) -> CourseView {
    CourseView {
        id: course.id,
        title: course.title,
        description: course.description,
        creator_id: course.creator_id,
        modules: Seq::new(
            modules.len(),
            |k: int| built_module(modules, lessons, quizzes, questions, answers, k),
        ),
        num_learners: course.num_learners,
        num_completed: course.num_completed,
    }
}

fn collect_answers(answer_rows: &Vec<AnswerOption>, question_id: i64) -> (out: Vec<AnswerOption>)
    ensures
        views(out@) == answers_of(views(answer_rows@), question_id),
{
    let mut out: Vec<AnswerOption> = Vec::new();
    let mut i: usize = 0;
    proof {
        assert(views(answer_rows@).take(0) =~= Seq::empty());
        assert(views(out@) =~= Seq::empty());
    }
    while i < answer_rows.len()
        invariant
            i <= answer_rows.len(),
            views(out@) == answers_of(views(answer_rows@).take(i as int), question_id),
        decreases answer_rows.len() - i,
    {
        let ghost before = views(out@);
        let ghost rows = views(answer_rows@);
        proof {
            assert(rows.take(i + 1) =~= rows.take(i as int).push(rows[i as int]));
            rows.take(i as int).lemma_filter_push(
                rows[i as int],
                |a: AnswerOptionView| a.question_id == question_id,
            );
        }
        if answer_rows[i].question_id == question_id {
            out.push(answer_rows[i].clone());
            proof {
                assert(views(out@) =~= before.push(rows[i as int]));
            }
        }
        i += 1;
    }
    proof {
        assert(views(answer_rows@).take(i as int) =~= views(answer_rows@));
    }
    out
}

fn collect_lessons(lesson_rows: &Vec<Lesson>, module_id: i64) -> (out: Vec<Lesson>)
    ensures
        views(out@) == lessons_of(views(lesson_rows@), module_id),
{
    let mut out: Vec<Lesson> = Vec::new();
    let mut i: usize = 0;
    proof {
        assert(views(lesson_rows@).take(0) =~= Seq::empty());
        assert(views(out@) =~= Seq::empty());
    }
    while i < lesson_rows.len()
        invariant
            i <= lesson_rows.len(),
            views(out@) == lessons_of(views(lesson_rows@).take(i as int), module_id),
        decreases lesson_rows.len() - i,
    {
        let ghost before = views(out@);
        let ghost rows = views(lesson_rows@);
        proof {
            assert(rows.take(i + 1) =~= rows.take(i as int).push(rows[i as int]));
            rows.take(i as int).lemma_filter_push(
                rows[i as int],
                |l: LessonView| l.module_id == module_id,
            );
        }
        if lesson_rows[i].module_id == module_id {
            out.push(lesson_rows[i].clone());
            proof {
                assert(views(out@) =~= before.push(rows[i as int]));
            }
        }
        i += 1;
    }
    proof {
        assert(views(lesson_rows@).take(i as int) =~= views(lesson_rows@));
    }
    out
}

fn question_row_is_first(question_rows: &Vec<QuestionRow>, k: usize) -> (first: bool)
    requires
        k < question_rows.len(),
    ensures
        first == question_is_first(views(question_rows@), k as int),
{
    let mut j: usize = 0;
    while j < k
        invariant
            j <= k,
            k < question_rows.len(),
            forall|t: int| 0 <= t < j ==> views(question_rows@)[t].id != views(question_rows@)[k as int].id,
        decreases k - j,
    {
        if question_rows[j].id == question_rows[k].id {
            assert(views(question_rows@)[j as int].id == views(question_rows@)[k as int].id);
            return false;
        }
        j += 1;
    }
    true
}

fn quiz_row_is_first(quiz_rows: &Vec<QuizRow>, k: usize) -> (first: bool)
    requires
        k < quiz_rows.len(),
    ensures
        first == quiz_is_first(quiz_rows@, k as int),
{
    let mut j: usize = 0;
    while j < k
        invariant
            j <= k,
            k < quiz_rows.len(),
            forall|t: int| 0 <= t < j ==> quiz_rows@[t].id != quiz_rows@[k as int].id,
        decreases k - j,
    {
        if quiz_rows[j].id == quiz_rows[k].id {
            return false;
        }
        j += 1;
    }
    true
}

fn module_row_is_first(module_rows: &Vec<ModuleRow>, k: usize) -> (first: bool)
    requires
        k < module_rows.len(),
    ensures
        first == module_is_first(views(module_rows@), k as int),
{
    let mut j: usize = 0;
    while j < k
        invariant
            j <= k,
            k < module_rows.len(),
            forall|t: int| 0 <= t < j ==> views(module_rows@)[t].id != views(module_rows@)[k as int].id,
        decreases k - j,
    {
        if module_rows[j].id == module_rows[k].id {
            assert(views(module_rows@)[j as int].id == views(module_rows@)[k as int].id);
            return false;
        }
        j += 1;
    }
    true
}

fn build_question(
    question_rows: &Vec<QuestionRow>,
    answer_rows: &Vec<AnswerOption>,
    k: usize,
) -> (question: Question)
    requires
        k < question_rows.len(),
    ensures
        question@ == built_question(views(question_rows@), views(answer_rows@), k as int),
{
    let row = &question_rows[k];
    let answers = if question_row_is_first(question_rows, k) {
        collect_answers(answer_rows, row.id)
    } else {
        Vec::new()
    };
    proof {
        assert(views(Seq::<AnswerOption>::empty()) =~= Seq::empty());
    }
    Question {
        id: row.id,
        quiz_id: row.quiz_id,
        question_text: row.question_text.clone(),
        answers,
    }
}

fn collect_questions(
    question_rows: &Vec<QuestionRow>,
    answer_rows: &Vec<AnswerOption>,
    quiz_id: i64,
) -> (out: Vec<Question>)
    ensures
        views(out@) == questions_of(views(question_rows@), views(answer_rows@), quiz_id),
{
    let mut out: Vec<Question> = Vec::new();
    let mut i: usize = 0;
    let ghost built = built_questions(views(question_rows@), views(answer_rows@));
    let ghost pred = |q: QuestionView| q.quiz_id == quiz_id;
    proof {
        assert(built.take(0) =~= Seq::empty());
        assert(views(out@) =~= Seq::empty());
    }
    while i < question_rows.len()
        invariant
            i <= question_rows.len(),
            built == built_questions(views(question_rows@), views(answer_rows@)),
            pred == |q: QuestionView| q.quiz_id == quiz_id,
            views(out@) == built.take(i as int).filter(pred),
        decreases question_rows.len() - i,
    {
        let ghost before = views(out@);
        proof {
            assert(built.take(i + 1) =~= built.take(i as int).push(built[i as int]));
            built.take(i as int).lemma_filter_push(built[i as int], pred);
        }
        if question_rows[i].quiz_id == quiz_id {
            let question = build_question(question_rows, answer_rows, i);
            out.push(question);
            proof {
                assert(views(out@) =~= before.push(built[i as int]));
            }
        }
        i += 1;
    }
    proof {
        assert(built.take(i as int) =~= built);
    }
    out
}

fn build_quiz(
    quiz_rows: &Vec<QuizRow>,
    question_rows: &Vec<QuestionRow>,
    answer_rows: &Vec<AnswerOption>,
    k: usize,
) -> (quiz: Quiz)
    requires
        k < quiz_rows.len(),
    ensures
        quiz@ == built_quiz(quiz_rows@, views(question_rows@), views(answer_rows@), k as int),
{
    let row = &quiz_rows[k];
    let questions = if quiz_row_is_first(quiz_rows, k) {
        collect_questions(question_rows, answer_rows, row.id)
    } else {
        Vec::new()
    };
    proof {
        assert(views(Seq::<Question>::empty()) =~= Seq::empty());
    }
    Quiz { id: row.id, module_id: row.module_id, questions }
}

fn find_quiz(
    quiz_rows: &Vec<QuizRow>,
    question_rows: &Vec<QuestionRow>,
    answer_rows: &Vec<AnswerOption>,
    module_id: i64,
) -> (found: Option<Quiz>)
    ensures
        match found {
            Some(q) => Some(q@),
            None => None,
        } == quiz_of(quiz_rows@, views(question_rows@), views(answer_rows@), module_id),
{
    let mut last: Option<usize> = None;
    let mut i: usize = 0;
    let ghost built = built_quizzes(quiz_rows@, views(question_rows@), views(answer_rows@));
    let ghost pred = |q: QuizView| q.module_id == module_id;
    proof {
        assert(built.take(0) =~= Seq::empty());
    }
    while i < quiz_rows.len()
        invariant
            i <= quiz_rows.len(),
            built == built_quizzes(quiz_rows@, views(question_rows@), views(answer_rows@)),
            pred == |q: QuizView| q.module_id == module_id,
            match last {
                Some(k) => k < i && built.take(i as int).filter(pred).len() > 0
                    && built.take(i as int).filter(pred).last() == built[k as int],
                None => built.take(i as int).filter(pred).len() == 0,
            },
        decreases quiz_rows.len() - i,
    {
        proof {
            assert(built.take(i + 1) =~= built.take(i as int).push(built[i as int]));
            built.take(i as int).lemma_filter_push(built[i as int], pred);
        }
        if quiz_rows[i].module_id == module_id {
            last = Some(i);
        }
        i += 1;
    }
    proof {
        assert(built.take(i as int) =~= built);
    }
    match last {
        Some(k) => Some(build_quiz(quiz_rows, question_rows, answer_rows, k)),
        None => None,
    }
}

fn build_module(
    module_rows: &Vec<ModuleRow>,
    lesson_rows: &Vec<Lesson>,
    quiz_rows: &Vec<QuizRow>,
    question_rows: &Vec<QuestionRow>,
    answer_rows: &Vec<AnswerOption>,
    k: usize,
) -> (module: Module)
    requires
        k < module_rows.len(),
    ensures
        module@ == built_module(
            views(module_rows@),
            views(lesson_rows@),
            quiz_rows@,
            views(question_rows@),
            views(answer_rows@),
            k as int,
        ),
{
    let row = &module_rows[k];
    let first = module_row_is_first(module_rows, k);
    let lessons = if first {
        collect_lessons(lesson_rows, row.id)
    } else {
        Vec::new()
    };
    let quiz = if first {
        find_quiz(quiz_rows, question_rows, answer_rows, row.id)
    } else {
        None
    };
    proof {
        assert(views(Seq::<Lesson>::empty()) =~= Seq::empty());
    }
    Module {
        id: row.id,
        course_id: row.course_id,
        title: row.title.clone(),
        position: row.position,
        lessons,
        quiz,
    }
}

/// Builds the full tree of a course from its rows: the course row, its
/// module rows, and the lesson, quiz, question and answer rows below them.
pub fn assemble_course(
    course_row: &CourseRow,
    module_rows: &Vec<ModuleRow>,
    lesson_rows: &Vec<Lesson>,
    quiz_rows: &Vec<QuizRow>,
    question_rows: &Vec<QuestionRow>,
    answer_rows: &Vec<AnswerOption>,
) -> (course: Course)
    ensures
        course@ == course_tree(
            course_row@,
            views(module_rows@),
            views(lesson_rows@),
            quiz_rows@,
            views(question_rows@),
            views(answer_rows@),
        ),
{
    let mut modules: Vec<Module> = Vec::new();
    let mut k: usize = 0;
    while k < module_rows.len()
        invariant
            k <= module_rows.len(),
            modules@.len() == k,
            forall|t: int|
                0 <= t < k ==> modules@[t]@ == built_module(
                    views(module_rows@),
                    views(lesson_rows@),
                    quiz_rows@,
                    views(question_rows@),
                    views(answer_rows@),
                    t,
                ),
        decreases module_rows.len() - k,
    {
        let module = build_module(module_rows, lesson_rows, quiz_rows, question_rows, answer_rows, k);
        modules.push(module);
        k += 1;
    }
    let course = Course {
        id: course_row.id,
        title: course_row.title.clone(),
        description: course_row.description.clone(),
        creator_id: course_row.creator_id.clone(),
        modules,
        num_learners: course_row.num_learners,
        num_completed: course_row.num_completed,
    };
    proof {
        assert(course@.modules =~= course_tree(
            course_row@,
            views(module_rows@),
            views(lesson_rows@),
            quiz_rows@,
            views(question_rows@),
            views(answer_rows@),
        ).modules);
    }
    course
}

} // verus!

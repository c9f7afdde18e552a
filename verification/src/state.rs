//! The engine's state as mathematics: its tables as sequences of row views,
//! what it means for the tables to be well formed, and each operation as a
//! function from state to state.
use vstd::prelude::*;
use crate::models::course::{
    AnswerOptionView, CreateAnswerOptionPayloadView, CreateCoursePayloadView,
    CreateLessonPayloadView, CreateModulePayloadView, CreateQuestionPayloadView, LessonView,
    ModuleRowView, QuestionRowView, QuizRow,
};
use crate::derivation::{
    child_of, children_complete, derive_parent, insert_unique, parents_derived, Fact,
};
use crate::rules::position_fits;

verus! {

/// A stored course: what authoring wrote down of it.
pub struct CourseRecordView {
    pub id: i64,
    pub title: Seq<char>,
    pub description: Seq<char>,
    pub creator_id: Seq<char>,
}

/// A learner's latest result on a quiz.
pub struct QuizCompletionView {
    pub learner_id: Seq<char>,
    pub quiz_id: i64,
    pub score: i32,
    pub total_questions: i32,
    pub completed_at: i64,
}

/// For each lesson, the module it belongs to.
pub open spec fn module_ids(lessons: Seq<LessonView>) -> Seq<i64> {
    Seq::new(lessons.len(), |i: int| lessons[i].module_id)
}

/// For each module, the course it belongs to.
pub open spec fn course_ids(modules: Seq<ModuleRowView>) -> Seq<i64> {
    Seq::new(modules.len(), |i: int| modules[i].course_id)
}

/// Whoever has completed a lesson is enrolled in the lesson's course.
pub open spec fn enrollment_comes_first(
    modules: Seq<ModuleRowView>,
    lessons: Seq<LessonView>,
    enrollments: Seq<Fact>,
    lesson_completions: Seq<Fact>,
) -> bool {
    forall|learner: Seq<char>, lesson_id: i64| #[trigger]
        lesson_completions.contains((learner, lesson_id)) ==> enrollments.contains(
            (learner, modules[lessons[lesson_id - 1].module_id - 1].course_id),
        )
}

/// Everything the engine stores. Rows of the course tree get the ids
/// 1, 2, 3, ... in the order in which they were written.
pub struct StoreState {
    pub creators: Seq<Seq<char>>,
    pub learners: Seq<Seq<char>>,
    pub courses: Seq<CourseRecordView>,
    pub modules: Seq<ModuleRowView>,
    pub lessons: Seq<LessonView>,
    pub quizzes: Seq<QuizRow>,
    pub questions: Seq<QuestionRowView>,
    pub answers: Seq<AnswerOptionView>,
    pub enrollments: Seq<Fact>,
    pub lesson_completions: Seq<Fact>,
    pub module_completions: Seq<Fact>,
    pub course_completions: Seq<Fact>,
    pub quiz_completions: Seq<QuizCompletionView>,
}

impl StoreState {
    /// The state that holds nothing.
    pub open spec fn empty() -> StoreState {
        StoreState {
            creators: Seq::empty(),
            learners: Seq::empty(),
            courses: Seq::empty(),
            modules: Seq::empty(),
            lessons: Seq::empty(),
            quizzes: Seq::empty(),
            questions: Seq::empty(),
            answers: Seq::empty(),
            enrollments: Seq::empty(),
            lesson_completions: Seq::empty(),
            module_completions: Seq::empty(),
            course_completions: Seq::empty(),
            quiz_completions: Seq::empty(),
        }
    }

    /// A course has this id.
    pub open spec fn has_course(self, course_id: i64) -> bool {
        1 <= course_id <= self.courses.len()
    }

    /// A module has this id.
    pub open spec fn has_module(self, module_id: i64) -> bool {
        1 <= module_id <= self.modules.len()
    }

    /// A lesson has this id.
    pub open spec fn has_lesson(self, lesson_id: i64) -> bool {
        1 <= lesson_id <= self.lessons.len()
    }

    /// A quiz has this id.
    pub open spec fn has_quiz(self, quiz_id: i64) -> bool {
        1 <= quiz_id <= self.quizzes.len()
    }

    /// A question has this id.
    pub open spec fn has_question(self, question_id: i64) -> bool {
        1 <= question_id <= self.questions.len()
    }

    /// The module exists and belongs to the course.
    pub open spec fn module_in_course(self, module_id: i64, course_id: i64) -> bool {
        child_of(course_ids(self.modules), module_id, course_id)
    }

    /// The lesson exists and belongs to the module.
    pub open spec fn lesson_in_module(self, lesson_id: i64, module_id: i64) -> bool {
        child_of(module_ids(self.lessons), lesson_id, module_id)
    }

    /// The lesson exists and its module belongs to the course.
    pub open spec fn lesson_in_course(self, lesson_id: i64, course_id: i64) -> bool {
        self.has_lesson(lesson_id) && self.module_in_course(
            self.lessons[lesson_id - 1].module_id,
            course_id,
        )
    }

    /// The learner is enrolled in the course.
    pub open spec fn enrolled(self, learner: Seq<char>, course_id: i64) -> bool {
        self.enrollments.contains((learner, course_id))
    }

    /// The learner has completed the lesson.
    pub open spec fn lesson_done(self, learner: Seq<char>, lesson_id: i64) -> bool {
        self.lesson_completions.contains((learner, lesson_id))
    }

    /// A module completion is recorded for the learner.
    pub open spec fn module_done(self, learner: Seq<char>, module_id: i64) -> bool {
        self.module_completions.contains((learner, module_id))
    }

    /// A course completion is recorded for the learner.
    pub open spec fn course_done(self, learner: Seq<char>, course_id: i64) -> bool {
        self.course_completions.contains((learner, course_id))
    }

    /// Row `i` of the quiz completions is the learner's result on the quiz.
    pub open spec fn is_quiz_result(self, i: int, learner: Seq<char>, quiz_id: i64) -> bool {
        &&& 0 <= i < self.quiz_completions.len()
        &&& self.quiz_completions[i].learner_id == learner
        &&& self.quiz_completions[i].quiz_id == quiz_id
    }

    /// The learner has a result on the quiz.
    pub open spec fn quiz_done(self, learner: Seq<char>, quiz_id: i64) -> bool {
        exists|i: int| self.is_quiz_result(i, learner, quiz_id)
    }

    /// The module has a lesson and the learner has completed all of its
    /// lessons.
    pub open spec fn lessons_complete(self, learner: Seq<char>, module_id: i64) -> bool {
        children_complete(module_ids(self.lessons), self.lesson_completions, learner, module_id)
    }

    /// The course has a module and the learner has a completion for all of
    /// its modules.
    pub open spec fn modules_complete(self, learner: Seq<char>, course_id: i64) -> bool {
        children_complete(course_ids(self.modules), self.module_completions, learner, course_id)
    }

    /// Every table of the course tree numbers its rows 1, 2, 3, ... and no
    /// table has outgrown the ids.
    pub open spec fn ids_in_order(self) -> bool {
        &&& self.courses.len() <= i64::MAX
        &&& self.modules.len() <= i64::MAX
        &&& self.lessons.len() <= i64::MAX
        &&& self.quizzes.len() <= i64::MAX
        &&& self.questions.len() <= i64::MAX
        &&& self.answers.len() <= i64::MAX
        &&& forall|i: int| 0 <= i < self.courses.len() ==> (#[trigger] self.courses[i]).id == i + 1
        &&& forall|i: int| 0 <= i < self.modules.len() ==> (#[trigger] self.modules[i]).id == i + 1
        &&& forall|i: int| 0 <= i < self.lessons.len() ==> (#[trigger] self.lessons[i]).id == i + 1
        &&& forall|i: int| 0 <= i < self.quizzes.len() ==> (#[trigger] self.quizzes[i]).id == i + 1
        &&& forall|i: int|
            0 <= i < self.questions.len() ==> (#[trigger] self.questions[i]).id == i + 1
        &&& forall|i: int| 0 <= i < self.answers.len() ==> (#[trigger] self.answers[i]).id == i + 1
    }

    /// Every row of the course tree names a parent that exists, and no module
    /// has two quizzes.
    pub open spec fn parents_exist(self) -> bool {
        &&& forall|i: int|
            0 <= i < self.courses.len() ==> self.creators.contains(
                (#[trigger] self.courses[i]).creator_id,
            )
        &&& forall|i: int|
            0 <= i < self.modules.len() ==> self.has_course((#[trigger] self.modules[i]).course_id)
        &&& forall|i: int|
            0 <= i < self.lessons.len() ==> self.has_module((#[trigger] self.lessons[i]).module_id)
        &&& forall|i: int|
            0 <= i < self.quizzes.len() ==> self.has_module((#[trigger] self.quizzes[i]).module_id)
        &&& forall|i: int|
            0 <= i < self.questions.len() ==> self.has_quiz((#[trigger] self.questions[i]).quiz_id)
        &&& forall|i: int|
            0 <= i < self.answers.len() ==> self.has_question(
                (#[trigger] self.answers[i]).question_id,
            )
        &&& forall|i: int, j: int|
            0 <= i < j < self.quizzes.len() ==> (#[trigger] self.quizzes[i]).module_id != (
            #[trigger] self.quizzes[j]).module_id
    }

    /// The course tree is sound in itself.
    pub open spec fn tree_ok(self) -> bool {
        self.ids_in_order() && self.parents_exist()
    }

    /// No fact is stored twice, and a learner has one result per quiz.
    pub open spec fn facts_are_unique(self) -> bool {
        &&& self.creators.no_duplicates()
        &&& self.learners.no_duplicates()
        &&& self.enrollments.no_duplicates()
        &&& self.lesson_completions.no_duplicates()
        &&& self.module_completions.no_duplicates()
        &&& self.course_completions.no_duplicates()
        &&& forall|i: int, j: int|
            0 <= i < j < self.quiz_completions.len() ==> !({
                &&& (#[trigger] self.quiz_completions[i]).learner_id == (
                #[trigger] self.quiz_completions[j]).learner_id
                &&& self.quiz_completions[i].quiz_id == self.quiz_completions[j].quiz_id
            })
    }

    /// Every fact is about a known learner and an existing subject.
    pub open spec fn facts_have_subjects(self) -> bool {
        &&& forall|i: int|
            0 <= i < self.enrollments.len() ==> {
                &&& self.learners.contains((#[trigger] self.enrollments[i]).0)
                &&& self.has_course(self.enrollments[i].1)
            }
        &&& forall|i: int|
            0 <= i < self.lesson_completions.len() ==> {
                &&& self.learners.contains((#[trigger] self.lesson_completions[i]).0)
                &&& self.has_lesson(self.lesson_completions[i].1)
            }
        &&& forall|i: int|
            0 <= i < self.quiz_completions.len() ==> {
                &&& self.learners.contains((#[trigger] self.quiz_completions[i]).learner_id)
                &&& self.has_quiz(self.quiz_completions[i].quiz_id)
            }
    }

    /// A module completion exists exactly when the module has a lesson and
    /// the learner has completed all of its lessons; a course completion
    /// exists exactly when the course has a module and the learner has a
    /// completion for all of its modules.
    pub open spec fn completions_are_derived(self) -> bool {
        &&& parents_derived(
            module_ids(self.lessons),
            self.lesson_completions,
            self.module_completions,
        )
        &&& parents_derived(
            course_ids(self.modules),
            self.module_completions,
            self.course_completions,
        )
    }

    /// Whoever has completed a lesson is enrolled in the lesson's course.
    pub open spec fn completions_follow_enrollment(self) -> bool {
        enrollment_comes_first(
            self.modules,
            self.lessons,
            self.enrollments,
            self.lesson_completions,
        )
    }

    /// The state is well formed: the invariant that every operation of the
    /// engine keeps.
    pub open spec fn wf(self) -> bool {
        &&& self.tree_ok()
        &&& self.facts_are_unique()
        &&& self.facts_have_subjects()
        &&& self.completions_are_derived()
        &&& self.completions_follow_enrollment()
    }

    /// The state in which the creator is known.
    pub open spec fn with_creator(self, creator: Seq<char>) -> StoreState {
        StoreState { creators: insert_unique(self.creators, creator), ..self }
    }

    /// The state in which the learner is known.
    pub open spec fn with_learner(self, learner: Seq<char>) -> StoreState {
        StoreState { learners: insert_unique(self.learners, learner), ..self }
    }

    /// The state in which the learner is enrolled in the course.
    pub open spec fn with_enrollment(self, learner: Seq<char>, course_id: i64) -> StoreState {
        StoreState { enrollments: insert_unique(self.enrollments, (learner, course_id)), ..self }
    }

    /// The state in which the learner has completed the lesson.
    pub open spec fn with_lesson_completion(self, learner: Seq<char>, lesson_id: i64) -> StoreState {
        StoreState {
            lesson_completions: insert_unique(self.lesson_completions, (learner, lesson_id)),
            ..self
        }
    }

    /// The state after the module completion that the learner's lesson
    /// completions call for, if they call for one.
    pub open spec fn derive_module_completion(self, learner: Seq<char>, module_id: i64) -> StoreState {
        StoreState {
            module_completions: derive_parent(
                module_ids(self.lessons),
                self.lesson_completions,
                self.module_completions,
                learner,
                module_id,
            ),
            ..self
        }
    }

    /// The state after the course completion that the learner's module
    /// completions call for, if they call for one.
    pub open spec fn derive_course_completion(self, learner: Seq<char>, course_id: i64) -> StoreState {
        StoreState {
            course_completions: derive_parent(
                course_ids(self.modules),
                self.module_completions,
                self.course_completions,
                learner,
                course_id,
            ),
            ..self
        }
    }

    /// Enrolling a learner in a course: the learner becomes known and the
    /// enrollment is recorded, once. Nothing changes when the course does not
    /// exist.
    pub open spec fn enroll(self, learner: Seq<char>, course_id: i64) -> StoreState {
        if self.has_course(course_id) {
            self.with_learner(learner).with_enrollment(learner, course_id)
        } else {
            self
        }
    }

    /// The keys of a lesson completion agree: the lesson belongs to the
    /// module and the module to the course.
    pub open spec fn lesson_keys_agree(self, lesson_id: i64, module_id: i64, course_id: i64) -> bool {
        self.lesson_in_module(lesson_id, module_id) && self.module_in_course(module_id, course_id)
    }

    /// Recording a lesson completion: the learner becomes known and enrolled,
    /// the completion is recorded once, and the module and course completions
    /// that follow from it are recorded with it. Nothing changes when the
    /// keys do not agree.
    pub open spec fn record_lesson_completion(
        self,
        learner: Seq<char>,
        lesson_id: i64,
        module_id: i64,
        course_id: i64,
    ) -> StoreState {
        if self.lesson_keys_agree(lesson_id, module_id, course_id) {
            self.with_learner(learner).with_enrollment(learner, course_id).with_lesson_completion(
                learner,
                lesson_id,
            ).derive_module_completion(learner, module_id).derive_course_completion(
                learner,
                course_id,
            )
        } else {
            self
        }
    }

    /// Recording a module completion by request: where the learner has
    /// completed the module's lessons, the module completion and the course
    /// completion that follows from it are recorded.
    pub open spec fn record_module_completion(
        self,
        learner: Seq<char>,
        module_id: i64,
        course_id: i64,
    ) -> StoreState {
        if self.lessons_complete(learner, module_id) {
            self.derive_module_completion(learner, module_id).derive_course_completion(
                learner,
                course_id,
            )
        } else {
            self
        }
    }

    /// Recording a course completion by request.
    pub open spec fn record_course_completion(self, learner: Seq<char>, course_id: i64) -> StoreState {
        self.derive_course_completion(learner, course_id)
    }

    /// The quiz completions after a learner's result on a quiz came in: the
    /// learner's earlier result on that quiz, if there is one, is replaced in
    /// its place; otherwise the result is added at the end.
    pub open spec fn upsert_quiz_result(
        rows: Seq<QuizCompletionView>,
        result: QuizCompletionView,
    ) -> Seq<QuizCompletionView> {
        if exists|i: int|
            0 <= i < rows.len() && (#[trigger] rows[i]).learner_id == result.learner_id
                && rows[i].quiz_id == result.quiz_id {
            Seq::new(
                rows.len(),
                |i: int|
                    if rows[i].learner_id == result.learner_id && rows[i].quiz_id
                        == result.quiz_id {
                        result
                    } else {
                        rows[i]
                    },
            )
        } else {
            rows.push(result)
        }
    }

    /// Recording a quiz result: the learner becomes known and the result
    /// takes the place of any earlier one. Nothing changes when the quiz does
    /// not exist.
    pub open spec fn record_quiz_completion(self, result: QuizCompletionView) -> StoreState {
        if self.has_quiz(result.quiz_id) {
            let known = self.with_learner(result.learner_id);
            StoreState {
                quiz_completions: Self::upsert_quiz_result(known.quiz_completions, result),
                ..known
            }
        } else {
            self
        }
    }
}

/// The first position among the lessons from `from` on that lies outside the
/// 32-bit signed range.
pub open spec fn first_bad_lesson_position(lessons: Seq<CreateLessonPayloadView>, from: int) -> Option<
    i64,
>
    decreases lessons.len() - from,
{
    if from < 0 || from >= lessons.len() {
        None
    } else if !position_fits(lessons[from].position) {
        Some(lessons[from].position)
    } else {
        first_bad_lesson_position(lessons, from + 1)
    }
}

/// The first position of a module payload, its own before those of its
/// lessons, that lies outside the 32-bit signed range.
pub open spec fn first_bad_module_position(module: CreateModulePayloadView) -> Option<i64> {
    if !position_fits(module.position) {
        Some(module.position)
    } else {
        first_bad_lesson_position(module.lessons, 0)
    }
}

/// The first position among the modules from `from` on, in the order in which
/// authoring visits them, that lies outside the 32-bit signed range.
pub open spec fn first_bad_position(modules: Seq<CreateModulePayloadView>, from: int) -> Option<i64>
    decreases modules.len() - from,
{
    if from < 0 || from >= modules.len() {
        None
    } else {
        match first_bad_module_position(modules[from]) {
            Some(position) => Some(position),
            None => first_bad_position(modules, from + 1),
        }
    }
}

/// The number of lessons in the first `n` modules.
pub open spec fn lesson_total(modules: Seq<CreateModulePayloadView>, n: nat) -> nat
    decreases n,
{
    if n == 0 {
        0
    } else {
        lesson_total(modules, (n - 1) as nat) + modules[n - 1].lessons.len()
    }
}

/// The number of quizzes in the first `n` modules.
pub open spec fn quiz_total(modules: Seq<CreateModulePayloadView>, n: nat) -> nat
    decreases n,
{
    if n == 0 {
        0
    } else {
        quiz_total(modules, (n - 1) as nat) + if modules[n - 1].quiz is Some {
            1nat
        } else {
            0nat
        }
    }
}

/// The number of questions in a module's quiz, if it has one.
pub open spec fn questions_in(module: CreateModulePayloadView) -> nat {
    match module.quiz {
        Some(quiz) => quiz.questions.len(),
        None => 0,
    }
}

/// The number of questions in the first `n` modules.
pub open spec fn question_total(modules: Seq<CreateModulePayloadView>, n: nat) -> nat
    decreases n,
{
    if n == 0 {
        0
    } else {
        question_total(modules, (n - 1) as nat) + questions_in(modules[n - 1])
    }
}

/// The number of answer options in the first `n` questions.
pub open spec fn answers_among(questions: Seq<CreateQuestionPayloadView>, n: nat) -> nat
    decreases n,
{
    if n == 0 {
        0
    } else {
        answers_among(questions, (n - 1) as nat) + questions[n - 1].answers.len()
    }
}

/// The number of answer options in a module's quiz, if it has one.
pub open spec fn answers_in(module: CreateModulePayloadView) -> nat {
    match module.quiz {
        Some(quiz) => answers_among(quiz.questions, quiz.questions.len()),
        None => 0,
    }
}

/// The number of answer options in the first `n` modules.
pub open spec fn answer_total(modules: Seq<CreateModulePayloadView>, n: nat) -> nat
    decreases n,
{
    if n == 0 {
        0
    } else {
        answer_total(modules, (n - 1) as nat) + answers_in(modules[n - 1])
    }
}

/// The stored row of a lesson of a payload.
pub open spec fn lesson_row(lesson: CreateLessonPayloadView, module_id: int, id: int) -> LessonView {
    LessonView {
        id: id as i64,
        module_id: module_id as i64,
        title: lesson.title,
        content: lesson.content,
        video_url: lesson.video_url,
        position: lesson.position as i32,
    }
}

/// The stored row of a module of a payload.
pub open spec fn module_row(module: CreateModulePayloadView, course_id: int, id: int) -> ModuleRowView {
    ModuleRowView {
        id: id as i64,
        course_id: course_id as i64,
        title: module.title,
        position: module.position as i32,
    }
}

/// The stored row of a question of a payload.
pub open spec fn question_row(question: CreateQuestionPayloadView, quiz_id: int, id: int) -> QuestionRowView {
    QuestionRowView { id: id as i64, quiz_id: quiz_id as i64, question_text: question.question_text }
}

/// The stored row of an answer option of a payload.
pub open spec fn answer_row(
    answer: CreateAnswerOptionPayloadView,
    question_id: int,
    id: int,
) -> AnswerOptionView {
    AnswerOptionView {
        id: id as i64,
        question_id: question_id as i64,
        answer_text: answer.answer_text,
        is_correct: answer.is_correct,
    }
}

/// The questions of a module's quiz; none where it has no quiz.
pub open spec fn quiz_questions(module: CreateModulePayloadView) -> Seq<CreateQuestionPayloadView> {
    match module.quiz {
        Some(quiz) => quiz.questions,
        None => Seq::empty(),
    }
}

/// Module `k` of the payload, for each of the first `n`, is the row at the
/// place `m0 + k`, under the course.
pub open spec fn module_rows_written(
    rows: Seq<ModuleRowView>,
    course_id: int,
    m0: int,
    modules: Seq<CreateModulePayloadView>,
    n: nat,
) -> bool {
    forall|k: int|
        0 <= k < n ==> rows[m0 + k] == module_row(#[trigger] modules[k], course_id, m0 + k + 1)
}

/// Lesson `j` of module `k` of the payload, for each of the first `n`
/// modules, is the row at the place `l0` plus the lessons of the modules
/// before plus `j`, under its module.
pub open spec fn lesson_rows_written(
    rows: Seq<LessonView>,
    m0: int,
    l0: int,
    modules: Seq<CreateModulePayloadView>,
    n: nat,
) -> bool {
    forall|k: int, j: int|
        0 <= k < n && 0 <= j < modules[k].lessons.len() ==> rows[l0 + lesson_total(
            modules,
            k as nat,
        ) + j] == lesson_row(
            #[trigger] modules[k].lessons[j],
            m0 + k + 1,
            l0 + lesson_total(modules, k as nat) + j + 1,
        )
}

/// The quiz of module `k` of the payload, for each of the first `n` modules
/// that has one, is the row at the place `q0` plus the quizzes of the
/// modules before, under its module.
pub open spec fn quiz_rows_written(
    rows: Seq<QuizRow>,
    m0: int,
    q0: int,
    modules: Seq<CreateModulePayloadView>,
    n: nat,
) -> bool {
    forall|k: int|
        0 <= k < n && (#[trigger] modules[k]).quiz is Some ==> rows[q0 + quiz_total(
            modules,
            k as nat,
        )] == (QuizRow {
            id: (q0 + quiz_total(modules, k as nat) + 1) as i64,
            module_id: (m0 + k + 1) as i64,
        })
}

/// Question `i` of the quiz of module `k` of the payload, for each of the
/// first `n` modules, is the row at the place `t0` plus the questions of the
/// modules before plus `i`, under its quiz.
pub open spec fn question_rows_written(
    rows: Seq<QuestionRowView>,
    q0: int,
    t0: int,
    modules: Seq<CreateModulePayloadView>,
    n: nat,
) -> bool {
    forall|k: int, i: int|
        0 <= k < n && 0 <= i < quiz_questions(modules[k]).len() ==> rows[t0 + question_total(
            modules,
            k as nat,
        ) + i] == question_row(
            #[trigger] quiz_questions(modules[k])[i],
            q0 + quiz_total(modules, k as nat) + 1,
            t0 + question_total(modules, k as nat) + i + 1,
        )
}

/// Answer option `a` of question `i` of the quiz of module `k` of the
/// payload, for each of the first `n` modules, is the row at the place `a0`
/// plus the answer options of the modules before, plus those of the
/// questions before, plus `a`, under its question.
pub open spec fn answer_rows_written(
    rows: Seq<AnswerOptionView>,
    t0: int,
    a0: int,
    modules: Seq<CreateModulePayloadView>,
    n: nat,
) -> bool {
    forall|k: int, i: int, a: int|
        0 <= k < n && 0 <= i < quiz_questions(modules[k]).len() && 0 <= a < quiz_questions(
            modules[k],
        )[i].answers.len() ==> rows[a0 + answer_total(modules, k as nat) + answers_among(
            quiz_questions(modules[k]),
            i as nat,
        ) + a] == answer_row(
            #[trigger] quiz_questions(modules[k])[i].answers[a],
            t0 + question_total(modules, k as nat) + i + 1,
            a0 + answer_total(modules, k as nat) + answers_among(
                quiz_questions(modules[k]),
                i as nat,
            ) + a + 1,
        )
}

impl StoreState {
    /// `later` holds the rows of this state, each where it was, below the
    /// rows that came after.
    pub open spec fn rows_kept_in(self, later: StoreState) -> bool {
        &&& self.modules.len() <= later.modules.len()
        &&& self.lessons.len() <= later.lessons.len()
        &&& self.quizzes.len() <= later.quizzes.len()
        &&& self.questions.len() <= later.questions.len()
        &&& self.answers.len() <= later.answers.len()
        &&& forall|i: int|
            0 <= i < self.modules.len() ==> #[trigger] later.modules[i] == self.modules[i]
        &&& forall|i: int|
            0 <= i < self.lessons.len() ==> #[trigger] later.lessons[i] == self.lessons[i]
        &&& forall|i: int|
            0 <= i < self.quizzes.len() ==> #[trigger] later.quizzes[i] == self.quizzes[i]
        &&& forall|i: int|
            0 <= i < self.questions.len() ==> #[trigger] later.questions[i] == self.questions[i]
        &&& forall|i: int|
            0 <= i < self.answers.len() ==> #[trigger] later.answers[i] == self.answers[i]
    }

    /// `later` is this state with the first `n` modules of the payload
    /// written under the course `course_id`, and nothing else: module `k`
    /// of the payload is the `k`-th new module, its lessons stand together
    /// behind the lessons of the modules before it, and so do its quiz, the
    /// questions of the quiz and the answer options of each question. Every
    /// new row has the place of its id.
    pub open spec fn modules_written(
        self,
        course_id: int,
        modules: Seq<CreateModulePayloadView>,
        n: nat,
        later: StoreState,
    ) -> bool {
        let m0 = self.modules.len() as int;
        let l0 = self.lessons.len() as int;
        let q0 = self.quizzes.len() as int;
        let t0 = self.questions.len() as int;
        let a0 = self.answers.len() as int;
        &&& later == (StoreState {
            modules: later.modules,
            lessons: later.lessons,
            quizzes: later.quizzes,
            questions: later.questions,
            answers: later.answers,
            ..self
        })
        &&& self.rows_kept_in(later)
        &&& later.modules.len() == m0 + n
        &&& later.lessons.len() == l0 + lesson_total(modules, n)
        &&& later.quizzes.len() == q0 + quiz_total(modules, n)
        &&& later.questions.len() == t0 + question_total(modules, n)
        &&& later.answers.len() == a0 + answer_total(modules, n)
        &&& module_rows_written(later.modules, course_id, m0, modules, n)
        &&& lesson_rows_written(later.lessons, m0, l0, modules, n)
        &&& quiz_rows_written(later.quizzes, m0, q0, modules, n)
        &&& question_rows_written(later.questions, q0, t0, modules, n)
        &&& answer_rows_written(later.answers, t0, a0, modules, n)
    }

    /// `later` is this state with the course of the payload written and
    /// nothing else: the creator is known, the course is the last of the
    /// courses, and its modules are written under it.
    pub open spec fn course_written(self, payload: CreateCoursePayloadView, later: StoreState) -> bool {
        let known = self.with_creator(payload.creator_id).with_course(
            payload.title,
            payload.description,
            payload.creator_id,
        );
        known.modules_written(
            (self.courses.len() + 1) as int,
            payload.modules,
            payload.modules.len(),
            later,
        )
    }

    /// The state with a new course, which takes the next id.
    pub open spec fn with_course(
        self,
        title: Seq<char>,
        description: Seq<char>,
        creator_id: Seq<char>,
    ) -> StoreState {
        StoreState {
            courses: self.courses.push(
                CourseRecordView {
                    id: (self.courses.len() + 1) as i64,
                    title,
                    description,
                    creator_id,
                },
            ),
            ..self
        }
    }

    /// The state with a new module, which takes the next id.
    pub open spec fn with_module(self, course_id: i64, title: Seq<char>, position: i64) -> StoreState {
        StoreState {
            modules: self.modules.push(
                ModuleRowView {
                    id: (self.modules.len() + 1) as i64,
                    course_id,
                    title,
                    position: position as i32,
                },
            ),
            ..self
        }
    }

    /// The state with a new lesson, which takes the next id.
    pub open spec fn with_lesson(self, module_id: i64, lesson: CreateLessonPayloadView) -> StoreState {
        StoreState {
            lessons: self.lessons.push(
                LessonView {
                    id: (self.lessons.len() + 1) as i64,
                    module_id,
                    title: lesson.title,
                    content: lesson.content,
                    video_url: lesson.video_url,
                    position: lesson.position as i32,
                },
            ),
            ..self
        }
    }

    /// The state with a new quiz, which takes the next id.
    pub open spec fn with_quiz(self, module_id: i64) -> StoreState {
        StoreState {
            quizzes: self.quizzes.push(
                QuizRow { id: (self.quizzes.len() + 1) as i64, module_id },
            ),
            ..self
        }
    }

    /// The state with a new question, which takes the next id.
    pub open spec fn with_question(self, quiz_id: i64, question_text: Seq<char>) -> StoreState {
        StoreState {
            questions: self.questions.push(
                QuestionRowView {
                    id: (self.questions.len() + 1) as i64,
                    quiz_id,
                    question_text,
                },
            ),
            ..self
        }
    }

    /// The state with a new answer option, which takes the next id.
    pub open spec fn with_answer(
        self,
        question_id: i64,
        answer: CreateAnswerOptionPayloadView,
    ) -> StoreState {
        StoreState {
            answers: self.answers.push(
                AnswerOptionView {
                    id: (self.answers.len() + 1) as i64,
                    question_id,
                    answer_text: answer.answer_text,
                    is_correct: answer.is_correct,
                },
            ),
            ..self
        }
    }

    /// The state after the first `n` of the answer options were written
    /// under the question, in order.
    pub open spec fn author_answers(
        self,
        question_id: i64,
        answers: Seq<CreateAnswerOptionPayloadView>,
        n: nat,
    ) -> StoreState
        decreases n,
    {
        if n == 0 {
            self
        } else {
            self.author_answers(question_id, answers, (n - 1) as nat).with_answer(
                question_id,
                answers[n - 1],
            )
        }
    }

    /// The state after one question was written under the quiz, and its
    /// answer options under it.
    pub open spec fn author_question(
        self,
        quiz_id: i64,
        question: CreateQuestionPayloadView,
    ) -> StoreState {
        self.with_question(quiz_id, question.question_text).author_answers(
            (self.questions.len() + 1) as i64,
            question.answers,
            question.answers.len(),
        )
    }

    /// The state after the first `n` of the questions were written under the
    /// quiz, in order.
    pub open spec fn author_questions(
        self,
        quiz_id: i64,
        questions: Seq<CreateQuestionPayloadView>,
        n: nat,
    ) -> StoreState
        decreases n,
    {
        if n == 0 {
            self
        } else {
            self.author_questions(quiz_id, questions, (n - 1) as nat).author_question(
                quiz_id,
                questions[n - 1],
            )
        }
    }

    /// The state after the first `n` of the lessons were written under the
    /// module, in order.
    pub open spec fn author_lessons(
        self,
        module_id: i64,
        lessons: Seq<CreateLessonPayloadView>,
        n: nat,
    ) -> StoreState
        decreases n,
    {
        if n == 0 {
            self
        } else {
            self.author_lessons(module_id, lessons, (n - 1) as nat).with_lesson(
                module_id,
                lessons[n - 1],
            )
        }
    }

    /// The state after one module was written under the course: the module,
    /// then its lessons, then its quiz with the questions and their answer
    /// options, if it has a quiz.
    pub open spec fn author_module(self, course_id: i64, module: CreateModulePayloadView) -> StoreState {
        let module_id = (self.modules.len() + 1) as i64;
        let taught = self.with_module(course_id, module.title, module.position).author_lessons(
            module_id,
            module.lessons,
            module.lessons.len(),
        );
        match module.quiz {
            Some(quiz) => taught.with_quiz(module_id).author_questions(
                (taught.quizzes.len() + 1) as i64,
                quiz.questions,
                quiz.questions.len(),
            ),
            None => taught,
        }
    }

    /// The state after the first `n` of the modules were written under the
    /// course, in order.
    pub open spec fn author_modules(
        self,
        course_id: i64,
        modules: Seq<CreateModulePayloadView>,
        n: nat,
    ) -> StoreState
        decreases n,
    {
        if n == 0 {
            self
        } else {
            self.author_modules(course_id, modules, (n - 1) as nat).author_module(
                course_id,
                modules[n - 1],
            )
        }
    }

    /// The state after a course was authored: its creator becomes known, the
    /// course is written, and its modules under it.
    pub open spec fn author_course(self, payload: CreateCoursePayloadView) -> StoreState {
        self.with_creator(payload.creator_id).with_course(
            payload.title,
            payload.description,
            payload.creator_id,
        ).author_modules((self.courses.len() + 1) as i64, payload.modules, payload.modules.len())
    }

    /// Every table can take the rows of the payload without running out of
    /// ids.
    pub open spec fn has_room_for(self, payload: CreateCoursePayloadView) -> bool {
        let n = payload.modules.len();
        &&& self.courses.len() + 1 <= i64::MAX
        &&& self.modules.len() + n <= i64::MAX
        &&& self.lessons.len() + lesson_total(payload.modules, n) <= i64::MAX
        &&& self.quizzes.len() + quiz_total(payload.modules, n) <= i64::MAX
        &&& self.questions.len() + question_total(payload.modules, n) <= i64::MAX
        &&& self.answers.len() + answer_total(payload.modules, n) <= i64::MAX
    }

    /// `later` is this state with rows added to the course tree, all of them
    /// under courses that this state does not have; nothing else differs but
    /// the creators.
    pub open spec fn grown_into(self, later: StoreState) -> bool {
        &&& later.learners == self.learners
        &&& later.enrollments == self.enrollments
        &&& later.lesson_completions == self.lesson_completions
        &&& later.module_completions == self.module_completions
        &&& later.course_completions == self.course_completions
        &&& later.quiz_completions == self.quiz_completions
        &&& later.creators.no_duplicates()
        &&& self.courses.len() <= later.courses.len()
        &&& self.modules.len() <= later.modules.len()
        &&& self.lessons.len() <= later.lessons.len()
        &&& self.quizzes.len() <= later.quizzes.len()
        &&& forall|i: int|
            0 <= i < self.modules.len() ==> #[trigger] later.modules[i] == self.modules[i]
        &&& forall|i: int|
            0 <= i < self.lessons.len() ==> #[trigger] later.lessons[i] == self.lessons[i]
        &&& forall|i: int|
            self.modules.len() <= i < later.modules.len() ==> (#[trigger] later.modules[i]).course_id
                > self.courses.len()
        &&& forall|i: int|
            self.lessons.len() <= i < later.lessons.len() ==> (#[trigger] later.lessons[i]).module_id
                > self.modules.len()
    }
}

} // verus!

//! Course trees, the payloads that author them and the rows they are stored as.
use vstd::prelude::*;

verus! {

/// The views of the elements of a sequence, in order.
pub open spec fn views<T: View>(items: Seq<T>) -> Seq<T::V> {
    Seq::new(items.len(), |i: int| items[i]@)
}

/// The view of an optional string.
pub open spec fn opt_text(text: Option<String>) -> Option<Seq<char>> {
    match text {
        Some(t) => Some(t@),
        None => None,
    }
}

/// Copies an optional string.
pub fn clone_opt_text(text: &Option<String>) -> (copy: Option<String>)
    ensures
        opt_text(copy) == opt_text(*text),
{
    match text {
        Some(t) => Some(t.clone()),
        None => None,
    }
}

#[derive(Debug)]
pub struct CreateAnswerOptionPayload {
    pub answer_text: String,
    pub is_correct: bool,
}

pub struct CreateAnswerOptionPayloadView {
    pub answer_text: Seq<char>,
    pub is_correct: bool,
}

impl View for CreateAnswerOptionPayload {
    type V = CreateAnswerOptionPayloadView;

    open spec fn view(&self) -> CreateAnswerOptionPayloadView {
        CreateAnswerOptionPayloadView { answer_text: self.answer_text@, is_correct: self.is_correct }
    }
}

#[derive(Debug)]
pub struct CreateQuestionPayload {
    pub question_text: String,
    pub answers: Vec<CreateAnswerOptionPayload>,
}

pub struct CreateQuestionPayloadView {
    pub question_text: Seq<char>,
    pub answers: Seq<CreateAnswerOptionPayloadView>,
}

impl View for CreateQuestionPayload {
    type V = CreateQuestionPayloadView;

    open spec fn view(&self) -> CreateQuestionPayloadView {
        CreateQuestionPayloadView {
            question_text: self.question_text@,
            answers: views(self.answers@),
        }
    }
}

#[derive(Debug)]
pub struct CreateQuizPayload {
    pub questions: Vec<CreateQuestionPayload>,
}

pub struct CreateQuizPayloadView {
    pub questions: Seq<CreateQuestionPayloadView>,
}

impl View for CreateQuizPayload {
    type V = CreateQuizPayloadView;

    open spec fn view(&self) -> CreateQuizPayloadView {
        CreateQuizPayloadView { questions: views(self.questions@) }
    }
}

/// A lesson to author. Its position is taken as sent and checked against the
/// 32-bit range when the course is created.
#[derive(Debug)]
pub struct CreateLessonPayload {
    pub title: String,
    pub content: String,
    pub video_url: Option<String>,
    pub position: i64,
}

pub struct CreateLessonPayloadView {
    pub title: Seq<char>,
    pub content: Seq<char>,
    pub video_url: Option<Seq<char>>,
    pub position: i64,
}

impl View for CreateLessonPayload {
    type V = CreateLessonPayloadView;

    open spec fn view(&self) -> CreateLessonPayloadView {
        CreateLessonPayloadView {
            title: self.title@,
            content: self.content@,
            video_url: opt_text(self.video_url),
            position: self.position,
        }
    }
}

/// A module to author, with its lessons in order and at most one quiz.
#[derive(Debug)]
pub struct CreateModulePayload {
    pub title: String,
    pub position: i64,
    pub lessons: Vec<CreateLessonPayload>,
    pub quiz: Option<CreateQuizPayload>,
}

pub struct CreateModulePayloadView {
    pub title: Seq<char>,
    pub position: i64,
    pub lessons: Seq<CreateLessonPayloadView>,
    pub quiz: Option<CreateQuizPayloadView>,
}

impl View for CreateModulePayload {
    type V = CreateModulePayloadView;

    open spec fn view(&self) -> CreateModulePayloadView {
        CreateModulePayloadView {
            title: self.title@,
            position: self.position,
            lessons: views(self.lessons@),
            quiz: match self.quiz {
                Some(q) => Some(q@),
                None => None,
            },
        }
    }
}

#[derive(Debug)]
pub struct CreateCoursePayload {
    pub title: String,
    pub description: String,
    pub creator_id: String,
    pub modules: Vec<CreateModulePayload>,
}

pub struct CreateCoursePayloadView {
    pub title: Seq<char>,
    pub description: Seq<char>,
    pub creator_id: Seq<char>,
    pub modules: Seq<CreateModulePayloadView>,
}

impl View for CreateCoursePayload {
    type V = CreateCoursePayloadView;

    open spec fn view(&self) -> CreateCoursePayloadView {
        CreateCoursePayloadView {
            title: self.title@,
            description: self.description@,
            creator_id: self.creator_id@,
            modules: views(self.modules@),
        }
    }
}

#[derive(Debug)]
pub struct AnswerOption {
    pub id: i64,
    pub question_id: i64,
    pub answer_text: String,
    pub is_correct: bool,
}

pub struct AnswerOptionView {
    pub id: i64,
    pub question_id: i64,
    pub answer_text: Seq<char>,
    pub is_correct: bool,
}

impl View for AnswerOption {
    type V = AnswerOptionView;

    open spec fn view(&self) -> AnswerOptionView {
        AnswerOptionView {
            id: self.id,
            question_id: self.question_id,
            answer_text: self.answer_text@,
            is_correct: self.is_correct,
        }
    }
}

impl Clone for AnswerOption {
    fn clone(&self) -> (copy: Self)
        ensures
            copy@ == self@,
    {
        AnswerOption {
            id: self.id,
            question_id: self.question_id,
            answer_text: self.answer_text.clone(),
            is_correct: self.is_correct,
        }
    }
}

#[derive(Debug)]
pub struct Question {
    pub id: i64,
    pub quiz_id: i64,
    pub question_text: String,
    pub answers: Vec<AnswerOption>,
}

pub struct QuestionView {
    pub id: i64,
    pub quiz_id: i64,
    pub question_text: Seq<char>,
    pub answers: Seq<AnswerOptionView>,
}

impl View for Question {
    type V = QuestionView;

    open spec fn view(&self) -> QuestionView {
        QuestionView {
            id: self.id,
            quiz_id: self.quiz_id,
            question_text: self.question_text@,
            answers: views(self.answers@),
        }
    }
}

#[derive(Debug)]
pub struct Quiz {
    pub id: i64,
    pub module_id: i64,
    pub questions: Vec<Question>,
}

pub struct QuizView {
    pub id: i64,
    pub module_id: i64,
    pub questions: Seq<QuestionView>,
}

impl View for Quiz {
    type V = QuizView;

    open spec fn view(&self) -> QuizView {
        QuizView { id: self.id, module_id: self.module_id, questions: views(self.questions@) }
    }
}

#[derive(Debug)]
pub struct Lesson {
    pub id: i64,
    pub module_id: i64,
    pub title: String,
    pub content: String,
    pub video_url: Option<String>,
    pub position: i32,
}

pub struct LessonView {
    pub id: i64,
    pub module_id: i64,
    pub title: Seq<char>,
    pub content: Seq<char>,
    pub video_url: Option<Seq<char>>,
    pub position: i32,
}

impl View for Lesson {
    type V = LessonView;

    open spec fn view(&self) -> LessonView {
        LessonView {
            id: self.id,
            module_id: self.module_id,
            title: self.title@,
            content: self.content@,
            video_url: opt_text(self.video_url),
            position: self.position,
        }
    }
}

impl Clone for Lesson {
    fn clone(&self) -> (copy: Self)
        ensures
            copy@ == self@,
    {
        Lesson {
            id: self.id,
            module_id: self.module_id,
            title: self.title.clone(),
            content: self.content.clone(),
            video_url: clone_opt_text(&self.video_url),
            position: self.position,
        }
    }
}

#[derive(Debug)]
pub struct Module {
    pub id: i64,
    pub course_id: i64,
    pub title: String,
    pub position: i32,
    pub lessons: Vec<Lesson>,
    pub quiz: Option<Quiz>,
}

pub struct ModuleView {
    pub id: i64,
    pub course_id: i64,
    pub title: Seq<char>,
    pub position: i32,
    pub lessons: Seq<LessonView>,
    pub quiz: Option<QuizView>,
}

impl View for Module {
    type V = ModuleView;

    open spec fn view(&self) -> ModuleView {
        ModuleView {
            id: self.id,
            course_id: self.course_id,
            title: self.title@,
            position: self.position,
            lessons: views(self.lessons@),
            quiz: match self.quiz {
                Some(q) => Some(q@),
                None => None,
            },
        }
    }
}

/// A course read back as a full tree.
#[derive(Debug)]
pub struct Course {
    pub id: i64,
    pub title: String,
    pub description: String,
    pub creator_id: String,
    pub modules: Vec<Module>,
    pub num_learners: i32,
    pub num_completed: i32,
}

pub struct CourseView {
    pub id: i64,
    pub title: Seq<char>,
    pub description: Seq<char>,
    pub creator_id: Seq<char>,
    pub modules: Seq<ModuleView>,
    pub num_learners: i32,
    pub num_completed: i32,
}

impl View for Course {
    type V = CourseView;

    open spec fn view(&self) -> CourseView {
        CourseView {
            id: self.id,
            title: self.title@,
            description: self.description@,
            creator_id: self.creator_id@,
            modules: views(self.modules@),
            num_learners: self.num_learners,
            num_completed: self.num_completed,
        }
    }
}

/// One stored course, without its modules.
#[derive(Debug)]
pub struct CourseRow {
    pub id: i64,
    pub title: String,
    pub description: String,
    pub creator_id: String,
    pub num_learners: i32,
    pub num_completed: i32,
}

pub struct CourseRowView {
    pub id: i64,
    pub title: Seq<char>,
    pub description: Seq<char>,
    pub creator_id: Seq<char>,
    pub num_learners: i32,
    pub num_completed: i32,
}

impl View for CourseRow {
    type V = CourseRowView;

    open spec fn view(&self) -> CourseRowView {
        CourseRowView {
            id: self.id,
            title: self.title@,
            description: self.description@,
            creator_id: self.creator_id@,
            num_learners: self.num_learners,
            num_completed: self.num_completed,
        }
    }
}

/// One stored module, without its lessons and quiz.
#[derive(Debug)]
pub struct ModuleRow {
    pub id: i64,
    pub course_id: i64,
    pub title: String,
    pub position: i32,
}

pub struct ModuleRowView {
    pub id: i64,
    pub course_id: i64,
    pub title: Seq<char>,
    pub position: i32,
}

impl View for ModuleRow {
    type V = ModuleRowView;

    open spec fn view(&self) -> ModuleRowView {
        ModuleRowView {
            id: self.id,
            course_id: self.course_id,
            title: self.title@,
            position: self.position,
        }
    }
}

impl Clone for ModuleRow {
    fn clone(&self) -> (copy: Self)
        ensures
            copy@ == self@,
    {
        ModuleRow {
            id: self.id,
            course_id: self.course_id,
            title: self.title.clone(),
            position: self.position,
        }
    }
}

/// One stored quiz, without its questions.
#[derive(Debug, Clone, Copy)]
pub struct QuizRow {
    pub id: i64,
    pub module_id: i64,
}

/// One stored question, without its answer options.
#[derive(Debug)]
pub struct QuestionRow {
    pub id: i64,
    pub quiz_id: i64,
    pub question_text: String,
}

pub struct QuestionRowView {
    pub id: i64,
    pub quiz_id: i64,
    pub question_text: Seq<char>,
}

impl View for QuestionRow {
    type V = QuestionRowView;

    open spec fn view(&self) -> QuestionRowView {
        QuestionRowView { id: self.id, quiz_id: self.quiz_id, question_text: self.question_text@ }
    }
}

#[derive(Debug)]
pub struct JoinCourseRequest {
    pub learner_id: String,
    pub course_id: i64,
}

#[derive(Debug)]
pub struct CourseQuery {
    pub course_id: i64,
}

#[derive(Debug)]
pub struct CreatorQuery {
    pub creator_id: String,
}

#[derive(Debug)]
pub struct NumCompletedResponse {
    pub num_completed: i64,
}

#[derive(Debug)]
pub struct CourseCreatorResponse {
    pub creator_id: String,
}

#[derive(Debug)]
pub struct UserQuery {
    pub user_id: String,
}

/// A course as its creator sees it.
#[derive(Debug)]
pub struct CreatedCourse {
    pub course_id: i64,
    pub title: String,
    pub num_learners: i64,
    pub num_completed: i64,
}

pub struct CreatedCourseView {
    pub course_id: i64,
    pub title: Seq<char>,
    pub num_learners: i64,
    pub num_completed: i64,
}

impl View for CreatedCourse {
    type V = CreatedCourseView;

    open spec fn view(&self) -> CreatedCourseView {
        CreatedCourseView {
            course_id: self.course_id,
            title: self.title@,
            num_learners: self.num_learners,
            num_completed: self.num_completed,
        }
    }
}

/// A course as an enrolled learner sees it.
#[derive(Debug)]
pub struct EnrolledCourse {
    pub course_id: i64,
    pub title: String,
    pub total_modules: i64,
    pub completed_modules: i64,
    pub progress_percent: i64,
    pub completed: bool,
}

pub struct EnrolledCourseView {
    pub course_id: i64,
    pub title: Seq<char>,
    pub total_modules: i64,
    pub completed_modules: i64,
    pub progress_percent: i64,
    pub completed: bool,
}

impl View for EnrolledCourse {
    type V = EnrolledCourseView;

    open spec fn view(&self) -> EnrolledCourseView {
        EnrolledCourseView {
            course_id: self.course_id,
            title: self.title@,
            total_modules: self.total_modules,
            completed_modules: self.completed_modules,
            progress_percent: self.progress_percent,
            completed: self.completed,
        }
    }
}

#[derive(Debug)]
pub struct UserCoursesResponse {
    pub created_courses: Vec<CreatedCourse>,
    pub enrolled_courses: Vec<EnrolledCourse>,
}

/// A course in a listing, with its enrollment, completion and module counts.
#[derive(Debug)]
pub struct CoursePreview {
    pub course_id: i64,
    pub title: String,
    pub creator_id: String,
    pub num_enrollments: i64,
    pub num_completions: i64,
    pub num_modules: i64,
}

pub struct CoursePreviewView {
    pub course_id: i64,
    pub title: Seq<char>,
    pub creator_id: Seq<char>,
    pub num_enrollments: i64,
    pub num_completions: i64,
    pub num_modules: i64,
}

impl View for CoursePreview {
    type V = CoursePreviewView;

    open spec fn view(&self) -> CoursePreviewView {
        CoursePreviewView {
            course_id: self.course_id,
            title: self.title@,
            creator_id: self.creator_id@,
            num_enrollments: self.num_enrollments,
            num_completions: self.num_completions,
            num_modules: self.num_modules,
        }
    }
}

#[derive(Debug)]
pub struct LearnerId {
    pub learner_id: String,
}

impl View for LearnerId {
    type V = Seq<char>;

    open spec fn view(&self) -> Seq<char> {
        self.learner_id@
    }
}

} // verus!

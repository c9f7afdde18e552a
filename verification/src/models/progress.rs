//! Requests about a learner's progress and the answers to them.
use vstd::prelude::*;
use crate::rules::ProgressPercent;

verus! {

#[derive(Debug)]
pub struct EnrollmentQuery {
    pub learner_id: String,
    pub course_id: i64,
}

#[derive(Debug)]
pub struct CourseProgressQuery {
    pub learner_id: String,
    pub course_id: i64,
}

/// A learner's progress in one course. The ids are in the order of the
/// course tree's rows.
#[derive(Debug)]
pub struct CourseProgressResponse {
    pub completed_lesson_ids: Vec<i64>,
    pub completed_quiz_ids: Vec<i64>,
    pub completed_module_ids: Vec<i64>,
    pub progress_percent: ProgressPercent,
    pub course_completed: bool,
}

pub struct CourseProgressView {
    pub completed_lesson_ids: Seq<i64>,
    pub completed_quiz_ids: Seq<i64>,
    pub completed_module_ids: Seq<i64>,
    pub progress_percent: ProgressPercent,
    pub course_completed: bool,
}

impl View for CourseProgressResponse {
    type V = CourseProgressView;

    open spec fn view(&self) -> CourseProgressView {
        CourseProgressView {
            completed_lesson_ids: self.completed_lesson_ids@,
            completed_quiz_ids: self.completed_quiz_ids@,
            completed_module_ids: self.completed_module_ids@,
            progress_percent: self.progress_percent,
            course_completed: self.course_completed,
        }
    }
}

/// A lesson completion to record, with the module and the course that the
/// sender takes the lesson to belong to.
#[derive(Debug)]
pub struct LessonCompleteRequest {
    pub learner_id: String,
    pub lesson_id: i64,
    pub module_id: i64,
    pub course_id: i64,
}

#[derive(Debug)]
pub struct CompletedLessonsQuery {
    pub learner_id: String,
    pub course_id: i64,
}

#[derive(Debug)]
pub struct CompletedLessonsResponse {
    pub lesson_ids: Vec<i64>,
}

#[derive(Debug)]
pub struct ModuleCompleteRequest {
    pub learner_id: String,
    pub module_id: i64,
    pub course_id: i64,
}

#[derive(Debug)]
pub struct CourseCompleteRequest {
    pub learner_id: String,
    pub course_id: i64,
}

#[derive(Debug)]
pub struct CompleteQuizPayload {
    pub quiz_id: i64,
    pub learner_id: String,
    pub score: i32,
    pub total_questions: i32,
}

/// A learner's progress in one of the courses the learner is enrolled in.
#[derive(Debug)]
pub struct CourseProgressSummary {
    pub course_id: i64,
    pub course_title: String,
    pub completed_lesson_ids: Vec<i64>,
    pub completed_quiz_ids: Vec<i64>,
    pub completed_module_ids: Vec<i64>,
    pub progress_percent: ProgressPercent,
    pub course_completed: bool,
}

pub struct CourseProgressSummaryView {
    pub course_id: i64,
    pub course_title: Seq<char>,
    pub completed_lesson_ids: Seq<i64>,
    pub completed_quiz_ids: Seq<i64>,
    pub completed_module_ids: Seq<i64>,
    pub progress_percent: ProgressPercent,
    pub course_completed: bool,
}

impl View for CourseProgressSummary {
    type V = CourseProgressSummaryView;

    open spec fn view(&self) -> CourseProgressSummaryView {
        CourseProgressSummaryView {
            course_id: self.course_id,
            course_title: self.course_title@,
            completed_lesson_ids: self.completed_lesson_ids@,
            completed_quiz_ids: self.completed_quiz_ids@,
            completed_module_ids: self.completed_module_ids@,
            progress_percent: self.progress_percent,
            course_completed: self.course_completed,
        }
    }
}

#[derive(Debug)]
pub struct LearnerQuery {
    pub learner_id: String,
}

/// A progress percentage in whole percent, from 0 to 100.
#[derive(Debug)]
pub struct CourseProgressPercentage {
    pub progress_percent: u8,
}

/// What recording a lesson completion brought about.
#[derive(Clone, Copy, Debug, PartialEq, Eq)]
pub struct LessonCompleted {
    pub module_completed: bool,
    pub course_completed: bool,
}

/// What a request to complete a module found.
#[derive(Clone, Copy, Debug, PartialEq, Eq)]
pub struct ModuleCompleted {
    pub module_completed: bool,
    pub course_completed: bool,
}

/// What a request to complete a course found.
#[derive(Clone, Copy, Debug, PartialEq, Eq)]
pub struct CourseCompleted {
    pub course_completed: bool,
}

} // verus!

//! What the engine reports of a state: progress, listings and counts, each
//! recomputed from the tables.
use vstd::prelude::*;
use crate::derivation::Fact;
use crate::models::course::{
    CoursePreviewView, CourseRowView, CreatedCourseView, EnrolledCourseView, LessonView,
    ModuleRowView, QuizRow,
};
use crate::models::progress::{CourseProgressSummaryView, CourseProgressView};
use crate::rules::{all_children_done, module_share_percent, percent_of};
use crate::selection::select;
use crate::state::{CourseRecordView, StoreState};

verus! {

/// The facts about one subject.
pub open spec fn about(subject_id: i64) -> spec_fn(Fact) -> bool {
    |fact: Fact| fact.1 == subject_id
}

/// The learner of a fact.
pub open spec fn learner_of() -> spec_fn(Fact) -> Seq<char> {
    |fact: Fact| fact.0
}

/// A count as a 64-bit signed number, held at the largest one.
pub open spec fn clip(n: int) -> i64 {
    if n > i64::MAX {
        i64::MAX
    } else {
        n as i64
    }
}

/// A count as a 32-bit signed number, held at the largest one.
pub open spec fn clip32(n: int) -> i32 {
    if n > i32::MAX {
        i32::MAX
    } else {
        n as i32
    }
}

pub open spec fn lesson_id() -> spec_fn(LessonView) -> i64 {
    |lesson: LessonView| lesson.id
}

pub open spec fn quiz_id() -> spec_fn(QuizRow) -> i64 {
    |quiz: QuizRow| quiz.id
}

pub open spec fn module_id() -> spec_fn(ModuleRowView) -> i64 {
    |module: ModuleRowView| module.id
}

/// The modules of one course.
pub open spec fn module_of_course(course_id: i64) -> spec_fn(ModuleRowView) -> bool {
    |module: ModuleRowView| module.course_id == course_id
}

/// The courses of one creator.
pub open spec fn course_of_creator(creator: Seq<char>) -> spec_fn(CourseRecordView) -> bool {
    |course: CourseRecordView| course.creator_id == creator
}

/// How far a learner has come in a course. A learner only ever moves
/// forward through these.
#[derive(Clone, Copy, Debug, PartialEq, Eq)]
pub enum CourseStatus {
    NotEnrolled,
    Enrolled,
    PartiallyComplete,
    CourseComplete,
}

impl CourseStatus {
    /// The place of the status in the order in which a learner passes
    /// through them.
    pub open spec fn rank(self) -> int {
        match self {
            CourseStatus::NotEnrolled => 0,
            CourseStatus::Enrolled => 1,
            CourseStatus::PartiallyComplete => 2,
            CourseStatus::CourseComplete => 3,
        }
    }
}

/// Whether `a` stands before `b` in a listing: more enrollments first, and
/// among equals the earlier course.
pub open spec fn ranks_before(a: CoursePreviewView, b: CoursePreviewView) -> bool {
    a.num_enrollments > b.num_enrollments || (a.num_enrollments == b.num_enrollments && a.course_id
        < b.course_id)
}

/// The first place from `from` on whose course has fewer enrollments than
/// `enrollments`, or the end of the listing.
pub open spec fn first_lower(listing: Seq<CoursePreviewView>, enrollments: i64, from: int) -> int
    decreases listing.len() - from,
{
    if from < 0 || from >= listing.len() {
        listing.len() as int
    } else if listing[from].num_enrollments < enrollments {
        from
    } else {
        first_lower(listing, enrollments, from + 1)
    }
}

/// The listing with one more course, put behind the courses with as many
/// enrollments or more.
pub open spec fn ranked_insert(listing: Seq<CoursePreviewView>, preview: CoursePreviewView) -> Seq<
    CoursePreviewView,
> {
    listing.insert(first_lower(listing, preview.num_enrollments, 0), preview)
}

impl StoreState {
    /// The learner has completed a lesson of the course.
    pub open spec fn has_progress_in(self, learner: Seq<char>, course_id: i64) -> bool {
        exists|lesson_id: i64|
            self.lesson_in_course(lesson_id, course_id) && self.lesson_done(learner, lesson_id)
    }

    /// How far the learner has come in the course.
    pub open spec fn status_of(self, learner: Seq<char>, course_id: i64) -> CourseStatus {
        if !self.enrolled(learner, course_id) {
            CourseStatus::NotEnrolled
        } else if self.course_done(learner, course_id) {
            CourseStatus::CourseComplete
        } else if self.has_progress_in(learner, course_id) {
            CourseStatus::PartiallyComplete
        } else {
            CourseStatus::Enrolled
        }
    }

    /// The listing of the first `n` courses, those with more enrollments
    /// first.
    pub open spec fn listing_upto(self, n: nat) -> Seq<CoursePreviewView>
        decreases n,
    {
        if n == 0 {
            Seq::empty()
        } else {
            ranked_insert(self.listing_upto((n - 1) as nat), self.preview_of(self.courses[n - 1]))
        }
    }

    /// The listing of all courses, those with more enrollments first.
    pub open spec fn course_listing(self) -> Seq<CoursePreviewView> {
        self.listing_upto(self.courses.len())
    }

    /// The first three of the listing of all courses.
    pub open spec fn top_courses(self) -> Seq<CoursePreviewView> {
        let listing = self.course_listing();
        if listing.len() <= 3 {
            listing
        } else {
            listing.take(3)
        }
    }

    /// The lessons of one course.
    pub open spec fn lesson_of_course(self, course_id: i64) -> spec_fn(LessonView) -> bool {
        |lesson: LessonView| self.module_in_course(lesson.module_id, course_id)
    }

    /// The lessons of one course that the learner has completed.
    pub open spec fn lesson_done_of_course(self, learner: Seq<char>, course_id: i64) -> spec_fn(
        LessonView,
    ) -> bool {
        |lesson: LessonView|
            self.module_in_course(lesson.module_id, course_id) && self.lesson_done(
                learner,
                lesson.id,
            )
    }

    /// The quizzes of one course on which the learner has a result.
    pub open spec fn quiz_done_of_course(self, learner: Seq<char>, course_id: i64) -> spec_fn(
        QuizRow,
    ) -> bool {
        |quiz: QuizRow|
            self.module_in_course(quiz.module_id, course_id) && self.quiz_done(learner, quiz.id)
    }

    /// The modules of one course for which the learner has a completion.
    pub open spec fn module_done_of_course(self, learner: Seq<char>, course_id: i64) -> spec_fn(
        ModuleRowView,
    ) -> bool {
        |module: ModuleRowView|
            module.course_id == course_id && self.module_done(learner, module.id)
    }

    /// The courses that the learner is enrolled in.
    pub open spec fn course_of_learner(self, learner: Seq<char>) -> spec_fn(CourseRecordView) -> bool {
        |course: CourseRecordView| self.enrolled(learner, course.id)
    }

    /// The number of lessons in the course.
    pub open spec fn lessons_in_course(self, course_id: i64) -> nat {
        self.lessons.filter(self.lesson_of_course(course_id)).len()
    }

    /// The number of modules in the course.
    pub open spec fn modules_in_course(self, course_id: i64) -> nat {
        self.modules.filter(module_of_course(course_id)).len()
    }

    /// The number of learners enrolled in the course.
    pub open spec fn enrollments_in(self, course_id: i64) -> nat {
        self.enrollments.filter(about(course_id)).len()
    }

    /// The number of learners who have completed the course.
    pub open spec fn completions_of(self, course_id: i64) -> nat {
        self.course_completions.filter(about(course_id)).len()
    }

    /// The ids of the course's lessons that the learner has completed, in
    /// the order of the lessons.
    pub open spec fn lessons_done_in_course(self, learner: Seq<char>, course_id: i64) -> Seq<i64> {
        select(self.lessons, self.lesson_done_of_course(learner, course_id), lesson_id())
    }

    /// The ids of the course's quizzes on which the learner has a result, in
    /// the order of the quizzes.
    pub open spec fn quizzes_done_in_course(self, learner: Seq<char>, course_id: i64) -> Seq<i64> {
        select(self.quizzes, self.quiz_done_of_course(learner, course_id), quiz_id())
    }

    /// The ids of the course's modules for which the learner has a
    /// completion, in the order of the modules.
    pub open spec fn modules_done_in_course(self, learner: Seq<char>, course_id: i64) -> Seq<i64> {
        select(self.modules, self.module_done_of_course(learner, course_id), module_id())
    }

    /// The learner's progress in the course: what the learner has completed,
    /// the progress percentage of those counts, and whether as many modules
    /// are completed as the course has, and it has one.
    pub open spec fn progress_in(self, learner: Seq<char>, course_id: i64) -> CourseProgressView {
        let lessons = self.lessons_done_in_course(learner, course_id);
        let modules = self.modules_done_in_course(learner, course_id);
        CourseProgressView {
            completed_lesson_ids: lessons,
            completed_quiz_ids: self.quizzes_done_in_course(learner, course_id),
            completed_module_ids: modules,
            progress_percent: percent_of(
                lessons.len() as int,
                self.lessons_in_course(course_id) as int,
                modules.len() as int,
                self.modules_in_course(course_id) as int,
            ),
            course_completed: all_children_done(
                self.modules_in_course(course_id) as int,
                modules.len() as int,
            ),
        }
    }

    /// The learner's progress in a course, with the course's id and title.
    pub open spec fn summary_of(self, learner: Seq<char>) -> spec_fn(
        CourseRecordView,
    ) -> CourseProgressSummaryView {
        |course: CourseRecordView|
            {
                let progress = self.progress_in(learner, course.id);
                CourseProgressSummaryView {
                    course_id: course.id,
                    course_title: course.title,
                    completed_lesson_ids: progress.completed_lesson_ids,
                    completed_quiz_ids: progress.completed_quiz_ids,
                    completed_module_ids: progress.completed_module_ids,
                    progress_percent: progress.progress_percent,
                    course_completed: progress.course_completed,
                }
            }
    }

    /// The learner's progress in every course that the learner is enrolled
    /// in, in the order of the courses.
    pub open spec fn all_progress_of(self, learner: Seq<char>) -> Seq<CourseProgressSummaryView> {
        select(self.courses, self.course_of_learner(learner), self.summary_of(learner))
    }

    /// The learners enrolled in the course, in the order in which they
    /// enrolled.
    pub open spec fn learners_of(self, course_id: i64) -> Seq<Seq<char>> {
        select(self.enrollments, about(course_id), learner_of())
    }

    /// A course as a listing shows it.
    pub open spec fn preview_of(self, course: CourseRecordView) -> CoursePreviewView {
        CoursePreviewView {
            course_id: course.id,
            title: course.title,
            creator_id: course.creator_id,
            num_enrollments: clip(self.enrollments_in(course.id) as int),
            num_completions: clip(self.completions_of(course.id) as int),
            num_modules: clip(self.modules_in_course(course.id) as int),
        }
    }

    /// A course as its creator sees it.
    pub open spec fn created_of(self) -> spec_fn(CourseRecordView) -> CreatedCourseView {
        |course: CourseRecordView|
            CreatedCourseView {
                course_id: course.id,
                title: course.title,
                num_learners: clip(self.enrollments_in(course.id) as int),
                num_completed: clip(self.completions_of(course.id) as int),
            }
    }

    /// A course as a learner enrolled in it sees it.
    pub open spec fn enrolled_of(self, learner: Seq<char>) -> spec_fn(
        CourseRecordView,
    ) -> EnrolledCourseView {
        |course: CourseRecordView|
            {
                let total = self.modules_in_course(course.id) as int;
                let completed = self.modules_done_in_course(learner, course.id).len() as int;
                EnrolledCourseView {
                    course_id: course.id,
                    title: course.title,
                    total_modules: clip(total),
                    completed_modules: clip(completed),
                    progress_percent: module_share_percent(total, completed) as i64,
                    completed: all_children_done(total, completed),
                }
            }
    }

    /// The courses that the user created, the latest first.
    pub open spec fn created_by(self, user: Seq<char>) -> Seq<CreatedCourseView> {
        select(self.courses.reverse(), course_of_creator(user), self.created_of())
    }

    /// The courses that the user is enrolled in, the latest first.
    pub open spec fn enrolled_by(self, user: Seq<char>) -> Seq<EnrolledCourseView> {
        select(self.courses.reverse(), self.course_of_learner(user), self.enrolled_of(user))
    }

    /// The row of a course as reading it back fills it in: its own columns
    /// and the numbers of its learners and of those who completed it.
    pub open spec fn course_row_of(self, course: CourseRecordView) -> CourseRowView {
        CourseRowView {
            id: course.id,
            title: course.title,
            description: course.description,
            creator_id: course.creator_id,
            num_learners: clip32(self.enrollments_in(course.id) as int),
            num_completed: clip32(self.completions_of(course.id) as int),
        }
    }

    /// The modules of the course, in order.
    pub open spec fn module_rows_of(self, course_id: i64) -> Seq<ModuleRowView> {
        self.modules.filter(module_of_course(course_id))
    }
}

/// Where a course is put into a ranked listing, everything before it ranks
/// before it and everything behind it ranks behind it.
pub proof fn lemma_first_lower(listing: Seq<CoursePreviewView>, enrollments: i64, from: int)
    requires
        0 <= from <= listing.len(),
    ensures
        from <= first_lower(listing, enrollments, from) <= listing.len(),
        forall|i: int|
            from <= i < first_lower(listing, enrollments, from) ==> (
            #[trigger] listing[i]).num_enrollments >= enrollments,
        first_lower(listing, enrollments, from) < listing.len() ==> listing[first_lower(
            listing,
            enrollments,
            from,
        )].num_enrollments < enrollments,
    decreases listing.len() - from,
{
    if from < listing.len() && listing[from].num_enrollments >= enrollments {
        lemma_first_lower(listing, enrollments, from + 1);
    }
}

/// The listing of the first `n` courses holds each of them once, as the
/// listing shows it, and is ranked: more enrollments first, and among equals
/// the earlier course.
pub proof fn law_listing_is_ranked(s: StoreState, n: nat)
    requires
        s.tree_ok(),
        n <= s.courses.len(),
    ensures
        s.listing_upto(n).len() == n,
        forall|i: int|
            0 <= i < n ==> 1 <= (#[trigger] s.listing_upto(n)[i]).course_id <= n && s.listing_upto(
                n,
            )[i] == s.preview_of(s.courses[s.listing_upto(n)[i].course_id - 1]),
        forall|i: int, j: int|
            0 <= i < j < n ==> ranks_before(
                #[trigger] s.listing_upto(n)[i],
                #[trigger] s.listing_upto(n)[j],
            ),
    decreases n,
{
    if n > 0 {
        let before = s.listing_upto((n - 1) as nat);
        let preview = s.preview_of(s.courses[n - 1]);
        let at = first_lower(before, preview.num_enrollments, 0);
        let after = s.listing_upto(n);
        law_listing_is_ranked(s, (n - 1) as nat);
        lemma_first_lower(before, preview.num_enrollments, 0);
        assert(preview.course_id == n);
        assert forall|i: int| 0 <= i < n implies 1 <= (#[trigger] after[i]).course_id <= n
            && after[i] == s.preview_of(s.courses[after[i].course_id - 1]) by {
            if i < at {
                assert(after[i] == before[i]);
            } else if i > at {
                assert(after[i] == before[i - 1]);
            }
        }
        assert forall|i: int, j: int| 0 <= i < j < n implies ranks_before(
            #[trigger] after[i],
            #[trigger] after[j],
        ) by {
            if j < at {
                assert(after[i] == before[i] && after[j] == before[j]);
            } else if j == at {
                assert(after[i] == before[i]);
            } else if i < at {
                assert(after[i] == before[i] && after[j] == before[j - 1]);
            } else if i == at {
                assert(after[j] == before[j - 1]);
                if j - 1 > at {
                    assert(ranks_before(before[at], before[j - 1]));
                }
            } else {
                assert(after[i] == before[i - 1] && after[j] == before[j - 1]);
            }
        }
    }
}

} // verus!

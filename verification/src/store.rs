//! The tables of the engine, held in memory, and the single reads and writes
//! that every operation is made of.
use vstd::prelude::*;
use crate::derivation::{insert_unique, Fact};
use crate::invariants::lemma_upsert_quiz_result;
use crate::models::course::{
    clone_opt_text, views, AnswerOption, CreateAnswerOptionPayload, CreateLessonPayload, LearnerId,
    Lesson, ModuleRow, QuestionRow, QuizRow,
};
use crate::report::{about, learner_of};
use crate::selection::{lemma_select_none, lemma_select_step, select};
use crate::rules::position_fits;
use crate::state::{course_ids, module_ids, CourseRecordView, QuizCompletionView, StoreState};

verus! {

/// A stored course: what authoring wrote down of it.
#[derive(Debug)]
pub struct CourseRecord {
    pub id: i64,
    pub title: String,
    pub description: String,
    pub creator_id: String,
}

impl View for CourseRecord {
    type V = CourseRecordView;

    open spec fn view(&self) -> CourseRecordView {
        CourseRecordView {
            id: self.id,
            title: self.title@,
            description: self.description@,
            creator_id: self.creator_id@,
        }
    }
}

/// A stored fact about a learner and one course, module or lesson.
#[derive(Debug)]
pub struct LearnerFact {
    pub learner_id: String,
    pub subject_id: i64,
}

impl View for LearnerFact {
    type V = Fact;

    open spec fn view(&self) -> Fact {
        (self.learner_id@, self.subject_id)
    }
}

/// A learner's latest result on a quiz.
#[derive(Debug)]
pub struct QuizCompletion {
    pub learner_id: String,
    pub quiz_id: i64,
    pub score: i32,
    pub total_questions: i32,
    pub completed_at: i64,
}

impl View for QuizCompletion {
    type V = QuizCompletionView;

    open spec fn view(&self) -> QuizCompletionView {
        QuizCompletionView {
            learner_id: self.learner_id@,
            quiz_id: self.quiz_id,
            score: self.score,
            total_questions: self.total_questions,
            completed_at: self.completed_at,
        }
    }
}

impl Clone for QuizCompletion {
    fn clone(&self) -> (copy: Self)
        ensures
            copy@ == self@,
    {
        QuizCompletion {
            learner_id: self.learner_id.clone(),
            quiz_id: self.quiz_id,
            score: self.score,
            total_questions: self.total_questions,
            completed_at: self.completed_at,
        }
    }
}

/// Adding an item to a sequence adds its view to the views.
pub proof fn lemma_views_push<T: View>(items: Seq<T>, item: T)
    ensures
        views(items.push(item)) == views(items).push(item@),
{
    assert(views(items.push(item)) =~= views(items).push(item@));
}

fn has_text(texts: &Vec<String>, text: &String) -> (found: bool)
    ensures
        found == views(texts@).contains(text@),
{
    let mut i: usize = 0;
    while i < texts.len()
        invariant
            i <= texts.len(),
            forall|k: int| 0 <= k < i ==> views(texts@)[k] != text@,
        decreases texts.len() - i,
    {
        if texts[i] == *text {
            assert(views(texts@)[i as int] == text@);
            return true;
        }
        i += 1;
    }
    false
}

fn add_text(texts: &mut Vec<String>, text: &String)
    ensures
        views(final(texts)@) == insert_unique(views(old(texts)@), text@),
{
    if !has_text(texts, text) {
        proof {
            lemma_views_push(texts@, *text);
        }
        texts.push(text.clone());
    }
}

fn has_fact(facts: &Vec<LearnerFact>, learner: &String, subject_id: i64) -> (found: bool)
    ensures
        found == views(facts@).contains((learner@, subject_id)),
{
    let mut i: usize = 0;
    while i < facts.len()
        invariant
            i <= facts.len(),
            forall|k: int| 0 <= k < i ==> views(facts@)[k] != (learner@, subject_id),
        decreases facts.len() - i,
    {
        if facts[i].subject_id == subject_id && facts[i].learner_id == *learner {
            assert(views(facts@)[i as int] == (learner@, subject_id));
            return true;
        }
        i += 1;
    }
    false
}

fn add_fact(facts: &mut Vec<LearnerFact>, learner: &String, subject_id: i64)
    ensures
        views(final(facts)@) == insert_unique(views(old(facts)@), (learner@, subject_id)),
{
    if !has_fact(facts, learner, subject_id) {
        let fact = LearnerFact { learner_id: learner.clone(), subject_id };
        proof {
            lemma_views_push(facts@, fact);
        }
        facts.push(fact);
    }
}

fn count_about(facts: &Vec<LearnerFact>, subject_id: i64) -> (n: usize)
    ensures
        n == views(facts@).filter(about(subject_id)).len(),
{
    let ghost rows = views(facts@);
    let mut n: usize = 0;
    let mut i: usize = 0;
    proof {
        lemma_select_none(rows, about(subject_id), learner_of());
    }
    while i < facts.len()
        invariant
            i <= facts.len(),
            rows == views(facts@),
            n == rows.take(i as int).filter(about(subject_id)).len(),
            n <= i,
        decreases facts.len() - i,
    {
        proof {
            lemma_select_step(rows, i as int, about(subject_id), learner_of());
        }
        if facts[i].subject_id == subject_id {
            n += 1;
        }
        i += 1;
    }
    n
}

/// The engine's storage.
pub struct Store {
    creators: Vec<String>,
    learners: Vec<String>,
    courses: Vec<CourseRecord>,
    modules: Vec<ModuleRow>,
    lessons: Vec<Lesson>,
    quizzes: Vec<QuizRow>,
    questions: Vec<QuestionRow>,
    answers: Vec<AnswerOption>,
    enrollments: Vec<LearnerFact>,
    lesson_completions: Vec<LearnerFact>,
    module_completions: Vec<LearnerFact>,
    course_completions: Vec<LearnerFact>,
    quiz_completions: Vec<QuizCompletion>,
}

impl View for Store {
    type V = StoreState;

    closed spec fn view(&self) -> StoreState {
        StoreState {
            creators: views(self.creators@),
            learners: views(self.learners@),
            courses: views(self.courses@),
            modules: views(self.modules@),
            lessons: views(self.lessons@),
            quizzes: self.quizzes@,
            questions: views(self.questions@),
            answers: views(self.answers@),
            enrollments: views(self.enrollments@),
            lesson_completions: views(self.lesson_completions@),
            module_completions: views(self.module_completions@),
            course_completions: views(self.course_completions@),
            quiz_completions: views(self.quiz_completions@),
        }
    }
}

impl Store {
    /// A store that holds nothing.
    pub fn new() -> (store: Store)
        ensures
            store@ == StoreState::empty(),
            store@.wf(),
    {
        let store = Store {
            creators: Vec::new(),
            learners: Vec::new(),
            courses: Vec::new(),
            modules: Vec::new(),
            lessons: Vec::new(),
            quizzes: Vec::new(),
            questions: Vec::new(),
            answers: Vec::new(),
            enrollments: Vec::new(),
            lesson_completions: Vec::new(),
            module_completions: Vec::new(),
            course_completions: Vec::new(),
            quiz_completions: Vec::new(),
        };
        proof {
            let s = store@;
            assert(s.creators =~= Seq::empty());
            assert(s.learners =~= Seq::empty());
            assert(s.courses =~= Seq::empty());
            assert(s.modules =~= Seq::empty());
            assert(s.lessons =~= Seq::empty());
            assert(s.questions =~= Seq::empty());
            assert(s.answers =~= Seq::empty());
            assert(s.enrollments =~= Seq::empty());
            assert(s.lesson_completions =~= Seq::empty());
            assert(s.module_completions =~= Seq::empty());
            assert(s.course_completions =~= Seq::empty());
            assert(s.quiz_completions =~= Seq::empty());
            lemma_empty_is_wf();
        }
        store
    }

    /// The number of courses.
    pub fn course_count(&self) -> (n: usize)
        ensures
            n == self@.courses.len(),
    {
        self.courses.len()
    }

    /// The number of modules.
    pub fn module_count(&self) -> (n: usize)
        ensures
            n == self@.modules.len(),
    {
        self.modules.len()
    }

    /// The number of lessons.
    pub fn lesson_count(&self) -> (n: usize)
        ensures
            n == self@.lessons.len(),
    {
        self.lessons.len()
    }

    /// The number of quizzes.
    pub fn quiz_count(&self) -> (n: usize)
        ensures
            n == self@.quizzes.len(),
    {
        self.quizzes.len()
    }

    /// The number of questions.
    pub fn question_count(&self) -> (n: usize)
        ensures
            n == self@.questions.len(),
    {
        self.questions.len()
    }

    /// The number of answer options.
    pub fn answer_count(&self) -> (n: usize)
        ensures
            n == self@.answers.len(),
    {
        self.answers.len()
    }

    /// The number of known learners.
    pub fn learner_count(&self) -> (n: usize)
        ensures
            n == self@.learners.len(),
    {
        self.learners.len()
    }

    /// The number of enrollments.
    pub fn enrollment_count(&self) -> (n: usize)
        ensures
            n == self@.enrollments.len(),
    {
        self.enrollments.len()
    }

    /// The number of lesson completions.
    pub fn lesson_completion_count(&self) -> (n: usize)
        ensures
            n == self@.lesson_completions.len(),
    {
        self.lesson_completions.len()
    }

    /// The number of module completions.
    pub fn module_completion_count(&self) -> (n: usize)
        ensures
            n == self@.module_completions.len(),
    {
        self.module_completions.len()
    }

    /// The number of course completions.
    pub fn course_completion_count(&self) -> (n: usize)
        ensures
            n == self@.course_completions.len(),
    {
        self.course_completions.len()
    }

    /// The number of quiz results.
    pub fn quiz_completion_count(&self) -> (n: usize)
        ensures
            n == self@.quiz_completions.len(),
    {
        self.quiz_completions.len()
    }

    /// Course row `i`, counted from zero.
    pub fn course_at(&self, i: usize) -> (row: &CourseRecord)
        requires
            i < self@.courses.len(),
        ensures
            row@ == self@.courses[i as int],
    {
        &self.courses[i]
    }

    /// Module row `i`, counted from zero.
    pub fn module_at(&self, i: usize) -> (row: &ModuleRow)
        requires
            i < self@.modules.len(),
        ensures
            row@ == self@.modules[i as int],
    {
        &self.modules[i]
    }

    /// Lesson row `i`, counted from zero.
    pub fn lesson_at(&self, i: usize) -> (row: &Lesson)
        requires
            i < self@.lessons.len(),
        ensures
            row@ == self@.lessons[i as int],
    {
        &self.lessons[i]
    }

    /// Quiz row `i`, counted from zero.
    pub fn quiz_at(&self, i: usize) -> (row: &QuizRow)
        requires
            i < self@.quizzes.len(),
        ensures
            *row == self@.quizzes[i as int],
    {
        &self.quizzes[i]
    }

    /// Learner `i`, counted from zero, in the order in which learners came.
    pub fn learner_at(&self, i: usize) -> (learner: &String)
        requires
            i < self@.learners.len(),
        ensures
            learner@ == self@.learners[i as int],
    {
        &self.learners[i]
    }

    /// Quiz result `i`, counted from zero.
    pub fn quiz_completion_at(&self, i: usize) -> (row: &QuizCompletion)
        requires
            i < self@.quiz_completions.len(),
        ensures
            row@ == self@.quiz_completions[i as int],
    {
        &self.quiz_completions[i]
    }

    /// Whether the learner is enrolled in the course.
    pub fn has_enrollment(&self, learner: &String, course_id: i64) -> (found: bool)
        ensures
            found == self@.enrolled(learner@, course_id),
    {
        has_fact(&self.enrollments, learner, course_id)
    }

    /// Whether the learner has completed the lesson.
    pub fn has_lesson_completion(&self, learner: &String, lesson_id: i64) -> (found: bool)
        ensures
            found == self@.lesson_done(learner@, lesson_id),
    {
        has_fact(&self.lesson_completions, learner, lesson_id)
    }

    /// Whether a module completion is recorded for the learner.
    pub fn has_module_completion(&self, learner: &String, module_id: i64) -> (found: bool)
        ensures
            found == self@.module_done(learner@, module_id),
    {
        has_fact(&self.module_completions, learner, module_id)
    }

    /// Whether a course completion is recorded for the learner.
    pub fn has_course_completion(&self, learner: &String, course_id: i64) -> (found: bool)
        ensures
            found == self@.course_done(learner@, course_id),
    {
        has_fact(&self.course_completions, learner, course_id)
    }

    /// Where the learner's result on the quiz is stored, if the learner has
    /// one.
    pub fn find_quiz_completion(&self, learner: &String, quiz_id: i64) -> (at: Option<usize>)
        ensures
            match at {
                Some(i) => self@.is_quiz_result(i as int, learner@, quiz_id),
                None => !self@.quiz_done(learner@, quiz_id),
            },
    {
        let mut i: usize = 0;
        while i < self.quiz_completions.len()
            invariant
                i <= self.quiz_completions.len(),
                forall|k: int| 0 <= k < i ==> !self@.is_quiz_result(k, learner@, quiz_id),
            decreases self.quiz_completions.len() - i,
        {
            if self.quiz_completions[i].quiz_id == quiz_id && self.quiz_completions[i].learner_id
                == *learner {
                return Some(i);
            }
            i += 1;
        }
        None
    }

    /// All lessons, in the order of their ids.
    pub fn lessons(&self) -> (rows: &Vec<Lesson>)
        ensures
            views(rows@) == self@.lessons,
    {
        &self.lessons
    }

    /// All quizzes, in the order of their ids.
    pub fn quizzes(&self) -> (rows: &Vec<QuizRow>)
        ensures
            rows@ == self@.quizzes,
    {
        &self.quizzes
    }

    /// All questions, in the order of their ids.
    pub fn questions(&self) -> (rows: &Vec<QuestionRow>)
        ensures
            views(rows@) == self@.questions,
    {
        &self.questions
    }

    /// All answer options, in the order of their ids.
    pub fn answers(&self) -> (rows: &Vec<AnswerOption>)
        ensures
            views(rows@) == self@.answers,
    {
        &self.answers
    }

    /// The number of learners enrolled in the course.
    pub fn enrollments_in(&self, course_id: i64) -> (n: usize)
        ensures
            n == self@.enrollments_in(course_id),
    {
        count_about(&self.enrollments, course_id)
    }

    /// The number of learners who have completed the course.
    pub fn completions_of(&self, course_id: i64) -> (n: usize)
        ensures
            n == self@.completions_of(course_id),
    {
        count_about(&self.course_completions, course_id)
    }

    /// The learners enrolled in the course, in the order in which they
    /// enrolled.
    pub fn learners_of(&self, course_id: i64) -> (learners: Vec<LearnerId>)
        ensures
            views(learners@) == self@.learners_of(course_id),
    {
        let ghost rows = views(self.enrollments@);
        let mut learners: Vec<LearnerId> = Vec::new();
        let mut i: usize = 0;
        proof {
            lemma_select_none(rows, about(course_id), learner_of());
            assert(views(learners@) =~= Seq::empty());
        }
        while i < self.enrollments.len()
            invariant
                i <= self.enrollments.len(),
                rows == views(self.enrollments@),
                views(learners@) == select(rows.take(i as int), about(course_id), learner_of()),
            decreases self.enrollments.len() - i,
        {
            proof {
                lemma_select_step(rows, i as int, about(course_id), learner_of());
            }
            if self.enrollments[i].subject_id == course_id {
                let learner = LearnerId { learner_id: self.enrollments[i].learner_id.clone() };
                proof {
                    lemma_views_push(learners@, learner);
                }
                learners.push(learner);
            }
            i += 1;
        }
        proof {
            lemma_select_none(rows, about(course_id), learner_of());
        }
        learners
    }

    pub(crate) fn push_course(
        &mut self,
        title: &String,
        description: &String,
        creator_id: &String,
    ) -> (id: i64)
        requires
            old(self)@.courses.len() < i64::MAX,
        ensures
            final(self)@ == old(self)@.with_course(title@, description@, creator_id@),
            id == old(self)@.courses.len() + 1,
    {
        let id = (self.courses.len() as u64 + 1) as i64;
        let row = CourseRecord {
            id,
            title: title.clone(),
            description: description.clone(),
            creator_id: creator_id.clone(),
        };
        proof {
            lemma_views_push(self.courses@, row);
        }
        self.courses.push(row);
        id
    }

    pub(crate) fn push_module(&mut self, course_id: i64, title: &String, position: i64) -> (id: i64)
        requires
            old(self)@.modules.len() < i64::MAX,
            position_fits(position),
        ensures
            final(self)@ == old(self)@.with_module(course_id, title@, position),
            id == old(self)@.modules.len() + 1,
    {
        let id = (self.modules.len() as u64 + 1) as i64;
        let row = ModuleRow { id, course_id, title: title.clone(), position: position as i32 };
        proof {
            lemma_views_push(self.modules@, row);
        }
        self.modules.push(row);
        id
    }

    pub(crate) fn push_lesson(&mut self, module_id: i64, lesson: &CreateLessonPayload)
        requires
            old(self)@.lessons.len() < i64::MAX,
            position_fits(lesson.position),
        ensures
            final(self)@ == old(self)@.with_lesson(module_id, lesson@),
    {
        let row = Lesson {
            id: (self.lessons.len() as u64 + 1) as i64,
            module_id,
            title: lesson.title.clone(),
            content: lesson.content.clone(),
            video_url: clone_opt_text(&lesson.video_url),
            position: lesson.position as i32,
        };
        proof {
            lemma_views_push(self.lessons@, row);
        }
        self.lessons.push(row);
    }

    pub(crate) fn push_quiz(&mut self, module_id: i64) -> (id: i64)
        requires
            old(self)@.quizzes.len() < i64::MAX,
        ensures
            final(self)@ == old(self)@.with_quiz(module_id),
            id == old(self)@.quizzes.len() + 1,
    {
        let id = (self.quizzes.len() as u64 + 1) as i64;
        self.quizzes.push(QuizRow { id, module_id });
        id
    }

    pub(crate) fn push_question(&mut self, quiz_id: i64, question_text: &String) -> (id: i64)
        requires
            old(self)@.questions.len() < i64::MAX,
        ensures
            final(self)@ == old(self)@.with_question(quiz_id, question_text@),
            id == old(self)@.questions.len() + 1,
    {
        let id = (self.questions.len() as u64 + 1) as i64;
        let row = QuestionRow { id, quiz_id, question_text: question_text.clone() };
        proof {
            lemma_views_push(self.questions@, row);
        }
        self.questions.push(row);
        id
    }

    pub(crate) fn push_answer(&mut self, question_id: i64, answer: &CreateAnswerOptionPayload)
        requires
            old(self)@.answers.len() < i64::MAX,
        ensures
            final(self)@ == old(self)@.with_answer(question_id, answer@),
    {
        let row = AnswerOption {
            id: (self.answers.len() as u64 + 1) as i64,
            question_id,
            answer_text: answer.answer_text.clone(),
            is_correct: answer.is_correct,
        };
        proof {
            lemma_views_push(self.answers@, row);
        }
        self.answers.push(row);
    }

    pub(crate) fn add_creator(&mut self, creator: &String)
        ensures
            final(self)@ == old(self)@.with_creator(creator@),
    {
        add_text(&mut self.creators, creator);
    }

    pub(crate) fn add_learner(&mut self, learner: &String)
        ensures
            final(self)@ == old(self)@.with_learner(learner@),
    {
        add_text(&mut self.learners, learner);
    }

    pub(crate) fn add_enrollment(&mut self, learner: &String, course_id: i64)
        ensures
            final(self)@ == old(self)@.with_enrollment(learner@, course_id),
    {
        add_fact(&mut self.enrollments, learner, course_id);
    }

    pub(crate) fn add_lesson_completion(&mut self, learner: &String, lesson_id: i64)
        ensures
            final(self)@ == old(self)@.with_lesson_completion(learner@, lesson_id),
    {
        add_fact(&mut self.lesson_completions, learner, lesson_id);
    }

    pub(crate) fn add_module_completion(&mut self, learner: &String, module_id: i64)
        ensures
            final(self)@ == (StoreState {
                module_completions: insert_unique(
                    old(self)@.module_completions,
                    (learner@, module_id),
                ),
                ..old(self)@
            }),
    {
        add_fact(&mut self.module_completions, learner, module_id);
    }

    pub(crate) fn add_course_completion(&mut self, learner: &String, course_id: i64)
        ensures
            final(self)@ == (StoreState {
                course_completions: insert_unique(
                    old(self)@.course_completions,
                    (learner@, course_id),
                ),
                ..old(self)@
            }),
    {
        add_fact(&mut self.course_completions, learner, course_id);
    }

    pub(crate) fn put_quiz_completion(&mut self, result: QuizCompletion)
        requires
            old(self)@.facts_are_unique(),
        ensures
            final(self)@ == (StoreState {
                quiz_completions: StoreState::upsert_quiz_result(
                    old(self)@.quiz_completions,
                    result@,
                ),
                ..old(self)@
            }),
    {
        let ghost before = views(self.quiz_completions@);
        let at = self.find_quiz_completion(&result.learner_id, result.quiz_id);
        proof {
            lemma_upsert_quiz_result(before, result@);
        }
        match at {
            Some(i) => {
                self.quiz_completions.set(i, result);
                proof {
                    assert(before[i as int].learner_id == result@.learner_id);
                    assert(views(self.quiz_completions@) =~= StoreState::upsert_quiz_result(
                        before,
                        result@,
                    ));
                }
            },
            None => {
                proof {
                    lemma_views_push(self.quiz_completions@, result);
                    assert forall|k: int| 0 <= k < before.len() implies !((
                    #[trigger] before[k]).learner_id == result@.learner_id && before[k].quiz_id
                        == result@.quiz_id) by {
                        assert(!self@.is_quiz_result(k, result@.learner_id, result@.quiz_id));
                    }
                }
                self.quiz_completions.push(result);
            },
        }
    }
}

/// The empty state is well formed.
pub proof fn lemma_empty_is_wf()
    ensures
        StoreState::empty().wf(),
{
    let s = StoreState::empty();
    assert(module_ids(s.lessons).len() == 0);
    assert(course_ids(s.modules).len() == 0);
}

} // verus!

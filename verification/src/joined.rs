//! Progress summaries computed from the rows of one joined query: a row per
//! combination of a learner's course with one of its modules, lessons and
//! quizzes, so that one id comes in many rows.
use vstd::prelude::*;
use crate::derivation::insert_unique;
use crate::models::course::views;
use crate::models::progress::{CourseProgressSummary, CourseProgressSummaryView};
use crate::rules::{all_children_done, is_fully_complete, percent_of, progress_percent};
use crate::selection::{lemma_select_none, lemma_select_step, select};
use crate::store::lemma_views_push;

verus! {

/// One row of the joined query. A course without modules, or a module
/// without lessons or without a quiz, leaves the id in question empty.
#[derive(Debug)]
pub struct ProgressRow {
    pub course_id: i64,
    pub course_title: String,
    pub lesson_id: Option<i64>,
    pub lesson_completed: bool,
    pub quiz_id: Option<i64>,
    pub quiz_completed: bool,
    pub module_id: Option<i64>,
    pub module_completed: bool,
}

pub struct ProgressRowView {
    pub course_id: i64,
    pub course_title: Seq<char>,
    pub lesson_id: Option<i64>,
    pub lesson_completed: bool,
    pub quiz_id: Option<i64>,
    pub quiz_completed: bool,
    pub module_id: Option<i64>,
    pub module_completed: bool,
}

impl View for ProgressRow {
    type V = ProgressRowView;

    open spec fn view(&self) -> ProgressRowView {
        ProgressRowView {
            course_id: self.course_id,
            course_title: self.course_title@,
            lesson_id: self.lesson_id,
            lesson_completed: self.lesson_completed,
            quiz_id: self.quiz_id,
            quiz_completed: self.quiz_completed,
            module_id: self.module_id,
            module_completed: self.module_completed,
        }
    }
}

/// The ids without repeats, each where it first occurs.
pub open spec fn distinct(ids: Seq<i64>) -> Seq<i64>
    decreases ids.len(),
{
    if ids.len() == 0 {
        Seq::empty()
    } else {
        insert_unique(distinct(ids.drop_last()), ids.last())
    }
}

/// The rows of a course that name a lesson.
pub open spec fn names_lesson(course_id: i64) -> spec_fn(ProgressRowView) -> bool {
    |row: ProgressRowView| row.course_id == course_id && row.lesson_id is Some
}

/// The rows of a course that name a completed lesson.
pub open spec fn names_done_lesson(course_id: i64) -> spec_fn(ProgressRowView) -> bool {
    |row: ProgressRowView|
        row.course_id == course_id && row.lesson_id is Some && row.lesson_completed
}

/// The rows of a course that name a completed quiz.
pub open spec fn names_done_quiz(course_id: i64) -> spec_fn(ProgressRowView) -> bool {
    |row: ProgressRowView| row.course_id == course_id && row.quiz_id is Some && row.quiz_completed
}

/// The rows of a course that name a module.
pub open spec fn names_module(course_id: i64) -> spec_fn(ProgressRowView) -> bool {
    |row: ProgressRowView| row.course_id == course_id && row.module_id is Some
}

/// The rows of a course that name a completed module.
pub open spec fn names_done_module(course_id: i64) -> spec_fn(ProgressRowView) -> bool {
    |row: ProgressRowView|
        row.course_id == course_id && row.module_id is Some && row.module_completed
}

pub open spec fn lesson_named() -> spec_fn(ProgressRowView) -> i64 {
    |row: ProgressRowView| row.lesson_id->0
}

pub open spec fn quiz_named() -> spec_fn(ProgressRowView) -> i64 {
    |row: ProgressRowView| row.quiz_id->0
}

pub open spec fn module_named() -> spec_fn(ProgressRowView) -> i64 {
    |row: ProgressRowView| row.module_id->0
}

/// The summary of the course of row `k`: its id and the title of that row,
/// every completed lesson, quiz and module once, and the progress percentage
/// and completion of the course over the numbers of distinct lessons and
/// modules that the rows name.
pub open spec fn summary_at(rows: Seq<ProgressRowView>, k: int) -> CourseProgressSummaryView {
    let course_id = rows[k].course_id;
    let lessons = distinct(select(rows, names_lesson(course_id), lesson_named()));
    let modules = distinct(select(rows, names_module(course_id), module_named()));
    let done_lessons = distinct(select(rows, names_done_lesson(course_id), lesson_named()));
    let done_quizzes = distinct(select(rows, names_done_quiz(course_id), quiz_named()));
    let done_modules = distinct(select(rows, names_done_module(course_id), module_named()));
    CourseProgressSummaryView {
        course_id,
        course_title: rows[k].course_title,
        completed_lesson_ids: done_lessons,
        completed_quiz_ids: done_quizzes,
        completed_module_ids: done_modules,
        progress_percent: percent_of(
            done_lessons.len() as int,
            lessons.len() as int,
            done_modules.len() as int,
            modules.len() as int,
        ),
        course_completed: all_children_done(modules.len() as int, done_modules.len() as int),
    }
}

/// No row before row `k` is of the course of row `k`.
pub open spec fn opens_course(rows: Seq<ProgressRowView>, k: int) -> bool {
    forall|j: int| 0 <= j < k ==> (#[trigger] rows[j]).course_id != rows[k].course_id
}

/// The summaries of the courses that the first `n` rows open, in the order
/// of those rows; each summary is taken over all rows.
pub open spec fn summaries_upto(rows: Seq<ProgressRowView>, n: nat) -> Seq<CourseProgressSummaryView>
    decreases n,
{
    if n == 0 {
        Seq::empty()
    } else if opens_course(rows, n - 1) {
        summaries_upto(rows, (n - 1) as nat).push(summary_at(rows, n - 1))
    } else {
        summaries_upto(rows, (n - 1) as nat)
    }
}

/// One summary per course among the rows, in the order in which the courses
/// first occur.
pub open spec fn progress_summaries(rows: Seq<ProgressRowView>) -> Seq<CourseProgressSummaryView> {
    summaries_upto(rows, rows.len())
}

/// An id more is kept if it is new.
pub proof fn lemma_distinct_push(ids: Seq<i64>, id: i64)
    ensures
        distinct(ids.push(id)) == insert_unique(distinct(ids), id),
        distinct(Seq::<i64>::empty()) == Seq::<i64>::empty(),
{
    assert(ids.push(id).drop_last() =~= ids);
}

fn push_unique(ids: &mut Vec<i64>, id: i64)
    ensures
        final(ids)@ == insert_unique(old(ids)@, id),
{
    let mut i: usize = 0;
    while i < ids.len()
        invariant
            i <= ids.len(),
            forall|k: int| 0 <= k < i ==> ids@[k] != id,
        decreases ids.len() - i,
    {
        if ids[i] == id {
            return;
        }
        i += 1;
    }
    ids.push(id);
}

fn row_opens_course(rows: &Vec<ProgressRow>, k: usize) -> (opens: bool)
    requires
        k < rows.len(),
    ensures
        opens == opens_course(views(rows@), k as int),
{
    let mut j: usize = 0;
    while j < k
        invariant
            j <= k,
            k < rows.len(),
            forall|t: int| 0 <= t < j ==> (#[trigger] views(rows@)[t]).course_id != views(
                rows@,
            )[k as int].course_id,
        decreases k - j,
    {
        if rows[j].course_id == rows[k].course_id {
            assert(views(rows@)[j as int].course_id == views(rows@)[k as int].course_id);
            return false;
        }
        j += 1;
    }
    true
}

fn summarize_course(rows: &Vec<ProgressRow>, k: usize) -> (summary: CourseProgressSummary)
    requires
        k < rows.len(),
    ensures
        summary@ == summary_at(views(rows@), k as int),
{
    let course_id = rows[k].course_id;
    let ghost all = views(rows@);
    let mut lessons: Vec<i64> = Vec::new();
    let mut modules: Vec<i64> = Vec::new();
    let mut done_lessons: Vec<i64> = Vec::new();
    let mut done_quizzes: Vec<i64> = Vec::new();
    let mut done_modules: Vec<i64> = Vec::new();
    let mut i: usize = 0;
    proof {
        lemma_select_none(all, names_lesson(course_id), lesson_named());
        lemma_select_none(all, names_module(course_id), module_named());
        lemma_select_none(all, names_done_lesson(course_id), lesson_named());
        lemma_select_none(all, names_done_quiz(course_id), quiz_named());
        lemma_select_none(all, names_done_module(course_id), module_named());
        lemma_distinct_push(Seq::empty(), 0);
    }
    while i < rows.len()
        invariant
            i <= rows.len(),
            all == views(rows@),
            lessons@ == distinct(select(all.take(i as int), names_lesson(course_id), lesson_named())),
            modules@ == distinct(select(all.take(i as int), names_module(course_id), module_named())),
            done_lessons@ == distinct(
                select(all.take(i as int), names_done_lesson(course_id), lesson_named()),
            ),
            done_quizzes@ == distinct(
                select(all.take(i as int), names_done_quiz(course_id), quiz_named()),
            ),
            done_modules@ == distinct(
                select(all.take(i as int), names_done_module(course_id), module_named()),
            ),
        decreases rows.len() - i,
    {
        let row = &rows[i];
        proof {
            let before = all.take(i as int);
            lemma_select_step(all, i as int, names_lesson(course_id), lesson_named());
            lemma_select_step(all, i as int, names_module(course_id), module_named());
            lemma_select_step(all, i as int, names_done_lesson(course_id), lesson_named());
            lemma_select_step(all, i as int, names_done_quiz(course_id), quiz_named());
            lemma_select_step(all, i as int, names_done_module(course_id), module_named());
            lemma_distinct_push(
                select(before, names_lesson(course_id), lesson_named()),
                row@.lesson_id->0,
            );
            lemma_distinct_push(
                select(before, names_module(course_id), module_named()),
                row@.module_id->0,
            );
            lemma_distinct_push(
                select(before, names_done_lesson(course_id), lesson_named()),
                row@.lesson_id->0,
            );
            lemma_distinct_push(
                select(before, names_done_quiz(course_id), quiz_named()),
                row@.quiz_id->0,
            );
            lemma_distinct_push(
                select(before, names_done_module(course_id), module_named()),
                row@.module_id->0,
            );
        }
        if row.course_id == course_id {
            match row.lesson_id {
                Some(id) => {
                    push_unique(&mut lessons, id);
                    if row.lesson_completed {
                        push_unique(&mut done_lessons, id);
                    }
                },
                None => {},
            }
            match row.quiz_id {
                Some(id) => {
                    if row.quiz_completed {
                        push_unique(&mut done_quizzes, id);
                    }
                },
                None => {},
            }
            match row.module_id {
                Some(id) => {
                    push_unique(&mut modules, id);
                    if row.module_completed {
                        push_unique(&mut done_modules, id);
                    }
                },
                None => {},
            }
        }
        i += 1;
    }
    let percent = progress_percent(
        done_lessons.len() as u64,
        lessons.len() as u64,
        done_modules.len() as u64,
        modules.len() as u64,
    );
    let course_completed = is_fully_complete(modules.len() as u64, done_modules.len() as u64);
    CourseProgressSummary {
        course_id,
        course_title: rows[k].course_title.clone(),
        completed_lesson_ids: done_lessons,
        completed_quiz_ids: done_quizzes,
        completed_module_ids: done_modules,
        progress_percent: percent,
        course_completed,
    }
}

/// Turns the rows of the joined query into one summary per course, in the
/// order in which the courses first occur. An id that comes in many rows
/// counts once.
pub fn summarize_progress_rows(rows: &Vec<ProgressRow>) -> (summaries: Vec<CourseProgressSummary>)
    ensures
        views(summaries@) == progress_summaries(views(rows@)),
{
    let mut summaries: Vec<CourseProgressSummary> = Vec::new();
    let mut k: usize = 0;
    proof {
        assert(views(summaries@) =~= Seq::empty());
    }
    while k < rows.len()
        invariant
            k <= rows.len(),
            views(summaries@) == summaries_upto(views(rows@), k as nat),
        decreases rows.len() - k,
    {
        if row_opens_course(rows, k) {
            let summary = summarize_course(rows, k);
            proof {
                lemma_views_push(summaries@, summary);
            }
            summaries.push(summary);
        }
        k += 1;
    }
    summaries
}

} // verus!

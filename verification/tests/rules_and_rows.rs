use course_backend::error::EngineError;
use course_backend::joined::{summarize_progress_rows, ProgressRow};
use course_backend::models::course::{AnswerOption, CourseRow, Lesson, ModuleRow, QuestionRow, QuizRow};
use course_backend::rules::{
    check_lesson_keys, checked_position, is_fully_complete, module_percent, progress_percent,
    require_lessons_complete, require_modules_complete, ProgressPercent,
};
use course_backend::tree::assemble_course;

#[test]
fn progress_of_half_the_lessons_and_half_the_modules_is_fifty() {
    assert_eq!(
        progress_percent(2, 4, 1, 2),
        ProgressPercent { whole: 50, remainder: 0, denominator: 8 }
    );
    let percent = progress_percent(2, 4, 1, 2);
    let value = percent.whole as f32 + percent.remainder as f32 / percent.denominator as f32;
    assert_eq!(value, 50.0);
}

#[test]
fn without_modules_the_module_term_counts_as_zero() {
    let with_term = progress_percent(2, 4, 0, 0);
    assert_eq!(with_term, ProgressPercent { whole: 25, remainder: 0, denominator: 4 });
    let lesson_ratio_alone = 100 * 2 / 4;
    assert!((with_term.whole as i32) < lesson_ratio_alone);
    assert_eq!(progress_percent(0, 0, 1, 2), ProgressPercent { whole: 25, remainder: 0, denominator: 2 });
    assert_eq!(progress_percent(0, 0, 0, 0), ProgressPercent { whole: 0, remainder: 0, denominator: 1 });
    assert_eq!(progress_percent(5, 0, 7, 0), ProgressPercent { whole: 0, remainder: 0, denominator: 1 });
}

#[test]
fn progress_ratios_are_held_to_one() {
    assert_eq!(progress_percent(9, 4, 1, 2), ProgressPercent { whole: 75, remainder: 0, denominator: 8 });
    assert_eq!(progress_percent(4, 4, 3, 2), ProgressPercent { whole: 100, remainder: 0, denominator: 8 });
    assert_eq!(progress_percent(1, 3, 1, 3), ProgressPercent { whole: 33, remainder: 3, denominator: 9 });
    assert_eq!(progress_percent(1, 3, 1, 7), ProgressPercent { whole: 23, remainder: 17, denominator: 21 });
    let huge = u64::MAX;
    assert_eq!(progress_percent(huge, huge, huge, huge).whole, 100);
    assert_eq!(progress_percent(huge - 1, huge, 0, huge).whole, 49);
    assert_eq!(progress_percent(huge, huge, 0, 0).truncated(), 50);
}

#[test]
fn completion_needs_a_child_and_all_children() {
    assert!(is_fully_complete(3, 3));
    assert!(is_fully_complete(1, 1));
    assert!(!is_fully_complete(0, 0));
    assert!(!is_fully_complete(3, 2));
    assert!(!is_fully_complete(3, 4));
    assert_eq!(require_lessons_complete(2, 2), Ok(()));
    assert_eq!(require_lessons_complete(2, 1), Err(EngineError::NotAllLessonsCompleted));
    assert_eq!(require_lessons_complete(0, 0), Err(EngineError::NotAllLessonsCompleted));
    assert_eq!(require_modules_complete(1, 1), Ok(()));
    assert_eq!(require_modules_complete(0, 0), Err(EngineError::NotAllModulesCompleted));
    assert_eq!(require_modules_complete(5, 4), Err(EngineError::NotAllModulesCompleted));
}

#[test]
fn lesson_keys_must_match_what_is_stored() {
    assert_eq!(check_lesson_keys(Some(3), Some(7), 3, 7), Ok(()));
    assert_eq!(check_lesson_keys(Some(3), Some(7), 4, 7), Err(EngineError::ParentMismatch));
    assert_eq!(check_lesson_keys(Some(3), Some(7), 3, 8), Err(EngineError::ParentMismatch));
    assert_eq!(check_lesson_keys(None, Some(7), 3, 7), Err(EngineError::ParentMismatch));
    assert_eq!(check_lesson_keys(Some(3), None, 3, 7), Err(EngineError::ParentMismatch));
}

#[test]
fn positions_are_narrowed_or_refused() {
    assert_eq!(checked_position(0), Some(0));
    assert_eq!(checked_position(2_147_483_647), Some(i32::MAX));
    assert_eq!(checked_position(-2_147_483_648), Some(i32::MIN));
    assert_eq!(checked_position(2_147_483_648), None);
    assert_eq!(checked_position(-2_147_483_649), None);
    assert_eq!(checked_position(i64::MAX), None);
}

#[test]
fn module_share_is_rounded_down() {
    assert_eq!(module_percent(3, 1), 33);
    assert_eq!(module_percent(3, 2), 66);
    assert_eq!(module_percent(3, 3), 100);
    assert_eq!(module_percent(0, 0), 0);
    assert_eq!(module_percent(0, 5), 0);
    assert_eq!(module_percent(2, 5), 100);
    assert_eq!(module_percent(u64::MAX, u64::MAX - 1), 99);
}

fn row(
    course_id: i64,
    title: &str,
    module: Option<(i64, bool)>,
    lesson: Option<(i64, bool)>,
    quiz: Option<(i64, bool)>,
) -> ProgressRow {
    ProgressRow {
        course_id,
        course_title: title.to_string(),
        lesson_id: lesson.map(|l| l.0),
        lesson_completed: lesson.map(|l| l.1).unwrap_or(false),
        quiz_id: quiz.map(|q| q.0),
        quiz_completed: quiz.map(|q| q.1).unwrap_or(false),
        module_id: module.map(|m| m.0),
        module_completed: module.map(|m| m.1).unwrap_or(false),
    }
}

#[test]
fn joined_rows_count_every_id_once() {
    let rows = vec![
        row(7, "Seven", Some((1, true)), Some((10, true)), Some((5, true))),
        row(7, "Seven", Some((1, true)), Some((11, true)), Some((5, true))),
        row(3, "Three", None, None, None),
        row(7, "Seven", Some((2, false)), Some((12, true)), None),
        row(7, "Seven", Some((2, false)), Some((13, false)), None),
        row(7, "Renamed", Some((1, true)), Some((10, true)), Some((5, true))),
    ];
    let summaries = summarize_progress_rows(&rows);
    assert_eq!(summaries.len(), 2);
    assert_eq!(summaries[0].course_id, 7);
    assert_eq!(summaries[0].course_title, "Seven");
    assert_eq!(summaries[0].completed_lesson_ids, vec![10, 11, 12]);
    assert_eq!(summaries[0].completed_quiz_ids, vec![5]);
    assert_eq!(summaries[0].completed_module_ids, vec![1]);
    assert_eq!(
        summaries[0].progress_percent,
        ProgressPercent { whole: 62, remainder: 4, denominator: 8 }
    );
    assert!(!summaries[0].course_completed);
    assert_eq!(summaries[1].course_id, 3);
    assert_eq!(summaries[1].course_title, "Three");
    assert!(summaries[1].completed_lesson_ids.is_empty());
    assert_eq!(summaries[1].progress_percent.whole, 0);
    assert!(!summaries[1].course_completed);
    assert!(summarize_progress_rows(&Vec::new()).is_empty());
}

#[test]
fn joined_rows_of_a_finished_course() {
    let rows = vec![
        row(1, "Done", Some((1, true)), Some((1, true)), None),
        row(1, "Done", Some((1, true)), Some((2, true)), None),
    ];
    let summaries = summarize_progress_rows(&rows);
    assert_eq!(summaries.len(), 1);
    assert_eq!(summaries[0].completed_lesson_ids, vec![1, 2]);
    assert_eq!(summaries[0].completed_module_ids, vec![1]);
    assert_eq!(summaries[0].progress_percent, ProgressPercent { whole: 100, remainder: 0, denominator: 2 });
    assert!(summaries[0].course_completed);
}

fn lesson_row(id: i64, module_id: i64) -> Lesson {
    Lesson {
        id,
        module_id,
        title: format!("lesson {}", id),
        content: String::new(),
        video_url: Some(format!("https://video/{}", id)),
        position: id as i32,
    }
}

fn module_row(id: i64) -> ModuleRow {
    ModuleRow { id, course_id: 1, title: format!("module {}", id), position: id as i32 }
}

fn answer_row(id: i64, question_id: i64) -> AnswerOption {
    AnswerOption { id, question_id, answer_text: format!("answer {}", id), is_correct: id % 2 == 0 }
}

#[test]
fn rows_are_assembled_into_a_tree() {
    let course = CourseRow {
        id: 1,
        title: "Course".to_string(),
        description: "Described".to_string(),
        creator_id: "creator".to_string(),
        num_learners: 4,
        num_completed: 2,
    };
    let modules = vec![module_row(10), module_row(20), module_row(30)];
    let lessons = vec![lesson_row(1, 20), lesson_row(2, 10), lesson_row(3, 20), lesson_row(4, 99)];
    let quizzes = vec![QuizRow { id: 5, module_id: 20 }, QuizRow { id: 6, module_id: 30 }];
    let questions = vec![
        QuestionRow { id: 100, quiz_id: 6, question_text: "q100".to_string() },
        QuestionRow { id: 101, quiz_id: 5, question_text: "q101".to_string() },
        QuestionRow { id: 102, quiz_id: 5, question_text: "q102".to_string() },
    ];
    let answers = vec![answer_row(1, 101), answer_row(2, 100), answer_row(3, 101), answer_row(4, 7)];
    let tree = assemble_course(&course, &modules, &lessons, &quizzes, &questions, &answers);
    assert_eq!(tree.id, 1);
    assert_eq!(tree.title, "Course");
    assert_eq!(tree.description, "Described");
    assert_eq!(tree.creator_id, "creator");
    assert_eq!(tree.num_learners, 4);
    assert_eq!(tree.num_completed, 2);
    assert_eq!(tree.modules.len(), 3);
    let ids = |m: usize| tree.modules[m].lessons.iter().map(|l| l.id).collect::<Vec<i64>>();
    assert_eq!(ids(0), vec![2]);
    assert_eq!(ids(1), vec![1, 3]);
    assert_eq!(ids(2), Vec::<i64>::new());
    assert_eq!(tree.modules[1].lessons[1].video_url, Some("https://video/3".to_string()));
    assert_eq!(tree.modules[1].title, "module 20");
    assert!(tree.modules[0].quiz.is_none());
    let quiz = tree.modules[1].quiz.as_ref().unwrap();
    assert_eq!(quiz.id, 5);
    assert_eq!(quiz.questions.iter().map(|q| q.id).collect::<Vec<i64>>(), vec![101, 102]);
    assert_eq!(quiz.questions[0].answers.iter().map(|a| a.id).collect::<Vec<i64>>(), vec![1, 3]);
    assert!(quiz.questions[1].answers.is_empty());
    let other = tree.modules[2].quiz.as_ref().unwrap();
    assert_eq!(other.questions.len(), 1);
    assert_eq!(other.questions[0].answers[0].answer_text, "answer 2");
    assert!(other.questions[0].answers[0].is_correct);
}

#[test]
fn repeated_ids_give_their_children_to_the_first_row() {
    let course = CourseRow {
        id: 1,
        title: String::new(),
        description: String::new(),
        creator_id: String::new(),
        num_learners: 0,
        num_completed: 0,
    };
    let modules = vec![module_row(10), module_row(10)];
    let lessons = vec![lesson_row(1, 10)];
    let quizzes = vec![
        QuizRow { id: 5, module_id: 10 },
        QuizRow { id: 6, module_id: 10 },
        QuizRow { id: 5, module_id: 11 },
    ];
    let questions = vec![QuestionRow { id: 100, quiz_id: 6, question_text: "q".to_string() }];
    let tree = assemble_course(&course, &modules, &lessons, &quizzes, &questions, &Vec::new());
    assert_eq!(tree.modules[0].lessons.len(), 1);
    assert_eq!(tree.modules[1].lessons.len(), 0);
    assert_eq!(tree.modules[0].quiz.as_ref().unwrap().id, 6);
    assert_eq!(tree.modules[0].quiz.as_ref().unwrap().questions.len(), 1);
    assert!(tree.modules[1].quiz.is_none());
}

use course_backend::engine::course::{create_course, enroll, get_course};
use course_backend::engine::progress::{
    complete_course, complete_lesson, complete_module, complete_quiz, course_status,
    get_all_course_progress, get_completed_lesson_ids, get_course_progress,
    get_course_progress_percentage, is_enrolled,
};
use course_backend::error::{EngineError, ErrorClass};
use course_backend::models::course::{
    CourseQuery, CreateAnswerOptionPayload, CreateCoursePayload, CreateLessonPayload,
    CreateModulePayload, CreateQuestionPayload, CreateQuizPayload, JoinCourseRequest,
};
use course_backend::models::progress::{
    CompleteQuizPayload, CompletedLessonsQuery, CourseCompleteRequest, CourseCompleted,
    CourseProgressQuery, EnrollmentQuery, LearnerQuery, LessonCompleteRequest, LessonCompleted,
    ModuleCompleteRequest, ModuleCompleted,
};
use course_backend::report::CourseStatus;
use course_backend::store::Store;

fn lesson(title: &str, position: i64) -> CreateLessonPayload {
    CreateLessonPayload {
        title: title.to_string(),
        content: format!("content of {}", title),
        video_url: None,
        position,
    }
}

fn module(title: &str, position: i64, lessons: Vec<CreateLessonPayload>) -> CreateModulePayload {
    CreateModulePayload { title: title.to_string(), position, lessons, quiz: None }
}

fn course(title: &str, creator: &str, modules: Vec<CreateModulePayload>) -> CreateCoursePayload {
    CreateCoursePayload {
        title: title.to_string(),
        description: format!("about {}", title),
        creator_id: creator.to_string(),
        modules,
    }
}

fn one_module_two_lessons() -> CreateCoursePayload {
    course("Rust", "creator-1", vec![module("Basics", 1, vec![lesson("A", 1), lesson("B", 2)])])
}

fn quiz_of_one_question() -> CreateQuizPayload {
    CreateQuizPayload {
        questions: vec![CreateQuestionPayload {
            question_text: "2 + 2?".to_string(),
            answers: vec![
                CreateAnswerOptionPayload { answer_text: "4".to_string(), is_correct: true },
                CreateAnswerOptionPayload { answer_text: "5".to_string(), is_correct: false },
            ],
        }],
    }
}

fn done(learner: &str, lesson_id: i64, module_id: i64, course_id: i64) -> LessonCompleteRequest {
    LessonCompleteRequest { learner_id: learner.to_string(), lesson_id, module_id, course_id }
}

fn progress_query(learner: &str, course_id: i64) -> CourseProgressQuery {
    CourseProgressQuery { learner_id: learner.to_string(), course_id }
}

#[test]
fn end_to_end_two_lessons_one_module() {
    let mut store = Store::new();
    let course_id = create_course(&mut store, &one_module_two_lessons()).unwrap();
    assert_eq!(course_id, 1);
    let joined = enroll(&mut store, &JoinCourseRequest { learner_id: "L".to_string(), course_id });
    assert_eq!(joined, Ok(1));

    let first = complete_lesson(&mut store, &done("L", 1, 1, 1)).unwrap();
    assert_eq!(first, LessonCompleted { module_completed: false, course_completed: false });
    let progress = get_course_progress(&store, &progress_query("L", 1)).unwrap();
    assert_eq!(progress.completed_lesson_ids, vec![1]);
    assert_eq!(progress.completed_module_ids, Vec::<i64>::new());
    assert_eq!(progress.progress_percent.whole, 25);
    assert_eq!(progress.progress_percent.remainder, 0);
    assert!(!progress.course_completed);
    assert_eq!(get_course_progress_percentage(&store, &progress_query("L", 1)).progress_percent, 25);

    let second = complete_lesson(&mut store, &done("L", 2, 1, 1)).unwrap();
    assert_eq!(second, LessonCompleted { module_completed: true, course_completed: true });
    let progress = get_course_progress(&store, &progress_query("L", 1)).unwrap();
    assert_eq!(progress.completed_lesson_ids, vec![1, 2]);
    assert_eq!(progress.completed_module_ids, vec![1]);
    assert_eq!(progress.progress_percent.whole, 100);
    assert_eq!(progress.progress_percent.remainder, 0);
    assert!(progress.course_completed);
    assert_eq!(
        get_course_progress_percentage(&store, &progress_query("L", 1)).progress_percent,
        100
    );
}

#[test]
fn course_completion_comes_with_the_last_lesson_and_not_before() {
    let mut store = Store::new();
    let payload = course(
        "Two modules",
        "c",
        vec![
            module("M1", 1, vec![lesson("a", 1), lesson("b", 2)]),
            module("M2", 2, vec![lesson("c", 1)]),
        ],
    );
    assert_eq!(create_course(&mut store, &payload), Ok(1));
    assert_eq!(
        complete_lesson(&mut store, &done("L", 3, 2, 1)),
        Ok(LessonCompleted { module_completed: true, course_completed: false })
    );
    assert_eq!(store.course_completion_count(), 0);
    assert_eq!(
        complete_lesson(&mut store, &done("L", 1, 1, 1)),
        Ok(LessonCompleted { module_completed: false, course_completed: false })
    );
    assert_eq!(store.course_completion_count(), 0);
    assert!(!store.has_course_completion(&"L".to_string(), 1));
    assert_eq!(
        complete_lesson(&mut store, &done("L", 2, 1, 1)),
        Ok(LessonCompleted { module_completed: true, course_completed: true })
    );
    assert!(store.has_course_completion(&"L".to_string(), 1));
    assert_eq!(store.module_completion_count(), 2);
    assert_eq!(store.course_completion_count(), 1);
}

#[test]
fn completing_a_lesson_twice_is_the_same_as_once() {
    let mut store = Store::new();
    create_course(&mut store, &one_module_two_lessons()).unwrap();
    let once = complete_lesson(&mut store, &done("L", 2, 1, 1));
    let counts = (
        store.learner_count(),
        store.enrollment_count(),
        store.lesson_completion_count(),
        store.module_completion_count(),
        store.course_completion_count(),
    );
    assert_eq!(counts, (1, 1, 1, 0, 0));
    let twice = complete_lesson(&mut store, &done("L", 2, 1, 1));
    assert_eq!(once, twice);
    assert!(twice.is_ok());
    assert_eq!(
        counts,
        (
            store.learner_count(),
            store.enrollment_count(),
            store.lesson_completion_count(),
            store.module_completion_count(),
            store.course_completion_count(),
        )
    );
    complete_lesson(&mut store, &done("L", 1, 1, 1)).unwrap();
    let again = complete_lesson(&mut store, &done("L", 1, 1, 1));
    assert_eq!(again, Ok(LessonCompleted { module_completed: true, course_completed: true }));
    assert_eq!(store.lesson_completion_count(), 2);
    assert_eq!(store.module_completion_count(), 1);
    assert_eq!(store.course_completion_count(), 1);
}

#[test]
fn an_empty_module_is_never_completed_and_blocks_its_course() {
    let mut store = Store::new();
    let payload = course(
        "With a gap",
        "c",
        vec![module("Full", 1, vec![lesson("a", 1)]), module("Empty", 2, vec![])],
    );
    create_course(&mut store, &payload).unwrap();
    assert_eq!(
        complete_lesson(&mut store, &done("L", 1, 1, 1)),
        Ok(LessonCompleted { module_completed: true, course_completed: false })
    );
    assert_eq!(
        complete_module(
            &mut store,
            &ModuleCompleteRequest { learner_id: "L".to_string(), module_id: 2, course_id: 1 }
        ),
        Err(EngineError::NotAllLessonsCompleted)
    );
    assert_eq!(
        complete_course(
            &mut store,
            &CourseCompleteRequest { learner_id: "L".to_string(), course_id: 1 }
        ),
        Err(EngineError::NotAllModulesCompleted)
    );
    assert!(!store.has_module_completion(&"L".to_string(), 2));
    assert_eq!(store.course_completion_count(), 0);
    let progress = get_course_progress(&store, &progress_query("L", 1)).unwrap();
    assert_eq!(progress.progress_percent.whole, 75);
    assert!(!progress.course_completed);
}

#[test]
fn a_course_without_modules_is_never_completed() {
    let mut store = Store::new();
    create_course(&mut store, &course("Bare", "c", vec![])).unwrap();
    enroll(&mut store, &JoinCourseRequest { learner_id: "L".to_string(), course_id: 1 }).unwrap();
    assert_eq!(
        complete_course(
            &mut store,
            &CourseCompleteRequest { learner_id: "L".to_string(), course_id: 1 }
        ),
        Err(EngineError::NotAllModulesCompleted)
    );
    let progress = get_course_progress(&store, &progress_query("L", 1)).unwrap();
    assert_eq!(progress.progress_percent.whole, 0);
    assert_eq!(progress.progress_percent.denominator, 1);
    assert!(!progress.course_completed);
}

#[test]
fn a_second_quiz_result_replaces_the_first() {
    let mut store = Store::new();
    let mut payload = one_module_two_lessons();
    payload.modules[0].quiz = Some(quiz_of_one_question());
    create_course(&mut store, &payload).unwrap();
    let first = CompleteQuizPayload {
        quiz_id: 1,
        learner_id: "L".to_string(),
        score: 0,
        total_questions: 1,
    };
    let second = CompleteQuizPayload {
        quiz_id: 1,
        learner_id: "L".to_string(),
        score: 1,
        total_questions: 1,
    };
    assert_eq!(complete_quiz(&mut store, &first, 1000), Ok(()));
    assert_eq!(store.quiz_completion_count(), 1);
    assert_eq!(complete_quiz(&mut store, &second, 2000), Ok(()));
    assert_eq!(store.quiz_completion_count(), 1);
    let at = store.find_quiz_completion(&"L".to_string(), 1).unwrap();
    let row = store.quiz_completion_at(at);
    assert_eq!(row.score, 1);
    assert_eq!(row.total_questions, 1);
    assert_eq!(row.completed_at, 2000);
    let other = CompleteQuizPayload {
        quiz_id: 1,
        learner_id: "M".to_string(),
        score: 1,
        total_questions: 1,
    };
    assert_eq!(complete_quiz(&mut store, &other, 3000), Ok(()));
    assert_eq!(store.quiz_completion_count(), 2);
    assert_eq!(store.quiz_completion_at(at).completed_at, 2000);
    assert_eq!(store.module_completion_count(), 0);
    assert_eq!(store.course_completion_count(), 0);
    let progress = course_backend::engine::progress::course_progress(&store, &"L".to_string(), 1);
    assert_eq!(progress.completed_quiz_ids, vec![1]);
    assert_eq!(progress.progress_percent.whole, 0);
}

#[test]
fn a_quiz_result_for_a_missing_quiz_is_a_storage_failure() {
    let mut store = Store::new();
    create_course(&mut store, &one_module_two_lessons()).unwrap();
    let payload = CompleteQuizPayload {
        quiz_id: 1,
        learner_id: "L".to_string(),
        score: 1,
        total_questions: 1,
    };
    assert_eq!(complete_quiz(&mut store, &payload, 5), Err(EngineError::StorageFailure));
    assert_eq!(store.quiz_completion_count(), 0);
    assert_eq!(store.learner_count(), 0);
    assert_eq!(EngineError::StorageFailure.class(), ErrorClass::Storage);
}

#[test]
fn an_invalid_position_leaves_nothing_behind() {
    let mut store = Store::new();
    create_course(&mut store, &one_module_two_lessons()).unwrap();
    let before = (
        store.course_count(),
        store.module_count(),
        store.lesson_count(),
        store.quiz_count(),
        store.question_count(),
        store.answer_count(),
    );
    let mut quizzed = module("Second", 2, vec![lesson("c", 1), lesson("d", 2_147_483_648)]);
    quizzed.quiz = Some(quiz_of_one_question());
    let payload = course(
        "Broken",
        "creator-2",
        vec![module("First", 1, vec![lesson("a", 1), lesson("b", 2)]), quizzed],
    );
    assert_eq!(
        create_course(&mut store, &payload),
        Err(EngineError::PositionOutOfRange { position: 2_147_483_648 })
    );
    assert_eq!(
        before,
        (
            store.course_count(),
            store.module_count(),
            store.lesson_count(),
            store.quiz_count(),
            store.question_count(),
            store.answer_count(),
        )
    );
    assert_eq!(before, (1, 1, 2, 0, 0, 0));
    assert!(get_course(&store, &CourseQuery { course_id: 2 }).is_err());
    assert_eq!(
        EngineError::PositionOutOfRange { position: 2_147_483_648 }.class(),
        ErrorClass::Input
    );
}

#[test]
fn the_first_invalid_position_is_the_one_reported() {
    let mut store = Store::new();
    let payload = course(
        "Broken twice",
        "c",
        vec![
            module("ok", 1, vec![lesson("a", 1), lesson("b", -2_147_483_649)]),
            module("bad", 9_000_000_000, vec![]),
        ],
    );
    assert_eq!(
        create_course(&mut store, &payload),
        Err(EngineError::PositionOutOfRange { position: -2_147_483_649 })
    );
    let payload = course(
        "Module first",
        "c",
        vec![module("bad", 9_000_000_000, vec![lesson("a", -9_000_000_000)])],
    );
    assert_eq!(
        create_course(&mut store, &payload),
        Err(EngineError::PositionOutOfRange { position: 9_000_000_000 })
    );
    assert_eq!(store.course_count(), 0);
    let edge = course(
        "Edges",
        "c",
        vec![module("m", 2_147_483_647, vec![lesson("a", -2_147_483_648)])],
    );
    assert_eq!(create_course(&mut store, &edge), Ok(1));
    let tree = get_course(&store, &CourseQuery { course_id: 1 }).unwrap();
    assert_eq!(tree.modules[0].position, 2_147_483_647);
    assert_eq!(tree.modules[0].lessons[0].position, -2_147_483_648);
}

#[test]
fn mismatched_keys_are_refused_and_change_nothing() {
    let mut store = Store::new();
    create_course(&mut store, &one_module_two_lessons()).unwrap();
    create_course(&mut store, &course("Other", "c", vec![module("m", 1, vec![lesson("x", 1)])]))
        .unwrap();
    for request in [
        done("L", 1, 2, 2),
        done("L", 1, 1, 2),
        done("L", 3, 1, 1),
        done("L", 9, 1, 1),
        done("L", 1, 9, 1),
        done("L", 0, 1, 1),
        done("L", -1, 1, 1),
        done("L", 1, 1, 9),
    ] {
        assert_eq!(complete_lesson(&mut store, &request), Err(EngineError::ParentMismatch));
    }
    assert_eq!(store.learner_count(), 0);
    assert_eq!(store.enrollment_count(), 0);
    assert_eq!(store.lesson_completion_count(), 0);
    assert_eq!(EngineError::ParentMismatch.class(), ErrorClass::Input);
    assert_eq!(
        complete_lesson(&mut store, &done("L", 3, 2, 2)),
        Ok(LessonCompleted { module_completed: true, course_completed: true })
    );
}

#[test]
fn enrolling_is_idempotent_and_needs_the_course() {
    let mut store = Store::new();
    assert_eq!(
        enroll(&mut store, &JoinCourseRequest { learner_id: "L".to_string(), course_id: 1 }),
        Err(EngineError::NotFound)
    );
    assert_eq!(store.learner_count(), 0);
    assert_eq!(EngineError::NotFound.class(), ErrorClass::NotFound);
    create_course(&mut store, &one_module_two_lessons()).unwrap();
    let query = EnrollmentQuery { learner_id: "L".to_string(), course_id: 1 };
    assert!(!is_enrolled(&store, &query));
    for _ in 0..3 {
        assert_eq!(
            enroll(&mut store, &JoinCourseRequest { learner_id: "L".to_string(), course_id: 1 }),
            Ok(1)
        );
    }
    assert!(is_enrolled(&store, &query));
    assert_eq!(store.learner_count(), 1);
    assert_eq!(store.enrollment_count(), 1);
    assert_eq!(
        enroll(&mut store, &JoinCourseRequest { learner_id: "L".to_string(), course_id: 0 }),
        Err(EngineError::NotFound)
    );
}

#[test]
fn a_lesson_completion_enrolls_the_learner() {
    let mut store = Store::new();
    create_course(&mut store, &one_module_two_lessons()).unwrap();
    let query = EnrollmentQuery { learner_id: "L".to_string(), course_id: 1 };
    assert!(!is_enrolled(&store, &query));
    complete_lesson(&mut store, &done("L", 1, 1, 1)).unwrap();
    assert!(is_enrolled(&store, &query));
    assert_eq!(store.learner_at(0), "L");
}

#[test]
fn requested_completions_answer_from_the_facts() {
    let mut store = Store::new();
    let payload = course(
        "Two modules",
        "c",
        vec![module("M1", 1, vec![lesson("a", 1)]), module("M2", 2, vec![lesson("b", 1)])],
    );
    create_course(&mut store, &payload).unwrap();
    let module_request =
        |module_id| ModuleCompleteRequest { learner_id: "L".to_string(), module_id, course_id: 1 };
    let course_request = CourseCompleteRequest { learner_id: "L".to_string(), course_id: 1 };
    assert_eq!(
        complete_module(&mut store, &module_request(1)),
        Err(EngineError::NotAllLessonsCompleted)
    );
    assert_eq!(EngineError::NotAllLessonsCompleted.class(), ErrorClass::Input);
    complete_lesson(&mut store, &done("L", 1, 1, 1)).unwrap();
    assert_eq!(
        complete_module(&mut store, &module_request(1)),
        Ok(ModuleCompleted { module_completed: true, course_completed: false })
    );
    assert_eq!(
        complete_course(&mut store, &course_request),
        Err(EngineError::NotAllModulesCompleted)
    );
    assert_eq!(EngineError::NotAllModulesCompleted.class(), ErrorClass::Input);
    complete_lesson(&mut store, &done("L", 2, 2, 1)).unwrap();
    assert_eq!(
        complete_module(&mut store, &module_request(2)),
        Ok(ModuleCompleted { module_completed: true, course_completed: true })
    );
    assert_eq!(
        complete_course(&mut store, &course_request),
        Ok(CourseCompleted { course_completed: true })
    );
    assert_eq!(store.module_completion_count(), 2);
    assert_eq!(store.course_completion_count(), 1);
    assert_eq!(
        complete_module(&mut store, &module_request(7)),
        Err(EngineError::NotAllLessonsCompleted)
    );
}

#[test]
fn progress_is_reported_only_to_the_enrolled() {
    let mut store = Store::new();
    create_course(&mut store, &one_module_two_lessons()).unwrap();
    assert_eq!(
        get_course_progress(&store, &progress_query("L", 1)).err(),
        Some(EngineError::NotFound)
    );
    assert_eq!(get_course_progress_percentage(&store, &progress_query("L", 1)).progress_percent, 0);
    enroll(&mut store, &JoinCourseRequest { learner_id: "L".to_string(), course_id: 1 }).unwrap();
    let progress = get_course_progress(&store, &progress_query("L", 1)).unwrap();
    assert_eq!(progress.completed_lesson_ids, Vec::<i64>::new());
    assert_eq!(progress.progress_percent.whole, 0);
    assert!(!progress.course_completed);
}

#[test]
fn progress_keeps_its_fraction_and_the_whole_percent_cuts_it_off() {
    let mut store = Store::new();
    let payload = course(
        "Thirds",
        "c",
        vec![module("M", 1, vec![lesson("a", 1), lesson("b", 2), lesson("c", 3)])],
    );
    create_course(&mut store, &payload).unwrap();
    complete_lesson(&mut store, &done("L", 2, 1, 1)).unwrap();
    let progress = get_course_progress(&store, &progress_query("L", 1)).unwrap();
    assert_eq!(progress.progress_percent.whole, 16);
    assert_eq!(progress.progress_percent.remainder, 2);
    assert_eq!(progress.progress_percent.denominator, 3);
    assert_eq!(get_course_progress_percentage(&store, &progress_query("L", 1)).progress_percent, 16);
    let ids = get_completed_lesson_ids(
        &store,
        &CompletedLessonsQuery { learner_id: "L".to_string(), course_id: 1 },
    );
    assert_eq!(ids.lesson_ids, vec![2]);
    complete_lesson(&mut store, &done("L", 1, 1, 1)).unwrap();
    let progress = get_course_progress(&store, &progress_query("L", 1)).unwrap();
    assert_eq!(progress.progress_percent.whole, 33);
    assert_eq!(progress.progress_percent.remainder, 1);
    assert_eq!(progress.completed_lesson_ids, vec![1, 2]);
}

#[test]
fn all_course_progress_covers_the_enrolled_courses_only() {
    let mut store = Store::new();
    create_course(&mut store, &one_module_two_lessons()).unwrap();
    create_course(&mut store, &course("Skipped", "c", vec![module("m", 1, vec![lesson("x", 1)])]))
        .unwrap();
    let mut third = course("Third", "c", vec![module("m", 1, vec![lesson("y", 1)])]);
    third.modules[0].quiz = Some(quiz_of_one_question());
    create_course(&mut store, &third).unwrap();
    complete_lesson(&mut store, &done("L", 1, 1, 1)).unwrap();
    complete_lesson(&mut store, &done("L", 4, 3, 3)).unwrap();
    complete_quiz(
        &mut store,
        &CompleteQuizPayload {
            quiz_id: 1,
            learner_id: "L".to_string(),
            score: 1,
            total_questions: 1,
        },
        7,
    )
    .unwrap();
    complete_lesson(&mut store, &done("M", 3, 2, 2)).unwrap();
    let all = get_all_course_progress(&store, &LearnerQuery { learner_id: "L".to_string() });
    assert_eq!(all.len(), 2);
    assert_eq!(all[0].course_id, 1);
    assert_eq!(all[0].course_title, "Rust");
    assert_eq!(all[0].completed_lesson_ids, vec![1]);
    assert_eq!(all[0].completed_module_ids, Vec::<i64>::new());
    assert_eq!(all[0].progress_percent.whole, 25);
    assert!(!all[0].course_completed);
    assert_eq!(all[1].course_id, 3);
    assert_eq!(all[1].course_title, "Third");
    assert_eq!(all[1].completed_lesson_ids, vec![4]);
    assert_eq!(all[1].completed_quiz_ids, vec![1]);
    assert_eq!(all[1].completed_module_ids, vec![3]);
    assert_eq!(all[1].progress_percent.whole, 100);
    assert!(all[1].course_completed);
    let none = get_all_course_progress(&store, &LearnerQuery { learner_id: "N".to_string() });
    assert!(none.is_empty());
}

#[test]
fn a_learner_only_moves_forward() {
    let mut store = Store::new();
    create_course(&mut store, &one_module_two_lessons()).unwrap();
    let learner = "L".to_string();
    assert_eq!(course_status(&store, &learner, 1), CourseStatus::NotEnrolled);
    enroll(&mut store, &JoinCourseRequest { learner_id: "L".to_string(), course_id: 1 }).unwrap();
    assert_eq!(course_status(&store, &learner, 1), CourseStatus::Enrolled);
    complete_lesson(&mut store, &done("L", 2, 1, 1)).unwrap();
    assert_eq!(course_status(&store, &learner, 1), CourseStatus::PartiallyComplete);
    complete_lesson(&mut store, &done("L", 2, 1, 1)).unwrap();
    assert_eq!(course_status(&store, &learner, 1), CourseStatus::PartiallyComplete);
    complete_lesson(&mut store, &done("L", 1, 1, 1)).unwrap();
    assert_eq!(course_status(&store, &learner, 1), CourseStatus::CourseComplete);
    create_course(&mut store, &one_module_two_lessons()).unwrap();
    assert_eq!(course_status(&store, &learner, 1), CourseStatus::CourseComplete);
    assert_eq!(course_status(&store, &learner, 2), CourseStatus::NotEnrolled);
}

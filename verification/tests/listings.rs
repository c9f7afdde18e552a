use course_backend::engine::course::{
    create_course, enroll, find_bad_position, get_all_courses, get_course, get_course_creator,
    get_learners_by_course, get_num_completed, get_top_courses, get_user_courses, has_room,
};
use course_backend::engine::progress::complete_lesson;
use course_backend::error::EngineError;
use course_backend::models::course::{
    CourseQuery, CreateAnswerOptionPayload, CreateCoursePayload, CreateLessonPayload,
    CreateModulePayload, CreateQuestionPayload, CreateQuizPayload, JoinCourseRequest, UserQuery,
};
use course_backend::models::progress::LessonCompleteRequest;
use course_backend::store::Store;

fn lesson(title: &str, position: i64) -> CreateLessonPayload {
    CreateLessonPayload {
        title: title.to_string(),
        content: format!("content of {}", title),
        video_url: Some(format!("https://video/{}", title)),
        position,
    }
}

fn small_course(title: &str, creator: &str, lessons: usize) -> CreateCoursePayload {
    CreateCoursePayload {
        title: title.to_string(),
        description: format!("about {}", title),
        creator_id: creator.to_string(),
        modules: vec![CreateModulePayload {
            title: format!("{} module", title),
            position: 1,
            lessons: (0..lessons).map(|i| lesson(&format!("{}{}", title, i), i as i64)).collect(),
            quiz: None,
        }],
    }
}

fn join(store: &mut Store, learner: &str, course_id: i64) {
    let request = JoinCourseRequest { learner_id: learner.to_string(), course_id };
    assert_eq!(enroll(store, &request), Ok(course_id));
}

fn finish(store: &mut Store, learner: &str, lesson_id: i64, module_id: i64, course_id: i64) {
    let request =
        LessonCompleteRequest { learner_id: learner.to_string(), lesson_id, module_id, course_id };
    complete_lesson(store, &request).unwrap();
}

#[test]
fn an_authored_course_reads_back_as_written() {
    let mut store = Store::new();
    create_course(&mut store, &small_course("Filler", "x", 2)).unwrap();
    let payload = CreateCoursePayload {
        title: "Algebra".to_string(),
        description: "Groups and rings".to_string(),
        creator_id: "noether".to_string(),
        modules: vec![
            CreateModulePayload {
                title: "Groups".to_string(),
                position: 10,
                lessons: vec![lesson("g1", 1), lesson("g2", 2)],
                quiz: Some(CreateQuizPayload {
                    questions: vec![
                        CreateQuestionPayload {
                            question_text: "Is Z a group?".to_string(),
                            answers: vec![
                                CreateAnswerOptionPayload {
                                    answer_text: "yes".to_string(),
                                    is_correct: true,
                                },
                                CreateAnswerOptionPayload {
                                    answer_text: "no".to_string(),
                                    is_correct: false,
                                },
                            ],
                        },
                        CreateQuestionPayload {
                            question_text: "Empty?".to_string(),
                            answers: vec![],
                        },
                    ],
                }),
            },
            CreateModulePayload {
                title: "Rings".to_string(),
                position: 20,
                lessons: vec![lesson("r1", 1)],
                quiz: None,
            },
        ],
    };
    assert_eq!(create_course(&mut store, &payload), Ok(2));
    join(&mut store, "emmy", 2);
    join(&mut store, "emil", 2);
    finish(&mut store, "emmy", 3, 2, 2);
    finish(&mut store, "emmy", 4, 2, 2);
    finish(&mut store, "emmy", 5, 3, 2);

    let tree = get_course(&store, &CourseQuery { course_id: 2 }).unwrap();
    assert_eq!(tree.id, 2);
    assert_eq!(tree.title, "Algebra");
    assert_eq!(tree.description, "Groups and rings");
    assert_eq!(tree.creator_id, "noether");
    assert_eq!(tree.num_learners, 2);
    assert_eq!(tree.num_completed, 1);
    assert_eq!(tree.modules.len(), 2);
    let groups = &tree.modules[0];
    assert_eq!((groups.id, groups.course_id, groups.position), (2, 2, 10));
    assert_eq!(groups.title, "Groups");
    assert_eq!(groups.lessons.iter().map(|l| (l.id, l.module_id)).collect::<Vec<_>>(), vec![(3, 2), (4, 2)]);
    assert_eq!(groups.lessons[1].title, "g2");
    assert_eq!(groups.lessons[1].content, "content of g2");
    assert_eq!(groups.lessons[1].video_url, Some("https://video/g2".to_string()));
    assert_eq!(groups.lessons[1].position, 2);
    let quiz = groups.quiz.as_ref().unwrap();
    assert_eq!((quiz.id, quiz.module_id), (1, 2));
    assert_eq!(quiz.questions.len(), 2);
    assert_eq!((quiz.questions[0].id, quiz.questions[0].quiz_id), (1, 1));
    assert_eq!(quiz.questions[0].question_text, "Is Z a group?");
    let answers = &quiz.questions[0].answers;
    assert_eq!(answers.len(), 2);
    assert_eq!((answers[0].id, answers[0].question_id, answers[0].is_correct), (1, 1, true));
    assert_eq!(answers[1].answer_text, "no");
    assert!(!answers[1].is_correct);
    assert!(quiz.questions[1].answers.is_empty());
    let rings = &tree.modules[1];
    assert_eq!((rings.id, rings.position), (3, 20));
    assert_eq!(rings.lessons.len(), 1);
    assert_eq!(rings.lessons[0].id, 5);
    assert!(rings.quiz.is_none());

    assert_eq!(get_course(&store, &CourseQuery { course_id: 3 }).err(), Some(EngineError::NotFound));
    assert_eq!(get_course(&store, &CourseQuery { course_id: 0 }).err(), Some(EngineError::NotFound));
    assert_eq!(store.course_count(), 2);
    assert_eq!(store.module_count(), 3);
    assert_eq!(store.lesson_count(), 5);
    assert_eq!(store.quiz_count(), 1);
    assert_eq!(store.question_count(), 2);
    assert_eq!(store.answer_count(), 2);
}

#[test]
fn the_creator_of_a_course_is_named() {
    let mut store = Store::new();
    create_course(&mut store, &small_course("A", "ada", 1)).unwrap();
    create_course(&mut store, &small_course("B", "bob", 1)).unwrap();
    assert_eq!(get_course_creator(&store, &CourseQuery { course_id: 2 }).unwrap().creator_id, "bob");
    assert_eq!(get_course_creator(&store, &CourseQuery { course_id: 1 }).unwrap().creator_id, "ada");
    assert_eq!(
        get_course_creator(&store, &CourseQuery { course_id: 3 }).err(),
        Some(EngineError::NotFound)
    );
}

#[test]
fn courses_are_listed_by_enrollments() {
    let mut store = Store::new();
    for (title, creator) in [("A", "ada"), ("B", "bob"), ("C", "ada"), ("D", "dan"), ("E", "eve")] {
        create_course(&mut store, &small_course(title, creator, 1)).unwrap();
    }
    for learner in ["l1", "l2", "l3"] {
        join(&mut store, learner, 4);
    }
    for learner in ["l1", "l2"] {
        join(&mut store, learner, 2);
        join(&mut store, learner, 5);
    }
    join(&mut store, "l1", 3);
    finish(&mut store, "l2", 4, 4, 4);
    let all = get_all_courses(&store);
    let order = all.iter().map(|c| (c.course_id, c.num_enrollments)).collect::<Vec<_>>();
    assert_eq!(order, vec![(4, 3), (2, 2), (5, 2), (3, 1), (1, 0)]);
    assert_eq!(all[0].title, "D");
    assert_eq!(all[0].creator_id, "dan");
    assert_eq!(all[0].num_completions, 1);
    assert_eq!(all[0].num_modules, 1);
    assert_eq!(all[4].num_completions, 0);
    let top = get_top_courses(&store);
    assert_eq!(top.iter().map(|c| c.course_id).collect::<Vec<_>>(), vec![4, 2, 5]);
    assert_eq!(top[1].title, "B");
}

#[test]
fn fewer_than_three_courses_are_all_on_top() {
    let mut store = Store::new();
    assert!(get_top_courses(&store).is_empty());
    assert!(get_all_courses(&store).is_empty());
    create_course(&mut store, &small_course("A", "ada", 0)).unwrap();
    create_course(&mut store, &small_course("B", "bob", 0)).unwrap();
    join(&mut store, "l", 2);
    assert_eq!(get_top_courses(&store).iter().map(|c| c.course_id).collect::<Vec<_>>(), vec![2, 1]);
}

#[test]
fn learners_and_completions_of_a_course() {
    let mut store = Store::new();
    create_course(&mut store, &small_course("A", "ada", 1)).unwrap();
    create_course(&mut store, &small_course("B", "bob", 1)).unwrap();
    join(&mut store, "zed", 1);
    join(&mut store, "amy", 2);
    join(&mut store, "amy", 1);
    join(&mut store, "zed", 1);
    let learners = get_learners_by_course(&store, &CourseQuery { course_id: 1 });
    assert_eq!(learners.iter().map(|l| l.learner_id.as_str()).collect::<Vec<_>>(), vec!["zed", "amy"]);
    assert!(get_learners_by_course(&store, &CourseQuery { course_id: 9 }).is_empty());
    assert_eq!(get_num_completed(&store, &CourseQuery { course_id: 1 }).num_completed, 0);
    finish(&mut store, "amy", 1, 1, 1);
    finish(&mut store, "bea", 1, 1, 1);
    assert_eq!(get_num_completed(&store, &CourseQuery { course_id: 1 }).num_completed, 2);
    assert_eq!(get_num_completed(&store, &CourseQuery { course_id: 2 }).num_completed, 0);
}

#[test]
fn a_users_courses_come_latest_first() {
    let mut store = Store::new();
    create_course(&mut store, &small_course("A", "ada", 1)).unwrap();
    create_course(&mut store, &small_course("B", "bob", 1)).unwrap();
    let mut three_modules = small_course("C", "ada", 1);
    three_modules.modules.push(CreateModulePayload {
        title: "second".to_string(),
        position: 2,
        lessons: vec![lesson("s", 1)],
        quiz: None,
    });
    three_modules.modules.push(CreateModulePayload {
        title: "third".to_string(),
        position: 3,
        lessons: vec![lesson("t", 1)],
        quiz: None,
    });
    create_course(&mut store, &three_modules).unwrap();
    join(&mut store, "ada", 2);
    join(&mut store, "ada", 3);
    join(&mut store, "zed", 3);
    finish(&mut store, "ada", 2, 2, 2);
    finish(&mut store, "ada", 4, 4, 3);
    let answer = get_user_courses(&store, &UserQuery { user_id: "ada".to_string() });
    let created = &answer.created_courses;
    assert_eq!(created.len(), 2);
    assert_eq!((created[0].course_id, created[0].num_learners, created[0].num_completed), (3, 2, 0));
    assert_eq!(created[0].title, "C");
    assert_eq!((created[1].course_id, created[1].num_learners, created[1].num_completed), (1, 0, 0));
    let enrolled = &answer.enrolled_courses;
    assert_eq!(enrolled.len(), 2);
    assert_eq!(enrolled[0].course_id, 3);
    assert_eq!(enrolled[0].title, "C");
    assert_eq!((enrolled[0].total_modules, enrolled[0].completed_modules), (3, 1));
    assert_eq!(enrolled[0].progress_percent, 33);
    assert!(!enrolled[0].completed);
    assert_eq!(enrolled[1].course_id, 2);
    assert_eq!((enrolled[1].total_modules, enrolled[1].completed_modules), (1, 1));
    assert_eq!(enrolled[1].progress_percent, 100);
    assert!(enrolled[1].completed);
    let nobody = get_user_courses(&store, &UserQuery { user_id: "nobody".to_string() });
    assert!(nobody.created_courses.is_empty());
    assert!(nobody.enrolled_courses.is_empty());
}

#[test]
fn payloads_are_checked_before_anything_is_written() {
    let store = Store::new();
    let good = small_course("A", "ada", 3);
    assert_eq!(find_bad_position(&good.modules), None);
    assert!(has_room(&store, &good));
    let mut bad = small_course("B", "bob", 3);
    bad.modules[0].lessons[2].position = 4_294_967_296;
    assert_eq!(find_bad_position(&bad.modules), Some(4_294_967_296));
}

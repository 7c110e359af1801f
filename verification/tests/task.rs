use task_service::task::{Priority, Task, TaskId};

#[test]
fn draft_is_open_and_bare() {
    let task = Task::draft(TaskId(42), "Buy milk".to_string());
    assert_eq!(
        task,
        Task {
            id: TaskId(42),
            title: "Buy milk".to_string(),
            completed: false,
            priority: None,
            estimated_time: None,
        }
    );
}

#[test]
fn clone_keeps_every_field() {
    let task = Task {
        id: TaskId(u128::MAX),
        title: "Plan trip".to_string(),
        completed: true,
        priority: Some(Priority::Low),
        estimated_time: Some("12 hours".to_string()),
    };
    assert_eq!(task.clone(), task);
}

#[test]
fn labels_are_the_three_keywords() {
    assert_eq!(Priority::High.label(), "High");
    assert_eq!(Priority::Medium.label(), "Medium");
    assert_eq!(Priority::Low.label(), "Low");
}

#[test]
fn from_label_reads_only_the_keywords() {
    assert_eq!(Priority::from_label("High"), Some(Priority::High));
    assert_eq!(Priority::from_label("Medium"), Some(Priority::Medium));
    assert_eq!(Priority::from_label("Low"), Some(Priority::Low));
    assert_eq!(Priority::from_label("high"), None);
    assert_eq!(Priority::from_label("Highest"), None);
    assert_eq!(Priority::from_label(" Low"), None);
    assert_eq!(Priority::from_label(""), None);
    for priority in [Priority::High, Priority::Medium, Priority::Low] {
        assert_eq!(Priority::from_label(priority.label()), Some(priority));
    }
}

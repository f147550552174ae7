use taskmaster::cli::{run_command, Command};
use taskmaster::manager::{Outcome, TaskAction, TaskManager};
use taskmaster::storage::Storage;
use taskmaster::tags::normalize_tags;
use taskmaster::task::{parse_status, Status, Task};
use taskmaster::text::{contains_text, parse_index};

fn manager_with(n: usize) -> TaskManager {
    let mut m = TaskManager::new(Storage::new());
    for i in 0..n {
        let r = m.add_task(format!("task {}", i), None, String::from("today"));
        assert!(matches!(r, Outcome::Added(_)));
    }
    m
}

fn descriptions(m: &TaskManager) -> Vec<String> {
    m.storage.tasks.iter().map(|t| t.description.clone()).collect()
}

fn ids(m: &TaskManager) -> Vec<usize> {
    m.storage.tasks.iter().map(|t| t.id).collect()
}

#[test]
fn add_rejects_empty_description() {
    let mut m = manager_with(2);
    let r = m.execute_at(TaskAction::AddTask(String::new(), None), String::from("today"));
    assert!(matches!(r, Outcome::MissingDescription));
    assert_eq!(m.storage.tasks.len(), 2);
    assert!(!r.changes_store());
}

#[test]
fn add_normalizes_tags() {
    let mut m = manager_with(0);
    match m.add_task(String::from("x"), Some(String::from(" b, a ,a")), String::from("d")) {
        Outcome::Added(t) => {
            assert_eq!(t.tags, vec![String::from("a"), String::from("b")]);
            assert_eq!(t.id, 0);
            assert_eq!(t.status, Status::Todo);
            assert_eq!(t.date, "d");
        },
        _ => panic!("expected a new task"),
    }
    match m.add_task(String::from("x"), None, String::from("d")) {
        Outcome::Added(t) => assert_eq!(t.tags, vec![String::from("none")]),
        _ => panic!("expected a new task"),
    }
    assert_eq!(ids(&m), vec![0, 1]);
}

#[test]
fn tags_drop_empty_fields_and_unicode_spaces() {
    assert_eq!(normalize_tags(&Some(String::from(",, ,"))), vec![String::from("none")]);
    assert_eq!(
        normalize_tags(&Some(String::from("\u{3000}zeta\t,Alpha,alpha, Alpha "))),
        vec![String::from("Alpha"), String::from("alpha"), String::from("zeta")]
    );
    assert_eq!(normalize_tags(&Some(String::from("ab,a,abc"))), vec![
        String::from("a"),
        String::from("ab"),
        String::from("abc")
    ]);
}

#[test]
fn mark_with_aliases_and_bogus_word() {
    let mut m = manager_with(2);
    let r = m.mark_task(1, String::from("bogus"));
    assert!(matches!(r, Outcome::UnknownStatus(ref w) if w == "bogus"));
    assert_eq!(m.storage.tasks[1].status, Status::Todo);
    assert!(matches!(m.mark_task(1, String::from("d")), Outcome::Marked(1, Status::Done)));
    assert!(matches!(m.mark_task(1, String::from("t")), Outcome::Marked(1, Status::Todo)));
    let after_t = m.storage.tasks[1].status;
    m.mark_task(1, String::from("todo"));
    assert_eq!(m.storage.tasks[1].status, after_t);
    assert!(matches!(m.mark_task(0, String::from("w")), Outcome::Marked(0, Status::InProgress)));
    assert!(matches!(m.mark_task(5, String::from("done")), Outcome::NotFound(5)));
    assert_eq!(parse_status("wip"), Some(Status::InProgress));
    assert_eq!(parse_status("Done"), None);
}

#[test]
fn remove_inclusive_range() {
    let mut m = manager_with(5);
    let r = m.remove_tasks("1..3");
    assert!(matches!(r, Outcome::Removed(3)));
    assert_eq!(descriptions(&m), vec![String::from("task 0"), String::from("task 4")]);
    assert_eq!(ids(&m), vec![0, 1]);
}

#[test]
fn remove_skips_missing_ids() {
    let mut m = manager_with(3);
    assert!(matches!(m.remove_tasks("2..10"), Outcome::Removed(1)));
    assert!(matches!(m.remove_tasks("7"), Outcome::Removed(0)));
    assert!(matches!(m.remove_tasks("0"), Outcome::Removed(1)));
    assert_eq!(descriptions(&m), vec![String::from("task 1")]);
    assert_eq!(ids(&m), vec![0]);
    assert!(matches!(m.remove_tasks("3..1"), Outcome::Removed(0)));
}

#[test]
fn remove_refuses_malformed_ids() {
    let mut m = manager_with(3);
    assert!(matches!(m.remove_tasks("x"), Outcome::MalformedIndex));
    assert!(matches!(m.remove_tasks("1.."), Outcome::MalformedIndex));
    assert!(matches!(m.remove_tasks("..2"), Outcome::MalformedIndex));
    assert_eq!(m.storage.tasks.len(), 3);
}

#[test]
fn view_and_edit_missing_id() {
    let mut m = manager_with(3);
    assert!(matches!(m.view_task(99), Outcome::NotFound(99)));
    let r = m.edit_task(99, String::from("x"));
    assert!(matches!(r, Outcome::NotFound(99)));
    assert!(!r.changes_store());
    assert_eq!(descriptions(&m), vec![String::from("task 0"), String::from("task 1"), String::from("task 2")]);
}

#[test]
fn edit_and_view_existing_task() {
    let mut m = manager_with(2);
    let r = m.edit_task(1, String::from("renamed"));
    assert!(matches!(r, Outcome::Edited(1, ref d) if d == "renamed"));
    assert!(r.changes_store());
    match m.view_task(1) {
        Outcome::Viewed(t) => {
            assert_eq!(t.description, "renamed");
            assert_eq!(t.date, "today");
            assert_eq!(t.tags, vec![String::from("none")]);
        },
        _ => panic!("expected the task"),
    }
}

#[test]
fn list_empty_store() {
    let mut m = TaskManager::new(Storage::new());
    let r = m.execute(TaskAction::ListTasks(None));
    assert!(matches!(r, Outcome::NoTasks));
}

#[test]
fn list_by_tag_and_by_text() {
    let mut m = manager_with(0);
    m.add_task(String::from("write report"), Some(String::from("work")), String::from("d"));
    m.add_task(String::from("buy milk"), Some(String::from("home,shop")), String::from("d"));
    m.add_task(String::from("report taxes"), Some(String::from("home")), String::from("d"));
    match m.list_tasks(&Some(String::from("@home"))) {
        Outcome::Listed(v) => assert_eq!(v.iter().map(|t| t.id).collect::<Vec<_>>(), vec![1, 2]),
        _ => panic!("expected a listing"),
    }
    match m.list_tasks(&Some(String::from("report"))) {
        Outcome::Listed(v) => assert_eq!(v.iter().map(|t| t.id).collect::<Vec<_>>(), vec![0, 2]),
        _ => panic!("expected a listing"),
    }
    match m.list_tasks(&Some(String::from("@@nothing"))) {
        Outcome::Listed(v) => assert!(v.is_empty()),
        _ => panic!("expected a listing"),
    }
    match m.list_tasks(&None) {
        Outcome::Listed(v) => assert_eq!(v.len(), 3),
        _ => panic!("expected a listing"),
    }
}

#[test]
fn storage_loads_and_renumbers() {
    let mut s = Storage::new();
    let t = |id: usize, d: &str| Task::new(id, String::from(d), String::from("d"), Status::Done, vec![String::from("none")]);
    s.load_tasks(Some(vec![t(4, "a"), t(9, "b")]));
    assert_eq!(s.tasks.iter().map(|t| t.id).collect::<Vec<_>>(), vec![0, 1]);
    assert!(s.task_exists(1));
    assert!(!s.task_exists(2));
    assert_eq!(s.get_task_at(1).description, "b");
    assert_eq!(s.get_tasks().len(), 2);
    assert!(s.remove_task(0));
    assert!(!s.remove_task(5));
    assert_eq!(s.get_task_at(0).id, 0);
    s.insert_task(t(7, "c"));
    s.update_tasks();
    assert_eq!(s.tasks.iter().map(|t| t.id).collect::<Vec<_>>(), vec![0, 1]);
    s.load_tasks(None);
    assert!(s.tasks.is_empty());
}

#[test]
fn run_command_help_and_add() {
    let mut m = manager_with(1);
    assert!(matches!(run_command(&mut m, Command::Help()), Outcome::Usage));
    assert_eq!(m.storage.tasks.len(), 1);
    match run_command(&mut m, Command::Add(String::from("new"), None)) {
        Outcome::Added(t) => {
            assert_eq!(t.id, 1);
            assert!(!t.date.is_empty());
        },
        _ => panic!("expected a new task"),
    }
}

#[test]
fn text_helpers() {
    assert_eq!(parse_index("42"), Some(42));
    assert_eq!(parse_index("+3"), Some(3));
    assert_eq!(parse_index(""), None);
    assert_eq!(parse_index("4a"), None);
    assert_eq!(parse_index("18446744073709551616"), None);
    assert_eq!(parse_index("18446744073709551615"), Some(usize::MAX));
    assert!(contains_text("write report", "port"));
    assert!(contains_text("abc", ""));
    assert!(!contains_text("abc", "abcd"));
    assert_eq!(Status::Done.label(), "Completed");
    assert_eq!(Status::InProgress.label(), "WIP");
    assert_eq!(Status::InProgress.column_label(), "Working");
    assert_eq!(Status::Done.column_label(), "Complete");
}

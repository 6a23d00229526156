use todo_list::shell::{command_for, input_text, parse_menu_choice, InputParseError, MenuCommand};
use todo_list::store::{FormatError, TodoList};
use todo_list::task::Task;

fn task(id: &str, description: &str, completed: bool) -> Task {
    Task { id: id.to_string(), description: description.to_string(), completed }
}

fn ids(list: TodoList) -> Vec<String> {
    list.into_tasks().into_iter().map(|t| t.id).collect()
}

#[test]
fn add_complete_remove_scenario() {
    let mut list = TodoList::load(None).unwrap();
    assert_eq!(list.len(), 0);
    let id = list.add_task("buy milk".to_string());
    assert_eq!(list.list_tasks(), vec![format!("[ ] {} - buy milk", id)]);
    list.mark_task_completed(&id);
    assert_eq!(list.list_tasks(), vec![format!("[x] {} - buy milk", id)]);
    list.remove_task(&id);
    assert!(list.list_tasks().is_empty());
}

#[test]
fn stored_record_is_listed() {
    let text = r#"{"tasks":[{"id":"a1","description":"test","completed":true}]}"#;
    let value: serde_json::Value = serde_json::from_str(text).unwrap();
    let mut tasks = Vec::new();
    for record in value["tasks"].as_array().unwrap() {
        tasks.push(task(
            record["id"].as_str().unwrap(),
            record["description"].as_str().unwrap(),
            record["completed"].as_bool().unwrap(),
        ));
    }
    let list = TodoList::load(Some(tasks)).unwrap();
    assert_eq!(list.list_tasks(), vec!["[x] a1 - test".to_string()]);
    let back = list.into_tasks();
    assert_eq!(back.len(), 1);
    assert_eq!(back[0].id, "a1");
    assert_eq!(back[0].description, "test");
    assert!(back[0].completed);
}

#[test]
fn nothing_stored_gives_empty_list() {
    let list = TodoList::load(None).unwrap();
    assert_eq!(list.len(), 0);
    assert!(list.list_tasks().is_empty());
}

#[test]
fn restoring_keeps_tasks_and_order() {
    let tasks = vec![task("b", "second", false), task("a", "first", true), task("c", "", false)];
    let list = TodoList::from_tasks(tasks).unwrap();
    let again = TodoList::from_tasks(list.into_tasks()).unwrap();
    assert_eq!(
        again.list_tasks(),
        vec!["[ ] b - second".to_string(), "[x] a - first".to_string(), "[ ] c - ".to_string()]
    );
}

#[test]
fn restoring_nothing_gives_empty_list() {
    let list = TodoList::from_tasks(Vec::new()).unwrap();
    assert_eq!(list.len(), 0);
}

#[test]
fn duplicate_ids_are_refused() {
    let tasks = vec![task("a", "one", false), task("b", "two", false), task("a", "three", true)];
    assert_eq!(TodoList::from_tasks(tasks).err(), Some(FormatError::DuplicateId));
    let tasks = vec![task("x", "one", false), task("x", "one", false)];
    assert_eq!(TodoList::load(Some(tasks)).err(), Some(FormatError::DuplicateId));
}

#[test]
fn consecutive_adds_give_distinct_ids() {
    let mut list = TodoList::new();
    let first = list.add_task("one".to_string());
    let second = list.add_task("two".to_string());
    assert_ne!(first, second);
    assert_eq!(first.len(), 36);
    assert_eq!(second.len(), 36);
    assert_eq!(ids(list), vec![first, second]);
}

#[test]
fn adds_keep_insertion_order() {
    let mut list = TodoList::new();
    let a = list.add_task("a".to_string());
    let b = list.add_task("b".to_string());
    let c = list.add_task("c".to_string());
    assert_eq!(
        list.list_tasks(),
        vec![format!("[ ] {} - a", a), format!("[ ] {} - b", b), format!("[ ] {} - c", c)]
    );
}

#[test]
fn unknown_id_changes_nothing() {
    let tasks = vec![task("a", "one", false), task("b", "two", true)];
    let mut list = TodoList::from_tasks(tasks).unwrap();
    let before = list.list_tasks();
    list.remove_task("zzz");
    assert_eq!(list.list_tasks(), before);
    list.mark_task_completed("zzz");
    assert_eq!(list.list_tasks(), before);
    list.remove_task("");
    list.mark_task_completed("A");
    assert_eq!(list.list_tasks(), before);
}

#[test]
fn completing_twice_stays_completed() {
    let tasks = vec![task("a", "one", false), task("b", "two", false)];
    let mut list = TodoList::from_tasks(tasks).unwrap();
    list.mark_task_completed("a");
    let once = list.list_tasks();
    assert_eq!(once, vec!["[x] a - one".to_string(), "[ ] b - two".to_string()]);
    list.mark_task_completed("a");
    assert_eq!(list.list_tasks(), once);
}

#[test]
fn remove_takes_only_the_match() {
    let tasks = vec![task("a", "one", false), task("b", "two", true), task("c", "three", false)];
    let mut list = TodoList::from_tasks(tasks).unwrap();
    list.remove_task("b");
    assert_eq!(list.list_tasks(), vec!["[ ] a - one".to_string(), "[ ] c - three".to_string()]);
}

#[test]
fn add_with_taken_id_is_refused() {
    let mut list = TodoList::new();
    assert!(list.add_task_with_id("a".to_string(), "one".to_string()));
    assert!(!list.add_task_with_id("a".to_string(), "other".to_string()));
    assert!(list.add_task_with_id("b".to_string(), "two".to_string()));
    assert_eq!(list.list_tasks(), vec!["[ ] a - one".to_string(), "[ ] b - two".to_string()]);
}

#[test]
fn position_of_finds_the_match() {
    let list = TodoList::from_tasks(vec![task("a", "one", false), task("b", "two", false)]).unwrap();
    assert_eq!(list.position_of("b"), Some(1));
    assert_eq!(list.position_of("c"), None);
}

#[test]
fn task_new_is_open_with_fresh_id() {
    let t = Task::new("write".to_string());
    assert_eq!(t.description, "write");
    assert!(!t.completed);
    assert_eq!(t.id.len(), 36);
    assert_eq!(t.line(), format!("[ ] {} - write", t.id));
    let u = Task::with_id("q".to_string(), "d".to_string());
    assert_eq!(u.line(), "[ ] q - d");
}

#[test]
fn menu_numbers_select_commands() {
    assert_eq!(command_for(1), MenuCommand::AddTask);
    assert_eq!(command_for(2), MenuCommand::RemoveTask);
    assert_eq!(command_for(3), MenuCommand::CompleteTask);
    assert_eq!(command_for(4), MenuCommand::ListTasks);
    assert_eq!(command_for(5), MenuCommand::SaveAndExit);
    assert_eq!(command_for(0), MenuCommand::Invalid);
    assert_eq!(command_for(6), MenuCommand::Invalid);
}

#[test]
fn menu_lines_are_trimmed_and_parsed() {
    assert_eq!(parse_menu_choice("1\n"), Ok(MenuCommand::AddTask));
    assert_eq!(parse_menu_choice("  5 \r\n"), Ok(MenuCommand::SaveAndExit));
    assert_eq!(parse_menu_choice("+4"), Ok(MenuCommand::ListTasks));
    assert_eq!(parse_menu_choice("9"), Ok(MenuCommand::Invalid));
    assert_eq!(parse_menu_choice("4294967295"), Ok(MenuCommand::Invalid));
    assert_eq!(parse_menu_choice("abc"), Err(InputParseError));
    assert_eq!(parse_menu_choice(""), Err(InputParseError));
    assert_eq!(parse_menu_choice("-1"), Err(InputParseError));
    assert_eq!(parse_menu_choice("4294967296"), Err(InputParseError));
}

#[test]
fn typed_text_is_trimmed() {
    assert_eq!(input_text("  buy milk \n"), "buy milk");
    assert_eq!(input_text("a1\r\n"), "a1");
    assert_eq!(input_text(""), "");
}

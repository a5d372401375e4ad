use kanban::codec::{load_tasks, save_tasks};
use kanban::task::{Status, Task};

fn task(title: &str, description: &str, status: Status) -> Task {
    Task { title: String::from(title), description: String::from(description), status }
}

fn assert_same_tasks(a: &[Task], b: &[Task]) {
    assert_eq!(a.len(), b.len());
    for (x, y) in a.iter().zip(b.iter()) {
        assert_eq!(x.title, y.title);
        assert_eq!(x.description, y.description);
        assert_eq!(x.status, y.status);
    }
}

#[test]
fn empty_board_saves_as_empty_array() {
    assert_eq!(save_tasks(&Vec::new()), "[]");
}

#[test]
fn one_task_saves_pretty_printed() {
    let tasks = vec![task("X", "d", Status::Doing)];
    let expected = "[\n  {\n    \"title\": \"X\",\n    \"description\": \"d\",\n    \"status\": \"Doing\"\n  }\n]";
    assert_eq!(save_tasks(&tasks), expected);
}

#[test]
fn two_tasks_save_in_backing_order() {
    let tasks = vec![task("B", "", Status::Todo), task("A", "", Status::Todo)];
    let text = save_tasks(&tasks);
    let expected = "[\n  {\n    \"title\": \"B\",\n    \"description\": \"\",\n    \"status\": \"Todo\"\n  },\n  {\n    \"title\": \"A\",\n    \"description\": \"\",\n    \"status\": \"Todo\"\n  }\n]";
    assert_eq!(text, expected);
}

#[test]
fn round_trip_preserves_every_field() {
    let tasks = vec![
        task("Groceries", "milk\neggs\nbread", Status::Todo),
        task("Déjà vu ✓", "non-ASCII: žluťoučký kůň", Status::Doing),
        task("Quotes \"and\" \\backslashes\\", "tab\there", Status::Done),
        task("control \u{1}\u{1f} chars", "", Status::Todo),
    ];
    let loaded = load_tasks(&save_tasks(&tasks));
    assert_same_tasks(&loaded, &tasks);
}

#[test]
fn round_trip_of_empty_board() {
    let loaded = load_tasks(&save_tasks(&Vec::new()));
    assert!(loaded.is_empty());
}

#[test]
fn missing_description_defaults_to_empty() {
    let loaded = load_tasks("[{\"title\":\"X\",\"status\":\"Todo\"}]");
    assert_eq!(loaded.len(), 1);
    assert_eq!(loaded[0].title, "X");
    assert_eq!(loaded[0].description, "");
    assert_eq!(loaded[0].status, Status::Todo);
}

#[test]
fn fields_load_in_any_order() {
    let loaded = load_tasks("[{\"status\": \"Done\", \"description\": \"d\", \"title\": \"t\"}]");
    assert_eq!(loaded.len(), 1);
    assert_eq!(loaded[0].title, "t");
    assert_eq!(loaded[0].description, "d");
    assert_eq!(loaded[0].status, Status::Done);
}

#[test]
fn string_escapes_decode() {
    let loaded = load_tasks(
        "[{\"title\":\"\\u0041\\n\\t\\\"q\\\"\\\\\\/\",\"status\":\"Todo\"}]",
    );
    assert_eq!(loaded.len(), 1);
    assert_eq!(loaded[0].title, "A\n\t\"q\"\\/");
}

#[test]
fn invalid_text_loads_as_empty_board() {
    assert!(load_tasks("").is_empty());
    assert!(load_tasks("not json at all").is_empty());
    assert!(load_tasks("{\"title\":\"X\"}").is_empty());
    assert!(load_tasks("[{\"title\":\"X\",\"status\":\"Todo\"}").is_empty());
    assert!(load_tasks("[{\"title\":\"X\",\"status\":\"Todo\"}] trailing").is_empty());
}

#[test]
fn missing_title_or_bad_status_loads_as_empty_board() {
    assert!(load_tasks("[{\"description\":\"d\",\"status\":\"Todo\"}]").is_empty());
    assert!(load_tasks("[{\"title\":\"X\",\"status\":\"Later\"}]").is_empty());
    assert!(load_tasks("[{\"title\":\"X\"}]").is_empty());
}

#[test]
fn duplicate_keys_load_as_empty_board() {
    assert!(load_tasks("[{\"title\":\"X\",\"title\":\"Y\",\"status\":\"Todo\"}]").is_empty());
}

#[test]
fn surrogate_escape_loads_as_empty_board() {
    assert!(load_tasks("[{\"title\":\"\\uD800\",\"status\":\"Todo\"}]").is_empty());
}

#[test]
fn whitespace_layout_is_insignificant() {
    let compact = "[{\"title\":\"X\",\"description\":\"\",\"status\":\"Todo\"}]";
    let airy = " [\r\n\t{ \"title\" : \"X\" ,\n \"description\" : \"\" ,\n \"status\" : \"Todo\" }\n ] ";
    let a = load_tasks(compact);
    let b = load_tasks(airy);
    assert_eq!(a.len(), 1);
    assert_same_tasks(&a, &b);
}

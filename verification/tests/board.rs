use kanban::app::{App, Command, Mode};
use kanban::task::{Status, Task};

fn add_task(app: &mut App, title: &str) {
    assert!(!app.handle_command(Command::NewTask));
    for c in title.chars() {
        assert!(!app.handle_command(Command::InsertChar(c)));
    }
    assert!(app.handle_command(Command::SubmitText));
}

fn column_titles(app: &App, col: usize) -> Vec<String> {
    app.get_tasks_in_column(col).into_iter().map(|t| t.title).collect()
}

#[test]
fn empty_board_starts_in_navigation() {
    let app = App::new(Vec::new());
    assert_eq!(app.active_column, 0);
    assert_eq!(app.selected_index, 0);
    assert!(matches!(app.mode, Mode::Navigation));
    assert!(app.is_well_formed());
    assert_eq!(app.get_tasks_in_column(0).len(), 0);
    assert_eq!(app.get_tasks_in_column(1).len(), 0);
    assert_eq!(app.get_tasks_in_column(2).len(), 0);
}

#[test]
fn add_advance_delete_scenario() {
    let mut app = App::new(Vec::new());
    add_task(&mut app, "Buy milk");
    assert_eq!(app.get_tasks_in_column(0).len(), 1);
    assert_eq!(app.get_tasks_in_column(1).len(), 0);
    assert_eq!(app.get_tasks_in_column(2).len(), 0);
    assert_eq!(app.get_tasks_in_column(0)[0].title, "Buy milk");

    assert!(app.handle_command(Command::AdvanceStatus));
    assert_eq!(app.get_tasks_in_column(0).len(), 0);
    assert_eq!(app.get_tasks_in_column(1).len(), 1);

    app.handle_command(Command::MoveColumnRight);
    assert_eq!(app.active_column, 1);
    assert!(!app.handle_command(Command::PromptDelete));
    assert!(matches!(app.mode, Mode::Confirm));
    assert!(app.handle_command(Command::SubmitText));
    assert!(matches!(app.mode, Mode::Navigation));
    assert_eq!(app.get_tasks_in_column(0).len(), 0);
    assert_eq!(app.get_tasks_in_column(1).len(), 0);
    assert_eq!(app.get_tasks_in_column(2).len(), 0);
}

#[test]
fn reorder_moves_task_down_in_view() {
    let mut app = App::new(Vec::new());
    add_task(&mut app, "A");
    add_task(&mut app, "B");
    assert_eq!(column_titles(&app, 0), vec!["A", "B"]);
    assert_eq!(app.selected_index, 0);

    assert!(app.handle_command(Command::ReorderDown));
    assert_eq!(column_titles(&app, 0), vec!["B", "A"]);
    assert_eq!(app.selected_index, 1);
}

#[test]
fn reorder_boundaries_are_no_ops() {
    let mut app = App::new(Vec::new());
    add_task(&mut app, "A");
    add_task(&mut app, "B");

    assert!(!app.handle_command(Command::ReorderUp));
    assert_eq!(column_titles(&app, 0), vec!["A", "B"]);
    assert_eq!(app.selected_index, 0);

    app.handle_command(Command::MoveSelectionDown);
    assert_eq!(app.selected_index, 1);
    assert!(!app.handle_command(Command::ReorderDown));
    assert_eq!(column_titles(&app, 0), vec!["A", "B"]);
    assert_eq!(app.selected_index, 1);
}

#[test]
fn reorder_up_then_down_restores_order() {
    let mut app = App::new(Vec::new());
    add_task(&mut app, "A");
    add_task(&mut app, "B");
    add_task(&mut app, "C");
    app.handle_command(Command::MoveSelectionDown);
    assert_eq!(app.selected_index, 1);

    assert!(app.handle_command(Command::ReorderUp));
    assert_eq!(column_titles(&app, 0), vec!["B", "A", "C"]);
    assert_eq!(app.selected_index, 0);
    assert!(app.handle_command(Command::ReorderDown));
    assert_eq!(column_titles(&app, 0), vec!["A", "B", "C"]);
    assert_eq!(app.selected_index, 1);
}

#[test]
fn advance_status_cycles_through_all_lanes() {
    let mut app = App::new(vec![Task {
        title: String::from("T"),
        description: String::new(),
        status: Status::Todo,
    }]);
    app.handle_command(Command::AdvanceStatus);
    assert_eq!(app.get_tasks_in_column(1)[0].status, Status::Doing);
    app.handle_command(Command::AdvanceStatus);
    // The cursor follows nothing: the task left the active Todo column, so
    // further advances must be issued from its current column.
    assert_eq!(app.get_tasks_in_column(1).len(), 1);
    app.handle_command(Command::MoveColumnRight);
    app.handle_command(Command::AdvanceStatus);
    assert_eq!(app.get_tasks_in_column(2)[0].status, Status::Done);
    app.handle_command(Command::MoveColumnRight);
    app.handle_command(Command::AdvanceStatus);
    assert_eq!(app.get_tasks_in_column(0)[0].status, Status::Todo);
}

#[test]
fn advance_status_keeps_backing_position() {
    // Advancing a task's status mutates it in place: when it later returns
    // to its old lane it stands where it stood, not at the end.
    let mut app = App::new(vec![
        Task { title: String::from("first"), description: String::new(), status: Status::Todo },
        Task { title: String::from("second"), description: String::new(), status: Status::Todo },
    ]);
    // Send "first" around the whole cycle and back to Todo.
    app.handle_command(Command::AdvanceStatus);
    app.handle_command(Command::MoveColumnRight);
    app.handle_command(Command::AdvanceStatus);
    app.handle_command(Command::MoveColumnRight);
    app.handle_command(Command::AdvanceStatus);
    assert_eq!(column_titles(&app, 0), vec!["first", "second"]);
}

#[test]
fn advance_status_clamps_selection() {
    let mut app = App::new(vec![
        Task { title: String::from("a"), description: String::new(), status: Status::Todo },
        Task { title: String::from("b"), description: String::new(), status: Status::Todo },
    ]);
    app.handle_command(Command::MoveSelectionDown);
    assert_eq!(app.selected_index, 1);
    // "b" leaves the Todo view; the cursor is clamped onto the last entry.
    app.handle_command(Command::AdvanceStatus);
    assert_eq!(app.get_tasks_in_column(0).len(), 1);
    assert_eq!(app.selected_index, 0);
    assert!(app.is_well_formed());
}

#[test]
fn whitespace_only_quick_add_is_a_cancel() {
    let mut app = App::new(Vec::new());
    app.handle_command(Command::NewTask);
    app.handle_command(Command::InsertChar(' '));
    app.handle_command(Command::InsertChar('\t'));
    app.handle_command(Command::InsertChar(' '));
    assert!(!app.handle_command(Command::SubmitText));
    assert!(matches!(app.mode, Mode::Navigation));
    assert_eq!(app.get_tasks_in_column(0).len(), 0);
}

#[test]
fn whitespace_only_edit_title_discards_but_closes() {
    let mut app = App::new(Vec::new());
    add_task(&mut app, "Keep me");
    app.handle_command(Command::OpenEdit);
    assert!(matches!(app.mode, Mode::EditTask { .. }));
    // Erase the whole title, then save: the edit is discarded, the popup
    // still closes, the task is untouched.
    for _ in 0.."Keep me".len() {
        app.handle_command(Command::DeleteBackward);
    }
    assert!(!app.handle_command(Command::SubmitText));
    assert!(matches!(app.mode, Mode::Navigation));
    assert_eq!(column_titles(&app, 0), vec!["Keep me"]);
}

#[test]
fn quick_add_trims_and_joins_title() {
    let mut app = App::new(Vec::new());
    add_task(&mut app, "  spaced out  ");
    assert_eq!(column_titles(&app, 0), vec!["spaced out"]);
}

#[test]
fn column_navigation_clamps_and_resets_selection() {
    let mut app = App::new(Vec::new());
    add_task(&mut app, "A");
    add_task(&mut app, "B");
    app.handle_command(Command::MoveSelectionDown);
    assert_eq!(app.selected_index, 1);

    app.handle_command(Command::MoveColumnRight);
    assert_eq!(app.active_column, 1);
    assert_eq!(app.selected_index, 0);
    app.handle_command(Command::MoveColumnRight);
    app.handle_command(Command::MoveColumnRight);
    assert_eq!(app.active_column, 2);
    app.handle_command(Command::MoveColumnLeft);
    app.handle_command(Command::MoveColumnLeft);
    app.handle_command(Command::MoveColumnLeft);
    assert_eq!(app.active_column, 0);
}

#[test]
fn selection_navigation_clamps_without_wraparound() {
    let mut app = App::new(Vec::new());
    add_task(&mut app, "A");
    add_task(&mut app, "B");
    app.handle_command(Command::MoveSelectionUp);
    assert_eq!(app.selected_index, 0);
    app.handle_command(Command::MoveSelectionDown);
    app.handle_command(Command::MoveSelectionDown);
    assert_eq!(app.selected_index, 1);
}

#[test]
fn delete_steps_cursor_up() {
    let mut app = App::new(Vec::new());
    add_task(&mut app, "A");
    add_task(&mut app, "B");
    app.handle_command(Command::MoveSelectionDown);
    app.handle_command(Command::PromptDelete);
    assert!(app.handle_command(Command::SubmitText));
    assert_eq!(column_titles(&app, 0), vec!["A"]);
    assert_eq!(app.selected_index, 0);
}

#[test]
fn delete_prompt_declined_mutates_nothing() {
    let mut app = App::new(Vec::new());
    add_task(&mut app, "A");
    app.handle_command(Command::PromptDelete);
    assert!(matches!(app.mode, Mode::Confirm));
    assert!(!app.handle_command(Command::CancelText));
    assert!(matches!(app.mode, Mode::Navigation));
    assert_eq!(app.get_tasks_in_column(0).len(), 1);
}

#[test]
fn delete_prompt_needs_a_task() {
    let mut app = App::new(Vec::new());
    app.handle_command(Command::PromptDelete);
    assert!(matches!(app.mode, Mode::Navigation));
}

#[test]
fn view_mode_is_read_only() {
    let mut app = App::new(vec![Task {
        title: String::from("T"),
        description: String::from("line one\nline two"),
        status: Status::Todo,
    }]);
    app.handle_command(Command::OpenView);
    assert!(matches!(app.mode, Mode::ViewDetail));
    let (title, desc) = app.get_current_task_info();
    assert_eq!(title, "T");
    assert_eq!(desc, "line one\nline two");
    // Navigation commands are blocked while the popup is open.
    app.handle_command(Command::MoveColumnRight);
    assert_eq!(app.active_column, 0);
    app.handle_command(Command::CancelText);
    assert!(matches!(app.mode, Mode::Navigation));
    assert_eq!(app.get_tasks_in_column(0).len(), 1);
}

#[test]
fn view_mode_needs_a_task() {
    let mut app = App::new(Vec::new());
    app.handle_command(Command::OpenView);
    assert!(matches!(app.mode, Mode::Navigation));
}

#[test]
fn edit_flow_rewrites_title_and_description() {
    let mut app = App::new(Vec::new());
    add_task(&mut app, "draft");
    app.handle_command(Command::OpenEdit);
    match &app.mode {
        Mode::EditTask { title, description, .. } => {
            // Title buffer loaded with the cursor at its end, description
            // with the cursor at its start.
            assert_eq!(title.chars.iter().collect::<String>(), "draft");
            assert_eq!(title.cursor, 5);
            assert_eq!(description.cursor, 0);
        }
        other => panic!("expected the edit popup, found {:?}", other),
    }
    app.handle_command(Command::InsertChar('!'));
    app.handle_command(Command::ToggleFocus);
    for c in "note".chars() {
        app.handle_command(Command::InsertChar(c));
    }
    assert!(app.handle_command(Command::SubmitText));
    assert!(matches!(app.mode, Mode::Navigation));
    let tasks = app.get_tasks_in_column(0);
    assert_eq!(tasks[0].title, "draft!");
    assert_eq!(tasks[0].description, "note");
}

#[test]
fn edit_cancel_discards_buffers() {
    let mut app = App::new(Vec::new());
    add_task(&mut app, "stable");
    app.handle_command(Command::OpenEdit);
    app.handle_command(Command::InsertChar('x'));
    app.handle_command(Command::CancelText);
    assert_eq!(column_titles(&app, 0), vec!["stable"]);
}

#[test]
fn buffer_editing_follows_character_boundaries() {
    let mut app = App::new(Vec::new());
    app.handle_command(Command::NewTask);
    for c in "héllo".chars() {
        app.handle_command(Command::InsertChar(c));
    }
    app.handle_command(Command::CursorLeft);
    app.handle_command(Command::CursorLeft);
    app.handle_command(Command::DeleteBackward);
    app.handle_command(Command::SubmitText);
    assert_eq!(column_titles(&app, 0), vec!["hélo"]);
}

#[test]
fn cursor_clamps_at_both_ends() {
    let mut app = App::new(Vec::new());
    app.handle_command(Command::NewTask);
    app.handle_command(Command::CursorLeft);
    app.handle_command(Command::DeleteBackward);
    app.handle_command(Command::InsertChar('a'));
    app.handle_command(Command::CursorRight);
    app.handle_command(Command::CursorRight);
    match &app.mode {
        Mode::QuickAdd { title } => {
            assert_eq!(title.cursor, 1);
            assert_eq!(title.chars, vec!['a']);
        }
        other => panic!("expected the quick-add prompt, found {:?}", other),
    }
}

#[test]
fn selection_invariant_holds_over_command_storm() {
    let mut app = App::new(Vec::new());
    let script = [
        Command::NewTask,
        Command::InsertChar('x'),
        Command::SubmitText,
        Command::NewTask,
        Command::InsertChar('y'),
        Command::SubmitText,
        Command::NewTask,
        Command::InsertChar('z'),
        Command::SubmitText,
        Command::MoveSelectionDown,
        Command::AdvanceStatus,
        Command::MoveSelectionDown,
        Command::ReorderDown,
        Command::ReorderUp,
        Command::PromptDelete,
        Command::SubmitText,
        Command::MoveColumnRight,
        Command::AdvanceStatus,
        Command::MoveColumnLeft,
        Command::ReorderUp,
        Command::PromptDelete,
        Command::SubmitText,
    ];
    for cmd in script {
        app.handle_command(cmd);
        assert!(app.is_well_formed());
        let view = app.get_tasks_in_column(app.active_column);
        if view.is_empty() {
            assert_eq!(app.selected_index, 0);
        } else {
            assert!(app.selected_index < view.len());
        }
    }
}

#[test]
fn rendering_projection_is_stable() {
    let mut app = App::new(Vec::new());
    add_task(&mut app, "A");
    add_task(&mut app, "B");
    app.handle_command(Command::AdvanceStatus);
    let first: Vec<Vec<String>> = (0..3).map(|c| column_titles(&app, c)).collect();
    let info_first = app.get_current_task_info();
    let second: Vec<Vec<String>> = (0..3).map(|c| column_titles(&app, c)).collect();
    let info_second = app.get_current_task_info();
    assert_eq!(first, second);
    assert_eq!(info_first, info_second);
    assert_eq!(app.active_column, 0);
    assert_eq!(app.selected_index, 0);
}

#[test]
fn view_to_backing_index_translates_positions() {
    let tasks = vec![
        Task { title: String::from("t0"), description: String::new(), status: Status::Todo },
        Task { title: String::from("d0"), description: String::new(), status: Status::Done },
        Task { title: String::from("t1"), description: String::new(), status: Status::Todo },
    ];
    assert_eq!(kanban::views::view_to_backing_index(&tasks, 0, 0), Some(0));
    assert_eq!(kanban::views::view_to_backing_index(&tasks, 0, 1), Some(2));
    assert_eq!(kanban::views::view_to_backing_index(&tasks, 0, 2), None);
    assert_eq!(kanban::views::view_to_backing_index(&tasks, 2, 0), Some(1));
    assert_eq!(kanban::views::view_to_backing_index(&tasks, 1, 0), None);
}

#[test]
fn selection_resolution_reports_backing_index() {
    let mut app = App::new(vec![
        Task { title: String::from("other"), description: String::new(), status: Status::Done },
        Task { title: String::from("mine"), description: String::new(), status: Status::Todo },
    ]);
    assert_eq!(app.get_selected_global_index(), Some(1));
    app.handle_command(Command::MoveColumnRight);
    assert_eq!(app.get_selected_global_index(), None);
    app.handle_command(Command::MoveColumnRight);
    assert_eq!(app.get_selected_global_index(), Some(0));
}

use praline::input::EditRequest;
use praline::repo::{Preset, ToolOption};
use praline::ui::Color;
use praline::state::{
    cursor_blink_on, key_map, next_focus, FormFocus, InputCommand, KeyMap, Screen, StagedPanelFocus, State,
    ToastType,
};

fn tools() -> Vec<ToolOption> {
    vec![
        ToolOption { name: "justfile".to_string(), checked: true },
        ToolOption { name: "ci".to_string(), checked: false },
    ]
}

fn new_state() -> State<()> {
    let mut s = State::new(None, (), tools(), presets());
    s.repo.owner = "o".to_string();
    s.repo.name = "n".to_string();
    s.repo.desc = "d".to_string();
    s
}

fn presets() -> Vec<Preset> {
    vec![
        Preset { tools: vec![] },
        Preset { tools: vec!["justfile".to_string()] },
        Preset { tools: vec!["justfile".to_string(), "ci".to_string()] },
    ]
}

#[test]
fn new_state_opens_on_the_matching_preset() {
    let s = State::new(None, 7u8, tools(), presets());
    assert!(s.running);
    assert_eq!(s.accent_color, Color::White);
    assert_eq!(s.keybindings, 7u8);
    assert_eq!(s.repo.owner, "");
    assert_eq!(s.repo.name, "");
    assert_eq!(s.repo.desc, "");
    assert_eq!(s.repo.options.len(), 2);
    assert_eq!(s.preset_cursor, 1);
    assert_eq!(s.screen_mode, Screen::Form);
    assert_eq!(s.form_focus, FormFocus::Owner);
    assert_eq!(s.option_selected, Some(0));
    assert_eq!(s.staged_selected, Some(0));
    assert_eq!(s.staged_panel_focus, StagedPanelFocus::List);
    assert_eq!(s.staged_content_viewport, 0);
    assert!(!s.cursor_active);
    assert!(s.toast.is_none() && s.toast_expires_at.is_none());
    assert_eq!(s.input.value(), "");
    let mut t = tools();
    t[0].checked = false;
    t[1].checked = true;
    let s2 = State::new(Some(Color::Red), (), t, presets());
    assert_eq!(s2.preset_cursor, 0);
    assert_eq!(s2.accent_color, Color::Red);
}

#[test]
fn word_moves_cuts_and_yank() {
    let mut s = new_state();
    s.form_focus = FormFocus::Desc;
    s.repo.desc = "hello world".to_string();
    s.run_input_command(InputCommand::Enter);
    s.run_input_command(InputCommand::Handle(Some(EditRequest::GoToPrevWord)));
    assert_eq!(s.input.cursor(), 6);
    s.run_input_command(InputCommand::Handle(Some(EditRequest::GoToPrevChar)));
    assert_eq!(s.input.cursor(), 5);
    s.run_input_command(InputCommand::Handle(Some(EditRequest::GoToNextWord)));
    assert_eq!(s.input.cursor(), 6);
    s.run_input_command(InputCommand::Handle(Some(EditRequest::GoToEnd)));
    s.run_input_command(InputCommand::Handle(Some(EditRequest::DeletePrevWord)));
    assert_eq!(s.repo.desc, "hello ");
    s.run_input_command(InputCommand::Handle(Some(EditRequest::DeletePrevWord)));
    assert_eq!(s.repo.desc, "");
    s.run_input_command(InputCommand::Handle(Some(EditRequest::Yank)));
    assert_eq!(s.repo.desc, "hello world");
    s.run_input_command(InputCommand::Handle(Some(EditRequest::GoToStart)));
    s.run_input_command(InputCommand::Handle(Some(EditRequest::DeleteNextWord)));
    assert_eq!(s.repo.desc, "world");
    s.run_input_command(InputCommand::Handle(Some(EditRequest::DeleteNextChar)));
    assert_eq!(s.repo.desc, "orld");
    s.run_input_command(InputCommand::Handle(Some(EditRequest::Yank)));
    assert_eq!(s.repo.desc, "hello orld");
}

#[test]
fn delete_line_then_yank_restores_the_text() {
    let mut s = new_state();
    s.run_input_command(InputCommand::Enter);
    s.run_input_command(InputCommand::Handle(Some(EditRequest::DeleteLine)));
    assert_eq!(s.repo.owner, "");
    s.run_input_command(InputCommand::Handle(Some(EditRequest::Yank)));
    assert_eq!(s.repo.owner, "o");
    s.run_input_command(InputCommand::Handle(Some(EditRequest::DeleteFromStart)));
    assert_eq!(s.repo.owner, "");
    s.run_input_command(InputCommand::Exit);
    assert_eq!(s.input.value(), "");
}

#[test]
fn editing_a_text_row_updates_the_repo_as_you_type() {
    let mut s = new_state();
    assert!(!s.run_input_command(InputCommand::Enter));
    assert_eq!(s.screen_mode, Screen::Editing);
    assert_eq!(s.input.value(), "o");
    assert!(s.run_input_command(InputCommand::Handle(Some(EditRequest::InsertChar('x')))));
    assert_eq!(s.repo.owner, "ox");
    assert!(s.run_input_command(InputCommand::Handle(Some(EditRequest::GoToStart))));
    assert!(s.run_input_command(InputCommand::Handle(Some(EditRequest::InsertChar('>')))));
    assert_eq!(s.repo.owner, ">ox");
    assert!(s.run_input_command(InputCommand::Handle(None)));
    assert_eq!(s.repo.owner, ">ox");
    assert!(!s.run_input_command(InputCommand::Confirm));
    assert_eq!(s.screen_mode, Screen::Form);
    assert_eq!(s.repo.owner, ">ox");
}

#[test]
fn exit_clears_the_field_but_keeps_the_repo() {
    let mut s = new_state();
    s.form_focus = FormFocus::Name;
    s.run_input_command(InputCommand::Enter);
    s.run_input_command(InputCommand::Handle(Some(EditRequest::InsertChar('z'))));
    assert_eq!(s.repo.name, "nz");
    assert!(!s.run_input_command(InputCommand::Exit));
    assert_eq!(s.input.value(), "");
    assert_eq!(s.input.cursor(), 0);
    assert_eq!(s.screen_mode, Screen::Form);
    assert_eq!(s.repo.name, "nz");
    s.run_input_command(InputCommand::Enter);
    s.run_input_command(InputCommand::Handle(Some(EditRequest::DeleteLine)));
    assert_eq!(s.repo.name, "");
}

#[test]
fn handle_on_a_list_row_changes_nothing_in_the_repo() {
    let mut s = new_state();
    s.form_focus = FormFocus::Options;
    assert!(!s.run_input_command(InputCommand::Handle(Some(EditRequest::InsertChar('q')))));
    assert_eq!(s.repo.owner, "o");
    assert_eq!(s.repo.name, "n");
    assert_eq!(s.repo.desc, "d");
}

#[test]
fn enter_toggles_the_selected_option_and_twice_restores_it() {
    let mut s = new_state();
    s.form_focus = FormFocus::Options;
    s.option_selected = Some(1);
    s.run_input_command(InputCommand::Enter);
    assert!(s.repo.options[1].checked);
    assert!(s.repo.options[0].checked);
    assert_eq!(s.screen_mode, Screen::Form);
    s.run_input_command(InputCommand::Enter);
    assert!(!s.repo.options[1].checked);
    s.option_selected = Some(7);
    s.run_input_command(InputCommand::Enter);
    assert!(s.repo.options[0].checked && !s.repo.options[1].checked);
}

#[test]
fn enter_on_the_preset_row_applies_the_preset() {
    let mut s = new_state();
    s.form_focus = FormFocus::Preset;
    s.preset_cursor = 2;
    s.run_input_command(InputCommand::Enter);
    assert!(s.repo.options[0].checked && s.repo.options[1].checked);
    assert!(s.repo.is_selected("ci"));
    s.preset_cursor = 0;
    s.run_input_command(InputCommand::Enter);
    assert!(!s.repo.options[0].checked && !s.repo.options[1].checked);
    s.preset_cursor = 9;
    s.run_input_command(InputCommand::Enter);
    assert!(!s.repo.options[0].checked && !s.repo.options[1].checked);
    assert_eq!(s.screen_mode, Screen::Form);
}

#[test]
fn edits_follow_the_text_field() {
    let mut s = new_state();
    s.form_focus = FormFocus::Desc;
    s.run_input_command(InputCommand::Enter);
    for c in "abc".chars() {
        s.run_input_command(InputCommand::Handle(Some(EditRequest::InsertChar(c))));
    }
    assert_eq!(s.repo.desc, "dabc");
    s.run_input_command(InputCommand::Handle(Some(EditRequest::SetCursor(2))));
    s.run_input_command(InputCommand::Handle(Some(EditRequest::DeleteTillEnd)));
    assert_eq!(s.repo.desc, "da");
    s.run_input_command(InputCommand::Handle(Some(EditRequest::GoToEnd)));
    s.run_input_command(InputCommand::Handle(Some(EditRequest::DeletePrevChar)));
    assert_eq!(s.repo.desc, "d");
    s.run_input_command(InputCommand::Handle(Some(EditRequest::SetCursor(100))));
    assert_eq!(s.input.cursor(), 1);
}

#[test]
fn toast_lives_for_three_seconds() {
    let mut s = new_state();
    s.show_toast("saved", ToastType::Success, 1000);
    assert_eq!(s.toast_expires_at, Some(4000));
    s.tick_toasts(3999);
    assert_eq!(s.toast.as_ref().map(|t| t.message.clone()), Some("saved".to_string()));
    s.tick_toasts(4000);
    assert!(s.toast.is_none());
    assert!(s.toast_expires_at.is_none());
}

#[test]
fn cursor_blinks_each_half_second() {
    assert!(cursor_blink_on(0));
    assert!(cursor_blink_on(1499));
    assert!(!cursor_blink_on(1500));
    assert!(!cursor_blink_on(999));
}

#[test]
fn each_screen_reads_keys_with_its_own_map() {
    assert_eq!(key_map(Screen::Form), KeyMap::Form);
    assert_eq!(key_map(Screen::Editing), KeyMap::TextInput);
    assert_eq!(key_map(Screen::Generated), KeyMap::Generated);
    assert_eq!(key_map(Screen::Exported), KeyMap::Exported);
}

#[test]
fn focus_cycles_down_the_form() {
    assert_eq!(next_focus(FormFocus::Owner), FormFocus::Name);
    assert_eq!(next_focus(FormFocus::Name), FormFocus::Desc);
    assert_eq!(next_focus(FormFocus::Desc), FormFocus::Options);
    assert_eq!(next_focus(FormFocus::Options), FormFocus::Preset);
    assert_eq!(next_focus(FormFocus::Preset), FormFocus::Owner);
}

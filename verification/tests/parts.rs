use praline::input::EditRequest;
use praline::keys::{editing_command, form_action, FormAction, FormKeys, Key};
use praline::state::InputCommand;
use indexmap::IndexMap;
use praline::entries::stage_file;
use praline::repo::{Preset, RepoBuilder, ToolOption};
use praline::tool::{badge_text, Category, Just};
use praline::ui::{field_body, field_border, field_title, highlight_color, Color, FieldBorder};
use std::path::PathBuf;

#[test]
fn field_looks() {
    assert_eq!(field_border(false, true), FieldBorder::Plain);
    assert_eq!(field_border(true, false), FieldBorder::Focused);
    assert_eq!(field_border(true, true), FieldBorder::Editing);
    assert_eq!(field_body("ab", true, true, true), "ab\u{2588}");
    assert_eq!(field_body("ab", true, true, false), "ab ");
    assert_eq!(field_body("ab", false, true, true), "ab ");
    assert_eq!(field_title("Owner"), " Owner ");
}

#[test]
fn just_tool() {
    assert_eq!(Just.name(), "justfile");
    assert_eq!(Just.desc(), "Task runner recipes: check, lint, fmt, ci.");
    assert_eq!(Just.category(), Category::Build);
    assert!(Just.default_setup());
    let o = Just.option();
    assert_eq!(o.name, "justfile");
    assert!(o.checked);
    assert_eq!(badge_text(Category::Build), " Build ");
}

#[test]
fn highlight_falls_back_to_gray() {
    assert_eq!(highlight_color(None), Color::Gray);
    assert_eq!(highlight_color(Some(Color::Rgb(1, 2, 3))), Color::Rgb(1, 2, 3));
}

#[test]
fn new_repo_is_blank() {
    let r = RepoBuilder::new(vec![ToolOption { name: "x".to_string(), checked: true }]);
    assert_eq!(r.owner, "");
    assert_eq!(r.name, "");
    assert_eq!(r.desc, "");
    assert!(r.is_selected("x"));
}

#[test]
fn staging_a_file_again_keeps_its_place() {
    let mut m: IndexMap<String, (String, PathBuf)> = IndexMap::new();
    stage_file(&mut m, "a".to_string(), "1".to_string(), PathBuf::from("/r/a"));
    stage_file(&mut m, "b".to_string(), "2".to_string(), PathBuf::from("/r/b"));
    stage_file(&mut m, "a".to_string(), "3".to_string(), PathBuf::from("/r/a"));
    let keys: Vec<&String> = m.keys().collect();
    assert_eq!(keys, vec!["a", "b"]);
    assert_eq!(m["a"].0, "3");
    assert_eq!(m["b"].0, "2");
}

#[test]
fn presets_and_selection() {
    let mut r = RepoBuilder {
        owner: String::new(),
        name: String::new(),
        desc: String::new(),
        options: vec![
            ToolOption { name: "a".to_string(), checked: false },
            ToolOption { name: "b".to_string(), checked: true },
        ],
    };
    let ps = vec![
        Preset { tools: vec!["a".to_string()] },
        Preset { tools: vec!["b".to_string(), "zzz".to_string()] },
    ];
    assert_eq!(r.active_preset(&ps), Some(1));
    assert!(r.is_selected("b"));
    assert!(!r.is_selected("a"));
    assert!(!r.is_selected("zzz"));
    r.apply_preset(&ps[0]);
    assert!(r.is_selected("a") && !r.is_selected("b"));
    assert_eq!(r.active_preset(&ps), Some(0));
    r.options[1].checked = true;
    assert_eq!(r.active_preset(&ps), None);
}

#[test]
fn keys_of_the_form() {
    let k = FormKeys::default();
    assert_eq!(form_action(Key::Char('q'), &k), FormAction::Quit);
    assert_eq!(form_action(Key::Tab, &k), FormAction::NextRow);
    assert_eq!(form_action(Key::Enter, &k), FormAction::Activate);
    assert_eq!(form_action(Key::Char('x'), &k), FormAction::Ignore);
    let same = FormKeys { quit: Key::Enter, next_row: Key::Enter, activate: Key::Enter };
    assert_eq!(form_action(Key::Enter, &same), FormAction::Quit);
    assert_eq!(editing_command(Key::Enter, None), InputCommand::Confirm);
    assert_eq!(editing_command(Key::Esc, None), InputCommand::Exit);
    assert_eq!(
        editing_command(Key::Char('a'), Some(EditRequest::InsertChar('a'))),
        InputCommand::Handle(Some(EditRequest::InsertChar('a')))
    );
}

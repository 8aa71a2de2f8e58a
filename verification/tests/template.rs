use praline::help::{ident, marker_tool, render_file, strip_conditionals, substitute};
use praline::repo::{RepoBuilder, ToolOption};

fn repo(name: &str, desc: &str, owner: &str, tools: &[(&str, bool)]) -> RepoBuilder {
    RepoBuilder {
        owner: owner.to_string(),
        name: name.to_string(),
        desc: desc.to_string(),
        options: tools
            .iter()
            .map(|(n, c)| ToolOption { name: n.to_string(), checked: *c })
            .collect(),
    }
}

fn render(content: &str, r: &RepoBuilder) -> String {
    String::from_utf8(substitute(content, r)).unwrap()
}

#[test]
fn placeholders_are_filled_in() {
    let r = repo("My-Repo 2", "A tool", "alice", &[]);
    let out = render("name={name}\nid={ident}\n{desc} by {owner}", &r);
    assert_eq!(out, "name=My-Repo 2\nid=my_repo_2\nA tool by alice");
}

#[test]
fn selected_block_is_kept_without_its_markers() {
    let r = repo("x", "", "", &[("justfile", true)]);
    let t = "a\n{if:justfile}\nj {name}\n{endif:justfile}\nb\n";
    assert_eq!(render(t, &r), "a\nj x\nb\n");
}

#[test]
fn unselected_block_is_dropped() {
    let r = repo("x", "", "", &[("justfile", false)]);
    let t = "a\n{if:justfile}\nj {name}\n{endif:justfile}\nb\n";
    assert_eq!(render(t, &r), "a\nb\n");
}

#[test]
fn unknown_tool_counts_as_unselected() {
    let r = repo("x", "", "", &[("justfile", true)]);
    assert_eq!(strip_conditionals("{if:ci}\nci\n{endif:ci}\nrest\n", &r), "rest\n");
}

#[test]
fn ifnot_block_follows_the_opposite_rule() {
    let t = "{ifnot:justfile}\nno just\n{endif:justfile}\n";
    let on = repo("x", "", "", &[("justfile", true)]);
    let off = repo("x", "", "", &[("justfile", false)]);
    assert_eq!(strip_conditionals(t, &on), "");
    assert_eq!(strip_conditionals(t, &off), "no just\n");
}

#[test]
fn placeholder_in_dropped_block_is_not_substituted() {
    let r = repo("secret", "", "", &[]);
    assert_eq!(render("{if:t}\n{name}\n{endif:t}", &r), "");
}

#[test]
fn markers_may_sit_behind_comment_syntax() {
    assert_eq!(marker_tool("# {if: justfile }", "{if:"), Some("justfile".to_string()));
    assert_eq!(marker_tool("<!-- {endif:ci} -->", "{endif:"), Some("ci".to_string()));
    assert_eq!(marker_tool("{if:abc", "{if:"), None);
    assert_eq!(marker_tool("plain", "{if:"), None);
}

#[test]
fn marker_without_closing_brace_is_an_ordinary_line() {
    let r = repo("x", "", "", &[]);
    assert_eq!(strip_conditionals("{if:abc\nnext", &r), "{if:abc\nnext\n");
}

#[test]
fn crlf_lines_are_normalised_once_markers_are_present() {
    let r = repo("x", "", "", &[("t", false)]);
    assert_eq!(strip_conditionals("x\r\n{if:t}\r\ny\r\n{endif:t}\r\n", &r), "x\n");
}

#[test]
fn content_without_markers_is_returned_verbatim() {
    let r = repo("x", "", "", &[]);
    assert_eq!(strip_conditionals("a\r\nb", &r), "a\r\nb");
    assert_eq!(strip_conditionals("{endif:t}\n", &r), "{endif:t}\n");
}

#[test]
fn last_line_gets_a_newline_when_markers_are_present() {
    let r = repo("x", "", "", &[("t", true)]);
    assert_eq!(strip_conditionals("{if:t}\nz", &r), "z\n");
}

#[test]
fn nested_block_inside_dropped_block_is_dropped() {
    let r = repo("x", "", "", &[("a", false), ("b", true)]);
    let t = "{if:a}\n{if:b}\nx\n{endif:b}\ny\n{endif:a}\nz";
    assert_eq!(strip_conditionals(t, &r), "z\n");
}

#[test]
fn ident_folds_into_an_identifier() {
    assert_eq!(ident("9lives"), "_9lives");
    assert_eq!(ident("Hello World!"), "hello_world_");
    assert_eq!(ident(""), "");
    assert_eq!(ident("caf\u{e9}"), "caf_");
}

#[test]
fn replacements_apply_in_order() {
    let r = repo("{desc}", "D", "{name}", &[]);
    assert_eq!(render("{name}|{owner}", &r), "D|{name}");
}

#[test]
fn render_file_copies_binary_and_renders_text() {
    let r = repo("N", "", "", &[]);
    assert_eq!(render_file(&[0xff, 0x00, 0x41], &r), vec![0xff, 0x00, 0x41]);
    assert_eq!(render_file("hi {name}".as_bytes(), &r), b"hi N".to_vec());
}

#[test]
fn non_ascii_text_is_utf8_encoded() {
    let r = repo("\u{e9}t\u{e9}", "", "", &[]);
    assert_eq!(substitute("<{name}>", &r), "<\u{e9}t\u{e9}>".as_bytes().to_vec());
}

#[test]
fn plain_template_renders_to_itself() {
    let r = repo("n", "d", "o", &[("t", true)]);
    let t = "no markers here
{ nor placeholders }
";
    assert_eq!(render(t, &r), t);
}

#[test]
fn block_filter_is_idempotent() {
    let r = repo("x", "", "", &[("a", true), ("b", false)]);
    let t = "one\n{if:a}\ntwo {if:\n{endif:a}\n{if:b}\nthree\n{endif:b}\nfour";
    let once = strip_conditionals(t, &r);
    assert_eq!(once, "one\ntwo {if:\nfour\n");
    assert_eq!(strip_conditionals(&once, &r), once);
}

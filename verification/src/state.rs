//! The form's state and the commands that the text field and the form
//! answer: what each key command changes, and what it leaves alone.

use vstd::prelude::*;
use tui_input::Input;
use crate::input::{
    EditRequest, empty_input, handle_request, handled, input_after_cut, input_cursor, input_holding,
    input_ok, input_text, input_value, input_yank,
};
use crate::ui::Color;
use crate::repo::{
    Preset, RepoBuilder, ToolOption, applied, lemma_applied_preset_selects, offers, preset_has, selects,
};

verus! {

/// Which screen the user is on.
#[derive(Clone, Copy, Debug, PartialEq, Eq, Structural)]
pub enum Screen {
    Form,
    Editing,
    Generated,
    Exported,
}

/// Which row of the form has the focus.
#[derive(Clone, Copy, Debug, PartialEq, Eq, Structural)]
pub enum FormFocus {
    Owner,
    Name,
    Desc,
    Options,
    Preset,
}

/// A command of the form's text field.
#[derive(Clone, Copy, Debug, PartialEq, Eq)]
pub enum InputCommand {
    /// A key event for the text field, with the edit it asks for, if any.
    Handle(Option<EditRequest>),
    /// Activates the focused row.
    Enter,
    /// Leaves the text field, keeping what was typed.
    Confirm,
    /// Leaves the text field and clears it.
    Exit,
}

/// Which part of the staged-files panel has the focus.
#[derive(Clone, Copy, Debug, PartialEq, Eq, Structural)]
pub enum StagedPanelFocus {
    /// The list of staged files.
    List,
    /// The content of the selected file.
    Content,
}

/// How a toast message is shown.
#[derive(Clone, Copy, Debug, PartialEq, Eq, Structural)]
pub enum ToastType {
    Info,
    Success,
    Error,
}

/// A short message shown over the form for a while.
pub struct Toast {
    pub message: String,
    pub kind: ToastType,
}

/// How long a toast stays on screen, in milliseconds.
pub const TOAST_MILLIS: u64 = 3000;

/// The application state that the form's commands read and change. Times
/// are milliseconds on a clock that only moves forward.
pub struct State<K> {
    /// Is the application running?
    pub running: bool,
    /// Terminal accent color.
    pub accent_color: Color,
    /// Repo builder.
    pub repo: RepoBuilder,
    /// Form focus.
    pub form_focus: FormFocus,
    /// The text field.
    pub input: Input,
    /// Is the text cursor shown?
    pub cursor_active: bool,
    /// Screen mode.
    pub screen_mode: Screen,
    /// The selected row of the list of tool options.
    pub option_selected: Option<usize>,
    /// Current toast, if any.
    pub toast: Option<Toast>,
    /// When the current toast should be hidden.
    pub toast_expires_at: Option<u64>,
    /// Active key bindings.
    pub keybindings: K,
    /// The selected row of the list of staged files.
    pub staged_selected: Option<usize>,
    /// Staged panel focus.
    pub staged_panel_focus: StagedPanelFocus,
    /// Scroll of the staged file's content.
    pub staged_content_viewport: usize,
    /// Cursor into `presets` for the preset row.
    pub preset_cursor: usize,
    /// The presets that the preset row offers, in order.
    pub presets: Vec<Preset>,
}

/// The focus is on one of the three text rows.
pub open spec fn is_text_focus(f: FormFocus) -> bool {
    f == FormFocus::Owner || f == FormFocus::Name || f == FormFocus::Desc
}

/// The repository field that a text row edits.
pub open spec fn focused_field(repo: RepoBuilder, f: FormFocus) -> Seq<char> {
    match f {
        FormFocus::Owner => repo.owner@,
        FormFocus::Name => repo.name@,
        _ => repo.desc@,
    }
}

/// `new` is `old` with the field under focus `f` (if a text row) set to `text`.
pub open spec fn field_set(old: RepoBuilder, new: RepoBuilder, f: FormFocus, text: Seq<char>) -> bool {
    &&& new.options == old.options
    &&& if f == FormFocus::Owner { new.owner@ == text } else { new.owner == old.owner }
    &&& if f == FormFocus::Name { new.name@ == text } else { new.name == old.name }
    &&& if f == FormFocus::Desc { new.desc@ == text } else { new.desc == old.desc }
}

/// `old.options` with the option at `id` switched.
pub open spec fn toggled(options: Seq<ToolOption>, id: int) -> Seq<ToolOption> {
    options.update(id, ToolOption { name: options[id].name, checked: !options[id].checked })
}

/// The two states agree on everything but the repository, the text field and
/// the screen.
pub open spec fn same_rest<K>(a: State<K>, b: State<K>) -> bool {
    &&& a.running == b.running
    &&& a.accent_color == b.accent_color
    &&& a.keybindings == b.keybindings
    &&& a.staged_selected == b.staged_selected
    &&& a.staged_panel_focus == b.staged_panel_focus
    &&& a.staged_content_viewport == b.staged_content_viewport
    &&& a.form_focus == b.form_focus
    &&& a.cursor_active == b.cursor_active
    &&& a.option_selected == b.option_selected
    &&& a.toast == b.toast
    &&& a.toast_expires_at == b.toast_expires_at
    &&& a.preset_cursor == b.preset_cursor
    &&& a.presets == b.presets
}

/// What an input command does to the state (`restart_blink`: whether the
/// cursor's blink starts over).
pub open spec fn input_command_effect<K>(old: State<K>, cmd: InputCommand, new: State<K>, restart_blink: bool) -> bool {
    &&& same_rest(old, new)
    &&& match cmd {
        InputCommand::Handle(req) => {
            &&& match req {
                Some(r) => handled(old.input, r, new.input),
                None => new.input == old.input,
            }
            &&& field_set(old.repo, new.repo, old.form_focus, input_text(new.input))
            &&& new.screen_mode == old.screen_mode
            &&& restart_blink == is_text_focus(old.form_focus)
        },
        InputCommand::Enter => {
            &&& !restart_blink
            &&& if old.form_focus == FormFocus::Preset {
                &&& new.input == old.input
                &&& new.screen_mode == old.screen_mode
                &&& if old.preset_cursor < old.presets.len() {
                    &&& applied(old.repo.options@, new.repo.options@, old.presets@[old.preset_cursor as int].tools@)
                    &&& new.repo.owner == old.repo.owner
                    &&& new.repo.name == old.repo.name
                    &&& new.repo.desc == old.repo.desc
                } else {
                    new.repo == old.repo
                }
            } else if old.form_focus == FormFocus::Options {
                &&& new.input == old.input
                &&& new.screen_mode == old.screen_mode
                &&& new.repo.owner == old.repo.owner
                &&& new.repo.name == old.repo.name
                &&& new.repo.desc == old.repo.desc
                &&& match old.option_selected {
                    Some(id) if id < old.repo.options.len() =>
                        new.repo.options@ == toggled(old.repo.options@, id as int),
                    _ => new.repo.options == old.repo.options,
                }
            } else {
                &&& new.repo == old.repo
                &&& input_text(new.input) == focused_field(old.repo, old.form_focus)
                &&& input_cursor(new.input) == focused_field(old.repo, old.form_focus).len()
                &&& input_yank(new.input).len() == 0
                &&& !input_after_cut(new.input)
                &&& new.screen_mode == Screen::Editing
            }
        },
        InputCommand::Confirm => {
            &&& !restart_blink
            &&& new.repo == old.repo
            &&& new.input == old.input
            &&& new.screen_mode == Screen::Form
        },
        InputCommand::Exit => {
            &&& !restart_blink
            &&& new.repo == old.repo
            &&& input_text(new.input).len() == 0
            &&& input_cursor(new.input) == 0
            &&& input_yank(new.input).len() == 0
            &&& !input_after_cut(new.input)
            &&& new.screen_mode == Screen::Form
        },
    }
}

/// The two states agree on everything but the toast.
pub open spec fn same_but_toast<K>(a: State<K>, b: State<K>) -> bool {
    &&& a.running == b.running
    &&& a.accent_color == b.accent_color
    &&& a.keybindings == b.keybindings
    &&& a.staged_selected == b.staged_selected
    &&& a.staged_panel_focus == b.staged_panel_focus
    &&& a.staged_content_viewport == b.staged_content_viewport
    &&& a.repo == b.repo
    &&& a.form_focus == b.form_focus
    &&& a.input == b.input
    &&& a.cursor_active == b.cursor_active
    &&& a.screen_mode == b.screen_mode
    &&& a.option_selected == b.option_selected
    &&& a.preset_cursor == b.preset_cursor
    &&& a.presets == b.presets
}

/// `new` is `old` showing the toast `msg` of kind `kind` from `now` on.
pub open spec fn toast_shown<K>(old: State<K>, msg: Seq<char>, kind: ToastType, now: u64, new: State<K>) -> bool {
    &&& same_but_toast(old, new)
    &&& new.toast matches Some(t) && t.message@ == msg && t.kind == kind
    &&& new.toast_expires_at == Some((now + TOAST_MILLIS) as u64)
}

/// `new` is `old` at `now`, with the toast gone if its time is up.
pub open spec fn toasts_ticked<K>(old: State<K>, now: u64, new: State<K>) -> bool {
    &&& same_but_toast(old, new)
    &&& match old.toast_expires_at {
        Some(expiry) if now >= expiry => new.toast is None && new.toast_expires_at is None,
        _ => new.toast == old.toast && new.toast_expires_at == old.toast_expires_at,
    }
}

impl<K> State<K> {
    /// A running form on a new repository offering `tools` (each checked as
    /// it is by default), focused on the owner row, with the preset row on
    /// the first preset that this selection matches, the accent color
    /// `accent_color` (white if none), and the staged-files panel on its
    /// first row.
    pub fn new(accent_color: Option<Color>, keybindings: K, tools: Vec<ToolOption>, presets: Vec<Preset>) -> (s: State<K>)
        ensures
            s.running,
            s.accent_color == match accent_color {
                Some(c) => c,
                None => Color::White,
            },
            s.keybindings == keybindings,
            s.repo.owner@.len() == 0,
            s.repo.name@.len() == 0,
            s.repo.desc@.len() == 0,
            s.repo.options == tools,
            s.form_focus == FormFocus::Owner,
            input_text(s.input).len() == 0,
            input_cursor(s.input) == 0,
            input_yank(s.input).len() == 0,
            !input_after_cut(s.input),
            !s.cursor_active,
            s.screen_mode == Screen::Form,
            s.option_selected == Some(0usize),
            s.toast is None,
            s.toast_expires_at is None,
            s.staged_selected == Some(0usize),
            s.staged_panel_focus == StagedPanelFocus::List,
            s.staged_content_viewport == 0,
            s.presets == presets,
            s.preset_cursor == match s.repo.active_preset_spec(presets@) {
                Some(k) => k,
                None => 0,
            },
    {
        let repo = RepoBuilder::new(tools);
        let preset_cursor = match repo.active_preset(&presets) {
            Some(k) => k,
            None => 0,
        };
        State {
            running: true,
            accent_color: match accent_color {
                Some(c) => c,
                None => Color::White,
            },
            repo,
            form_focus: FormFocus::Owner,
            input: empty_input(),
            cursor_active: false,
            screen_mode: Screen::Form,
            option_selected: Some(0),
            keybindings,
            toast: None,
            toast_expires_at: None,
            staged_selected: Some(0),
            staged_panel_focus: StagedPanelFocus::List,
            staged_content_viewport: 0,
            preset_cursor,
            presets,
        }
    }

    /// Runs an input command and updates the state. Returns whether the
    /// text cursor's blink starts over.
    pub fn run_input_command(&mut self, command: InputCommand) -> (restart_blink: bool)
        requires
            input_ok(old(self).input),
        ensures
            input_ok(final(self).input),
            input_command_effect(*old(self), command, *final(self), restart_blink),
            flips_only_selected(*old(self), command, *final(self)),
    {
        match command {
            InputCommand::Handle(req) => {
                match req {
                    Some(r) => handle_request(&mut self.input, r),
                    None => {},
                }
                match self.form_focus {
                    FormFocus::Owner => self.repo.owner = input_value(&self.input),
                    FormFocus::Name => self.repo.name = input_value(&self.input),
                    FormFocus::Desc => self.repo.desc = input_value(&self.input),
                    FormFocus::Options | FormFocus::Preset => {},
                }
                self.form_focus == FormFocus::Owner || self.form_focus == FormFocus::Name
                    || self.form_focus == FormFocus::Desc
            },
            InputCommand::Enter => {
                if self.form_focus == FormFocus::Preset {
                    if self.preset_cursor < self.presets.len() {
                        self.repo.apply_preset(&self.presets[self.preset_cursor]);
                    }
                } else if self.form_focus == FormFocus::Options {
                    match self.option_selected {
                        Some(id) => {
                            if id < self.repo.options.len() {
                                let on = self.repo.options[id].checked;
                                self.repo.options[id].checked = !on;
                                assert(self.repo.options@ =~= toggled(old(self).repo.options@, id as int));
                            }
                        },
                        None => {},
                    }
                } else {
                    let value = match self.form_focus {
                        FormFocus::Owner => self.repo.owner.clone(),
                        FormFocus::Name => self.repo.name.clone(),
                        _ => self.repo.desc.clone(),
                    };
                    self.input = input_holding(value);
                    self.screen_mode = Screen::Editing;
                }
                false
            },
            InputCommand::Confirm => {
                self.screen_mode = Screen::Form;
                false
            },
            InputCommand::Exit => {
                self.input = empty_input();
                self.screen_mode = Screen::Form;
                false
            },
        }
    }

    /// Shows a toast until `TOAST_MILLIS` after `now`.
    pub fn show_toast(&mut self, msg: &str, kind: ToastType, now: u64)
        requires
            now <= u64::MAX - TOAST_MILLIS,
        ensures
            toast_shown(*old(self), msg@, kind, now, *final(self)),
            final(self).toast matches Some(t) && t.kind == kind && t.message@ == msg@,
            final(self).toast_expires_at == Some((now + TOAST_MILLIS) as u64),
    {
        self.toast = Some(Toast { message: msg.to_owned(), kind });
        self.toast_expires_at = Some(now + TOAST_MILLIS);
    }

    /// Hides the current toast once its lifetime has elapsed at `now`.
    pub fn tick_toasts(&mut self, now: u64)
        ensures
            toasts_ticked(*old(self), now, *final(self)),
    {
        match self.toast_expires_at {
            Some(expiry) => {
                if now >= expiry {
                    self.toast = None;
                    self.toast_expires_at = None;
                }
            },
            None => {},
        }
    }
}

/// Whether the blinking text cursor is shown `elapsed` milliseconds after
/// its blink last started over: on for the first half of every second.
pub fn cursor_blink_on(elapsed: u128) -> (on: bool)
    ensures
        on == (elapsed % 1000 < 500),
{
    elapsed % 1000 < 500
}

/// The row after `focus`, going down the form and back to the top.
pub fn next_focus(focus: FormFocus) -> (f: FormFocus)
    ensures
        f == match focus {
            FormFocus::Owner => FormFocus::Name,
            FormFocus::Name => FormFocus::Desc,
            FormFocus::Desc => FormFocus::Options,
            FormFocus::Options => FormFocus::Preset,
            FormFocus::Preset => FormFocus::Owner,
        },
{
    match focus {
        FormFocus::Owner => FormFocus::Name,
        FormFocus::Name => FormFocus::Desc,
        FormFocus::Desc => FormFocus::Options,
        FormFocus::Options => FormFocus::Preset,
        FormFocus::Preset => FormFocus::Owner,
    }
}

/// Which key map reads a key event on a screen.
#[derive(Clone, Copy, Debug, PartialEq, Eq, Structural)]
pub enum KeyMap {
    /// The form's bindings.
    Form,
    /// The text field, which takes every key as an edit.
    TextInput,
    /// The bindings of the screen with the generated files.
    Generated,
    /// The bindings of the screen after export.
    Exported,
}

/// The key map that reads key events on `screen`.
pub fn key_map(screen: Screen) -> (m: KeyMap)
    ensures
        m == match screen {
            Screen::Form => KeyMap::Form,
            Screen::Editing => KeyMap::TextInput,
            Screen::Generated => KeyMap::Generated,
            Screen::Exported => KeyMap::Exported,
        },
{
    match screen {
        Screen::Form => KeyMap::Form,
        Screen::Editing => KeyMap::TextInput,
        Screen::Generated => KeyMap::Generated,
        Screen::Exported => KeyMap::Exported,
    }
}

// ---------------------------------------------------------------------------
// Laws

/// While a text row is being edited, the repository field under focus holds
/// what the text field holds: right after Enter opens the row, and after
/// every key event handled there.
pub proof fn lemma_field_mirrors_text_field<K>(s0: State<K>, s1: State<K>, b1: bool, req: Option<EditRequest>, s2: State<K>, b2: bool)
    requires
        is_text_focus(s0.form_focus),
        input_command_effect(s0, InputCommand::Enter, s1, b1),
        input_command_effect(s1, InputCommand::Handle(req), s2, b2),
    ensures
        focused_field(s1.repo, s1.form_focus) == input_text(s1.input),
        focused_field(s2.repo, s2.form_focus) == input_text(s2.input),
        s2.screen_mode == Screen::Editing,
        b2,
{
}

/// Enter on the same tool option twice gives back the selection it started from.
pub proof fn lemma_option_toggle_twice_restores<K>(s0: State<K>, s1: State<K>, b1: bool, s2: State<K>, b2: bool)
    requires
        s0.form_focus == FormFocus::Options,
        input_command_effect(s0, InputCommand::Enter, s1, b1),
        input_command_effect(s1, InputCommand::Enter, s2, b2),
    ensures
        s2.repo.options@ == s0.repo.options@,
        s2.repo.owner == s0.repo.owner,
        s2.repo.name == s0.repo.name,
        s2.repo.desc == s0.repo.desc,
        s2.input == s0.input,
        s2.screen_mode == s0.screen_mode,
{
    match s0.option_selected {
        Some(id) => {
            if id < s0.repo.options.len() {
                assert(toggled(toggled(s0.repo.options@, id as int), id as int) =~= s0.repo.options@);
            }
        },
        None => {},
    }
}

/// Leaving the text field, with Confirm or Exit, never touches the repository.
pub proof fn lemma_leaving_keeps_repo<K>(s0: State<K>, cmd: InputCommand, s1: State<K>, b: bool)
    requires
        cmd == InputCommand::Confirm || cmd == InputCommand::Exit,
        input_command_effect(s0, cmd, s1, b),
    ensures
        s1.repo == s0.repo,
        s1.screen_mode == Screen::Form,
{
}

/// A toast shown at `shown` is still there at any tick before its
/// `TOAST_MILLIS` are up, and gone at the first tick after.
pub proof fn lemma_toast_lifetime<K>(s0: State<K>, msg: Seq<char>, kind: ToastType, shown: u64, s1: State<K>, now: u64, s2: State<K>)
    requires
        shown <= u64::MAX - TOAST_MILLIS,
        toast_shown(s0, msg, kind, shown, s1),
        toasts_ticked(s1, now, s2),
    ensures
        s2.toast is Some <==> now < shown + TOAST_MILLIS,
        now < shown + TOAST_MILLIS ==> s2.toast == s1.toast,
{
}

/// Enter on the preset row selects exactly the offered tools that the preset
/// under the cursor lists.
pub proof fn lemma_preset_enter_selects<K>(s0: State<K>, s1: State<K>, b: bool, tool: Seq<char>)
    requires
        s0.form_focus == FormFocus::Preset,
        s0.preset_cursor < s0.presets.len(),
        input_command_effect(s0, InputCommand::Enter, s1, b),
    ensures
        selects(s1.repo.options@, tool) <==> offers(s0.repo.options@, tool) && preset_has(
            s0.presets@[s0.preset_cursor as int].tools@,
            tool,
        ),
{
    lemma_applied_preset_selects(
        s0.repo.options@,
        s1.repo.options@,
        s0.presets@[s0.preset_cursor as int].tools@,
        tool,
    );
}

/// Enter on the options row with a valid selection switches that option
/// alone: its name stays, its check mark turns over, and every other option
/// is left as it was.
pub open spec fn flips_only_selected<K>(old: State<K>, cmd: InputCommand, new: State<K>) -> bool {
    (cmd == InputCommand::Enter && old.form_focus == FormFocus::Options) ==> match old.option_selected {
        Some(id) if id < old.repo.options.len() => {
            &&& new.repo.options.len() == old.repo.options.len()
            &&& new.repo.options@[id as int].name == old.repo.options@[id as int].name
            &&& new.repo.options@[id as int].checked == !old.repo.options@[id as int].checked
            &&& forall|j: int|
                0 <= j < old.repo.options.len() && j != id ==> #[trigger] new.repo.options@[j]
                    == old.repo.options@[j]
        },
        _ => new.repo.options@ == old.repo.options@,
    }
}

/// Enter on the options row switches exactly the selected option.
pub proof fn lemma_option_enter_flips_only_selected<K>(s0: State<K>, s1: State<K>, b: bool)
    requires
        s0.form_focus == FormFocus::Options,
        input_command_effect(s0, InputCommand::Enter, s1, b),
    ensures
        flips_only_selected(s0, InputCommand::Enter, s1),
{
}

/// A shown toast carries the message and the kind it was shown with, and
/// expires `TOAST_MILLIS` later.
pub proof fn lemma_toast_keeps_message_and_kind<K>(
    s0: State<K>,
    msg: Seq<char>,
    kind: ToastType,
    now: u64,
    s1: State<K>,
)
    requires
        now <= u64::MAX - TOAST_MILLIS,
        toast_shown(s0, msg, kind, now, s1),
    ensures
        s1.toast matches Some(t) && t.kind == kind && t.message@ == msg,
        s1.toast_expires_at matches Some(e) && e == now + TOAST_MILLIS,
{
}

} // verus!

//! The window's actions: their names, what each takes as a parameter, the
//! key that triggers it, and the reading of the copy action's parameter.
use vstd::prelude::*;
use vstd::string::StringSliceAdditionalSpecFns;
use vstd::utf8::encode_utf8;
use crate::rgb::is_continuation;

verus! {

/// An action that the window installs.
#[derive(Clone, Copy, Debug, PartialEq, Eq, Structural)]
pub enum WindowAction {
    ColorCopy,
    ColorPick,
    ColorSet,
    ColorSave,
    FocusClear,
    SidebarToggle,
}

/// The detailed name of an action.
pub open spec fn action_name(a: WindowAction) -> Seq<char> {
    match a {
        WindowAction::ColorCopy => "win.copy-color"@,
        WindowAction::ColorPick => "win.pick-color"@,
        WindowAction::ColorSet => "win.set-color"@,
        WindowAction::ColorSave => "win.save-color"@,
        WindowAction::FocusClear => "win.clear-focus"@,
        WindowAction::SidebarToggle => "win.toggle-sidebar"@,
    }
}

/// The actions in the order in which the window installs them.
pub open spec fn action_order() -> Seq<WindowAction> {
    seq![
        WindowAction::ColorCopy,
        WindowAction::ColorPick,
        WindowAction::ColorSet,
        WindowAction::ColorSave,
        WindowAction::FocusClear,
        WindowAction::SidebarToggle,
    ]
}

/// The parameter that an action takes.
#[derive(Clone, Copy, Debug, PartialEq, Eq, Structural)]
pub enum ActionParameter {
    /// No parameter.
    Nothing,
    /// A string: the text to copy.
    Text,
    /// Three floats: the hue, saturation and value of a colour.
    HsvTriple,
}

/// A key that triggers an action.
#[derive(Clone, Copy, Debug, PartialEq, Eq, Structural)]
pub enum ShortcutKey {
    P,
    Escape,
    S,
}

/// A key binding: the key, and whether Control is held.
#[derive(Clone, Copy, Debug, PartialEq, Eq, Structural)]
pub struct Shortcut {
    pub key: ShortcutKey,
    pub control: bool,
}

impl WindowAction {
    /// The detailed name of the action, such as `win.copy-color`.
    pub fn name(&self) -> (s: &'static str)
        ensures
            s@ == action_name(*self),
    {
        match self {
            WindowAction::ColorCopy => "win.copy-color",
            WindowAction::ColorPick => "win.pick-color",
            WindowAction::ColorSet => "win.set-color",
            WindowAction::ColorSave => "win.save-color",
            WindowAction::FocusClear => "win.clear-focus",
            WindowAction::SidebarToggle => "win.toggle-sidebar",
        }
    }

    /// Every action, in the order in which the window installs them.
    pub fn all() -> (v: Vec<WindowAction>)
        ensures
            v@ == action_order(),
    {
        let v = vec![
            WindowAction::ColorCopy,
            WindowAction::ColorPick,
            WindowAction::ColorSet,
            WindowAction::ColorSave,
            WindowAction::FocusClear,
            WindowAction::SidebarToggle,
        ];
        assert(v@ =~= action_order());
        v
    }

    /// The parameter that the action takes: the copy action a text, the set
    /// action a colour, the others nothing.
    pub fn parameter(&self) -> (p: ActionParameter)
        ensures
            p == (match self {
                WindowAction::ColorCopy => ActionParameter::Text,
                WindowAction::ColorSet => ActionParameter::HsvTriple,
                _ => ActionParameter::Nothing,
            }),
    {
        match self {
            WindowAction::ColorCopy => ActionParameter::Text,
            WindowAction::ColorSet => ActionParameter::HsvTriple,
            _ => ActionParameter::Nothing,
        }
    }

    /// The key bound to the action: `P` picks a colour, `Escape` clears the
    /// focus, `Control+S` toggles the sidebar; the other actions have none.
    pub fn shortcut(&self) -> (s: Option<Shortcut>)
        ensures
            s == (match self {
                WindowAction::ColorPick => Some(Shortcut { key: ShortcutKey::P, control: false }),
                WindowAction::FocusClear => Some(
                    Shortcut { key: ShortcutKey::Escape, control: false },
                ),
                WindowAction::SidebarToggle => Some(Shortcut { key: ShortcutKey::S, control: true }),
                _ => None,
            }),
    {
        match self {
            WindowAction::ColorPick => Some(Shortcut { key: ShortcutKey::P, control: false }),
            WindowAction::FocusClear => Some(Shortcut { key: ShortcutKey::Escape, control: false }),
            WindowAction::SidebarToggle => Some(Shortcut { key: ShortcutKey::S, control: true }),
            _ => None,
        }
    }
}

impl core::ops::Deref for WindowAction {
    type Target = str;

    fn deref(&self) -> (s: &str)
        ensures
            s@ == action_name(*self),
    {
        self.name()
    }
}

/// The printed parameter of the copy action can be cut after its opening
/// quote and before its closing one: it has two bytes at least, and neither
/// cut falls inside a char.
pub open spec fn quotes_cut_between_chars(b: Seq<u8>) -> bool {
    &&& b.len() >= 2
    &&& !is_continuation(b[1])
    &&& !is_continuation(b[b.len() - 1])
}

/// Reads the printed parameter of the copy action, such as `'rgb(1, 2, 3)'`:
/// the text between the first and the last byte, or nothing where that text
/// is empty (the colour's hex code is copied then).
pub fn copy_argument_text(printed: &str) -> (r: Option<String>)
    requires
        quotes_cut_between_chars(printed.spec_bytes()),
    ensures
        ({
            let inner = printed.spec_bytes().subrange(1, printed.spec_bytes().len() - 1);
            match r {
                None => inner.len() == 0,
                Some(t) => inner.len() > 0 && encode_utf8(t@) == inner,
            }
        }),
{
    let all = printed.as_bytes();
    let total = all.len();
    let ghost bytes = printed.spec_bytes();
    assert(all@.len() == bytes.len());
    proof {
        vstd::utf8::encode_utf8_valid_utf8(printed@);
        vstd::utf8::is_char_boundary_iff_not_is_continuation_byte(bytes, 1);
    }
    let (_, rest) = printed.split_at(1);
    assert(rest.spec_bytes().len() == bytes.len() - 1);
    let n = rest.len();
    assert(n as int == rest.spec_bytes().len());
    proof {
        vstd::utf8::encode_utf8_valid_utf8(rest@);
        assert(rest.spec_bytes()[n - 1] == bytes[bytes.len() - 1]);
        vstd::utf8::is_char_boundary_iff_not_is_continuation_byte(rest.spec_bytes(), n - 1);
    }
    let (inner, _) = rest.split_at(n - 1);
    assert(inner.spec_bytes() =~= bytes.subrange(1, bytes.len() - 1));
    if inner.len() == 0 {
        None
    } else {
        Some(inner.to_owned())
    }
}

/// The text that the copy action puts on the clipboard: the text it was given,
/// or, where it was given none, the colour's hex code.
pub fn clipboard_text(content: Option<String>, hex: String) -> (t: String)
    ensures
        t@ == (match content {
            Some(c) => c@,
            None => hex@,
        }),
{
    match content {
        Some(c) => c,
        None => hex,
    }
}

/// Two actions never share a name.
pub proof fn lemma_action_names_distinct(a: WindowAction, b: WindowAction)
    requires
        a != b,
    ensures
        action_name(a) != action_name(b),
{
    reveal_strlit("win.copy-color");
    reveal_strlit("win.pick-color");
    reveal_strlit("win.set-color");
    reveal_strlit("win.save-color");
    reveal_strlit("win.clear-focus");
    reveal_strlit("win.toggle-sidebar");
    let x = action_name(a);
    let y = action_name(b);
    if x == y {
        assert(x.len() == y.len());
        assert(x[4] == y[4]);
        assert(x[5] == y[5]);
        assert(x[6] == y[6]);
    }
}

} // verus!

use piccolo::actions::{
    clipboard_text, copy_argument_text, ActionParameter, Shortcut, ShortcutKey, WindowAction,
};
use piccolo::config::{default_env, is_devel_app_id};
use piccolo::wheel::{
    drag_begin_state, drag_end, drag_update_edit, ColorWheelDragState, DragEnd, WheelEdit,
};
use piccolo::window::{launch_action, page_for_history_toggle, LaunchAction, MainPage};

#[test]
fn default_env_prefers_the_set_value() {
    assert_eq!(default_env(Some("x.y.Z"), "art.fatdawlf.Piccolo"), "x.y.Z");
    assert_eq!(default_env(None, "art.fatdawlf.Piccolo"), "art.fatdawlf.Piccolo");
}

#[test]
fn devel_ids_are_recognised() {
    assert!(is_devel_app_id("art.fatdawlf.Piccolo.Devel"));
    assert!(is_devel_app_id(".Devel"));
    assert!(!is_devel_app_id("art.fatdawlf.Piccolo"));
    assert!(!is_devel_app_id("Devel"));
    assert!(!is_devel_app_id("art.Devel.x"));
    assert!(!is_devel_app_id("art.fatdawlf.Piccolo.devel"));
}

#[test]
fn action_names_and_order() {
    let names: Vec<&str> = WindowAction::all().iter().map(|a| a.name()).collect();
    assert_eq!(
        names,
        vec![
            "win.copy-color",
            "win.pick-color",
            "win.set-color",
            "win.save-color",
            "win.clear-focus",
            "win.toggle-sidebar"
        ]
    );
    let s: &str = &WindowAction::ColorSave;
    assert_eq!(s, "win.save-color");
}

#[test]
fn action_parameters_and_shortcuts() {
    assert_eq!(WindowAction::ColorCopy.parameter(), ActionParameter::Text);
    assert_eq!(WindowAction::ColorSet.parameter(), ActionParameter::HsvTriple);
    assert_eq!(WindowAction::ColorPick.parameter(), ActionParameter::Nothing);
    assert_eq!(
        WindowAction::ColorPick.shortcut(),
        Some(Shortcut { key: ShortcutKey::P, control: false })
    );
    assert_eq!(
        WindowAction::FocusClear.shortcut(),
        Some(Shortcut { key: ShortcutKey::Escape, control: false })
    );
    assert_eq!(
        WindowAction::SidebarToggle.shortcut(),
        Some(Shortcut { key: ShortcutKey::S, control: true })
    );
    assert_eq!(WindowAction::ColorSave.shortcut(), None);
}

#[test]
fn copy_argument_strips_the_quotes() {
    assert_eq!(copy_argument_text("'rgb(1, 2, 3)'"), Some("rgb(1, 2, 3)".to_string()));
    assert_eq!(copy_argument_text("'#FF8000'"), Some("#FF8000".to_string()));
    assert_eq!(copy_argument_text("''"), None);
    assert_eq!(copy_argument_text("'é'"), Some("é".to_string()));
}

#[test]
fn drag_begins_on_the_part_under_the_pointer() {
    let h = ColorWheelDragState::H;
    let sv = ColorWheelDragState::SV;
    assert_eq!(drag_begin_state(None, true, false), Some(h));
    assert_eq!(drag_begin_state(None, false, true), Some(sv));
    assert_eq!(drag_begin_state(Some(h), true, true), Some(sv));
    assert_eq!(drag_begin_state(None, false, false), None);
    assert_eq!(drag_begin_state(Some(sv), false, false), Some(sv));
}

#[test]
fn drag_update_edits_by_state() {
    assert_eq!(drag_update_edit(None), WheelEdit::Nothing);
    assert_eq!(drag_update_edit(Some(ColorWheelDragState::H)), WheelEdit::Hue);
    assert_eq!(
        drag_update_edit(Some(ColorWheelDragState::SV)),
        WheelEdit::SaturationValue
    );
}

#[test]
fn history_toggle_selects_page() {
    assert_eq!(page_for_history_toggle(true), MainPage::History);
    assert_eq!(page_for_history_toggle(false), MainPage::Picker);
    assert_eq!(MainPage::History.name(), "history_page");
    assert_eq!(MainPage::Picker.name(), "picker_page");
}

#[test]
fn launch_picks_only_when_asked() {
    assert_eq!(launch_action(true, true), LaunchAction::PickThenPresent);
    assert_eq!(launch_action(true, false), LaunchAction::Present);
    assert_eq!(launch_action(false, true), LaunchAction::Present);
}

#[test]
fn drag_end_clears_the_state_and_saves() {
    let end = drag_end(Some(ColorWheelDragState::SV));
    assert_eq!(end, DragEnd { state: None, action: WindowAction::ColorSave });
    assert_eq!(drag_end(None).state, None);
}

#[test]
fn clipboard_falls_back_to_hex() {
    assert_eq!(
        clipboard_text(Some("rgb(1, 2, 3)".to_string()), "#010203".to_string()),
        "rgb(1, 2, 3)"
    );
    assert_eq!(clipboard_text(None, "#010203".to_string()), "#010203");
}

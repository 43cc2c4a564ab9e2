//! Closing, the tray menu and the hot keys.

use super::commands::UiCommand;
use crate::text::{same_text, trim, trimmed};
use vstd::prelude::*;

verus! {

/// What to do when a window is asked to close.
#[derive(Debug, Clone, Copy, PartialEq, Eq, Structural)]
pub enum CloseAction {
    /// An auxiliary window closes by itself.
    PassThrough,
    /// Nothing is being recorded: leave at once.
    ExitNow,
    /// Stop, complete the file, and leave then. A file that is cut off cannot be played.
    StopThenExit,
}

/// The label of the main window.
pub open spec fn main_label() -> Seq<char> {
    "main"@
}

/// What closing a window means.
pub open spec fn closing(label: Seq<char>, is_recording: bool) -> CloseAction {
    if label != main_label() {
        CloseAction::PassThrough
    } else if is_recording {
        CloseAction::StopThenExit
    } else {
        CloseAction::ExitNow
    }
}

pub fn close_action(window_label: &str, is_recording: bool) -> (action: CloseAction)
    ensures
        action == closing(window_label@, is_recording),
{
    if !same_text(window_label, "main") {
        CloseAction::PassThrough
    } else if is_recording {
        CloseAction::StopThenExit
    } else {
        CloseAction::ExitNow
    }
}

/// Closing an auxiliary window never ends the program, and a running recording is never cut off.
pub proof fn law_closing_loses_nothing(label: Seq<char>, is_recording: bool)
    ensures
        label != main_label() ==> closing(label, is_recording) is PassThrough,
        is_recording ==> !(closing(label, is_recording) is ExitNow),
{
}

/// What an entry of the tray menu does.
#[derive(Debug, Clone, Copy, PartialEq, Eq, Structural)]
pub enum TrayAction {
    Command(UiCommand),
    ShowWindow,
    Quit,
}

/// The meaning of a menu entry's id.
pub open spec fn tray_meaning(id: Seq<char>) -> Option<TrayAction> {
    if id == "toggle"@ {
        Some(TrayAction::Command(UiCommand::Toggle))
    } else if id == "open-dir"@ {
        Some(TrayAction::Command(UiCommand::OpenDir))
    } else if id == "show"@ {
        Some(TrayAction::ShowWindow)
    } else if id == "quit"@ {
        Some(TrayAction::Quit)
    } else {
        None
    }
}

pub fn tray_action(id: &str) -> (r: Option<TrayAction>)
    ensures
        r == tray_meaning(id@),
{
    if same_text(id, "toggle") {
        Some(TrayAction::Command(UiCommand::Toggle))
    } else if same_text(id, "open-dir") {
        Some(TrayAction::Command(UiCommand::OpenDir))
    } else if same_text(id, "show") {
        Some(TrayAction::ShowWindow)
    } else if same_text(id, "quit") {
        Some(TrayAction::Quit)
    } else {
        None
    }
}

/// What a hot key does.
#[derive(Debug, Clone, Copy, PartialEq, Eq, Structural)]
pub enum HotkeyAction {
    Nothing,
    HideWindow,
    ShowWindow,
    Toggle,
}

/// A hot key was pressed or released. `dock` tells the key that shows and hides the window from
/// the one that records; `visible` is what the system says about the window, where it says
/// anything, and `window` whether there is one.
pub fn hotkey_action(pressed: bool, dock: bool, window: bool, visible: Option<bool>) -> (action:
    HotkeyAction)
    ensures
        action == (if !pressed {
            HotkeyAction::Nothing
        } else if !dock {
            HotkeyAction::Toggle
        } else if !window {
            HotkeyAction::Nothing
        } else if visible == Some(true) {
            HotkeyAction::HideWindow
        } else {
            HotkeyAction::ShowWindow
        }),
{
    if !pressed {
        return HotkeyAction::Nothing;
    }
    if !dock {
        return HotkeyAction::Toggle;
    }
    if !window {
        return HotkeyAction::Nothing;
    }
    match visible {
        Some(true) => HotkeyAction::HideWindow,
        _ => HotkeyAction::ShowWindow,
    }
}

/// The hot key to register: none where the setting is missing or blank.
pub open spec fn hotkey_to_register(setting: Option<Seq<char>>) -> Option<Seq<char>> {
    match setting {
        Some(s) if trimmed(s).len() > 0 => Some(trimmed(s)),
        _ => None,
    }
}

pub fn wanted_hotkey(setting: Option<&str>) -> (r: Option<String>)
    ensures
        match setting {
            Some(s) => match r {
                Some(key) => hotkey_to_register(Some(s@)) == Some(key@),
                None => hotkey_to_register(Some(s@)) is None,
            },
            None => r is None,
        },
{
    match setting {
        Some(s) => {
            let key: String = trim(s);
            if key.as_str().is_empty() {
                None
            } else {
                Some(key)
            }
        },
        None => None,
    }
}

/// The report on a change of the hot key. The old keys go first; where that fails nothing is
/// registered. `registered` is what registering the wanted key gave.
pub fn hotkey_result(
    unregistered: Result<(), String>,
    wanted: Option<&str>,
    registered: Result<(), String>,
) -> (r: Result<(), String>)
    ensures
        r is Ok <==> unregistered is Ok && (wanted is None || registered is Ok),
        r matches Err(text) ==> text@ == (match (unregistered, wanted, registered) {
            (Err(e), _, _) => "注销旧快捷键失败："@ + e@,
            (Ok(_), Some(key), Err(e)) => "「"@ + key@ + "」注册失败："@ + e@
                + "（可能已被其它程序占用）"@,
            _ => Seq::empty(),
        }),
{
    match unregistered {
        Err(e) => Err(String::from_str("注销旧快捷键失败：").concat(e.as_str())),
        Ok(()) => match (wanted, registered) {
            (Some(key), Err(e)) => Err(
                String::from_str("「").concat(key).concat("」注册失败：").concat(
                    e.as_str(),
                ).concat("（可能已被其它程序占用）"),
            ),
            _ => Ok(()),
        },
    }
}

/// The window does not appear in captures.
pub const AFFINITY_EXCLUDED: u32 = 0x11;

/// The window appears in captures.
pub const AFFINITY_NONE: u32 = 0;

/// The display affinity of the control window.
pub fn display_affinity(capture_visible: bool) -> (a: u32)
    ensures
        a == (if capture_visible {
            AFFINITY_NONE
        } else {
            AFFINITY_EXCLUDED
        }),
{
    if capture_visible {
        AFFINITY_NONE
    } else {
        AFFINITY_EXCLUDED
    }
}

/// Closing the main window leaves the program: at once where nothing is recorded, after the stop
/// where something is.
pub proof fn law_main_window_leaves_the_program(is_recording: bool)
    ensures
        closing("main"@, is_recording) is StopThenExit <==> is_recording,
        closing("main"@, is_recording) is ExitNow <==> !is_recording,
{
}

/// The entries of the menu do what they are called, and nothing else does anything.
pub proof fn law_menu_entries_do_what_they_say(id: Seq<char>)
    ensures
        id == "toggle"@ ==> tray_meaning(id) == Some(TrayAction::Command(UiCommand::Toggle)),
        id == "open-dir"@ ==> tray_meaning(id) == Some(TrayAction::Command(UiCommand::OpenDir)),
        id == "show"@ ==> tray_meaning(id) == Some(TrayAction::ShowWindow),
        id == "quit"@ ==> tray_meaning(id) == Some(TrayAction::Quit),
        tray_meaning(id) is Some ==> id == "toggle"@ || id == "open-dir"@ || id == "show"@ || id
            == "quit"@,
{
    reveal_strlit("toggle");
    reveal_strlit("open-dir");
    reveal_strlit("show");
    reveal_strlit("quit");
    assert("toggle"@.len() == 6 && "open-dir"@.len() == 8);
    assert("show"@.len() == 4 && "quit"@.len() == 4);
    assert("show"@[0] != "quit"@[0]);
}

/// The key to register is the setting without white space around it; a blank one is none.
pub proof fn law_blank_keys_are_not_registered(setting: Seq<char>)
    ensures
        trimmed(setting).len() > 0 ==> hotkey_to_register(Some(setting)) == Some(trimmed(setting)),
        trimmed(setting).len() == 0 ==> hotkey_to_register(Some(setting)) is None,
        hotkey_to_register(None) is None,
{
}

} // verus!

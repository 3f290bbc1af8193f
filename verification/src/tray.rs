//! The tray icon's hidden window: what each window message calls for, what
//! the tray menu's choice means, and the icon's tooltip buffer.
use vstd::prelude::*;

use crate::text::{encode_utf16, utf16};

verus! {

/// `WM_CREATE`.
pub const WM_CREATE: u32 = 0x0001;
/// `WM_DESTROY`.
pub const WM_DESTROY: u32 = 0x0002;
/// `WM_PAINT`.
pub const WM_PAINT: u32 = 0x000F;
/// `WM_RBUTTONDOWN`, as the tray reports it in a notification's `lparam`.
pub const WM_RBUTTONDOWN: u32 = 0x0204;
/// `WM_USER`, the first message number free for applications.
pub const WM_USER: u32 = 0x0400;
/// The message the tray icon sends to its window (`WM_USER + 0x100`).
pub const WM_TRAYMESSAGE: u32 = 0x0500;
/// The identifier of the tray icon.
pub const TRAY_ID: u32 = 3030303;
/// The identifier of the menu's "Exit" item.
pub const EXIT_ITEM_ID: u32 = 1;
/// The number of UTF-16 units in a tray icon's tooltip (`szTip`).
pub const TIP_LEN: usize = 128;

/// What the window procedure does with a message.
pub enum WindowAction {
    /// Keep the window's state with the window and report the new window.
    Created,
    /// Validate the window's area.
    Paint,
    /// Post the quit message.
    Destroy,
    /// Show the tray menu at the cursor (right button pressed on the icon).
    ShowTrayMenu,
    /// A tray notification that nothing handles; holds its code.
    UnhandledTray(u32),
    /// Any other message: leave it to the default window procedure.
    Default(u32),
}

/// What a choice in the tray menu calls for.
pub enum MenuAction {
    /// Close the window and end the process.
    Exit,
    /// Nothing.
    Nothing,
}

/// The code a tray notification carries: the low 32 bits of its `lparam`.
pub open spec fn tray_code(lparam: isize) -> u32 {
    lparam as u32
}

/// Law: the code of a notification is its `lparam` itself whenever that
/// fits in 32 bits, so the menu opens for exactly one such `lparam`,
/// `WM_RBUTTONDOWN`, and every other one is passed on unchanged.
pub proof fn lemma_tray_code(lparam: isize)
    ensures
        0 <= lparam <= u32::MAX ==> tray_code(lparam) == lparam,
        0 <= lparam <= u32::MAX ==> (tray_code(lparam) == WM_RBUTTONDOWN <==> lparam == WM_RBUTTONDOWN),
{
}

/// Decides what the window procedure does with `message` and its `lparam`.
pub fn classify_message(message: u32, lparam: isize) -> (action: WindowAction)
    ensures
        message == WM_CREATE ==> action is Created,
        message == WM_PAINT ==> action is Paint,
        message == WM_DESTROY ==> action is Destroy,
        message == WM_TRAYMESSAGE && tray_code(lparam) == WM_RBUTTONDOWN ==> action is ShowTrayMenu,
        message == WM_TRAYMESSAGE && tray_code(lparam) != WM_RBUTTONDOWN ==> action == WindowAction::UnhandledTray(
            tray_code(lparam),
        ),
        message != WM_CREATE && message != WM_PAINT && message != WM_DESTROY && message != WM_TRAYMESSAGE
            ==> action == WindowAction::Default(message),
{
    if message == WM_CREATE {
        WindowAction::Created
    } else if message == WM_PAINT {
        WindowAction::Paint
    } else if message == WM_DESTROY {
        WindowAction::Destroy
    } else if message == WM_TRAYMESSAGE {
        let code = lparam as u32;
        if code == WM_RBUTTONDOWN {
            WindowAction::ShowTrayMenu
        } else {
            WindowAction::UnhandledTray(code)
        }
    } else {
        WindowAction::Default(message)
    }
}

/// What the item `selected` in the tray menu calls for: only the "Exit" item does anything.
pub fn menu_choice(selected: i32) -> (action: MenuAction)
    ensures
        selected == EXIT_ITEM_ID ==> action is Exit,
        selected != EXIT_ITEM_ID ==> action is Nothing,
{
    if selected == 1 {
        MenuAction::Exit
    } else {
        MenuAction::Nothing
    }
}

/// The tooltip buffer for `text`: its UTF-16 encoding cut to `TIP_LEN` units,
/// the rest filled with zeros.
pub fn tip_buffer(text: &str) -> (tip: Vec<u16>)
    ensures
        tip@.len() == TIP_LEN,
        forall|i: int|
            0 <= i < TIP_LEN ==> #[trigger] tip@[i] == if i < utf16(text@).len() {
                utf16(text@)[i]
            } else {
                0u16
            },
{
    let units = encode_utf16(text);
    let mut tip: Vec<u16> = Vec::new();
    let mut i: usize = 0;
    while i < TIP_LEN
        invariant
            i <= TIP_LEN,
            units@ == utf16(text@),
            tip@.len() == i,
            forall|j: int|
                0 <= j < i ==> #[trigger] tip@[j] == if j < units@.len() {
                    units@[j]
                } else {
                    0u16
                },
        decreases TIP_LEN - i,
    {
        if i < units.len() {
            tip.push(units[i]);
        } else {
            tip.push(0);
        }
        i = i + 1;
    }
    tip
}

} // verus!

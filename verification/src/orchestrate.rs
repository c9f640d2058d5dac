//! The capture/replace orchestrator. Capture simulates an OS copy to read
//! the current selection; replace hides the application's own window,
//! simulates a paste into whatever then has focus, and restores the window.
//! This module decides the exact sequence of OS actions and its timing; an
//! unverified edge performs them. The fixed delays are deliberate,
//! best-effort tuning constants, not synchronization guarantees.
use vstd::prelude::*;

use crate::text::str_eq;

verus! {

/// Delay for the simulated copy key combination to register.
pub const CAPTURE_KEY_SETTLE_MS: u64 = 50;

/// Delay for the OS clipboard to update after the simulated copy.
pub const CAPTURE_CLIPBOARD_SETTLE_MS: u64 = 100;

/// Delay for focus to return to the previous window after hiding ours.
pub const FOCUS_SWITCH_SETTLE_MS: u64 = 150;

/// Delay for the simulated paste to be processed.
pub const PASTE_SETTLE_MS: u64 = 100;

/// A key the orchestrator injects at OS level.
#[derive(Clone, Copy, Debug, PartialEq, Eq, Structural)]
pub enum InputKey {
    /// The platform modifier of the copy and paste shortcuts.
    Control,
    /// The copy letter key.
    KeyC,
    /// The paste letter key.
    KeyV,
}

/// One step of an orchestration, to be performed in order by the OS edge.
#[derive(Clone, Copy, Debug, PartialEq, Eq, Structural)]
pub enum OsAction {
    KeyDown(InputKey),
    KeyUp(InputKey),
    SleepMs(u64),
    ReadClipboard,
    HideWindow,
    ShowWindow,
    FocusWindow,
}

/// The capture choreography: press the copy shortcut, let it register,
/// release it, let the clipboard settle, then read the clipboard.
pub open spec fn capture_plan_spec() -> Seq<OsAction> {
    seq![
        OsAction::KeyDown(InputKey::Control),
        OsAction::KeyDown(InputKey::KeyC),
        OsAction::SleepMs(CAPTURE_KEY_SETTLE_MS),
        OsAction::KeyUp(InputKey::KeyC),
        OsAction::KeyUp(InputKey::Control),
        OsAction::SleepMs(CAPTURE_CLIPBOARD_SETTLE_MS),
        OsAction::ReadClipboard,
    ]
}

/// The replace choreography for `mode`: only "replace" acts at all, and it
/// hides the window, waits for focus to move on, injects the paste
/// keystrokes, waits for the paste, then shows and refocuses the window.
pub open spec fn replace_plan_spec(mode: Seq<char>) -> Seq<OsAction> {
    if mode == "replace"@ {
        seq![
            OsAction::HideWindow,
            OsAction::SleepMs(FOCUS_SWITCH_SETTLE_MS),
            OsAction::KeyDown(InputKey::Control),
            OsAction::KeyDown(InputKey::KeyV),
            OsAction::KeyUp(InputKey::KeyV),
            OsAction::KeyUp(InputKey::Control),
            OsAction::SleepMs(PASTE_SETTLE_MS),
            OsAction::ShowWindow,
            OsAction::FocusWindow,
        ]
    } else {
        Seq::empty()
    }
}

/// The ordered OS actions that capture a selection.
pub fn capture_plan() -> (r: Vec<OsAction>)
    ensures
        r@ == capture_plan_spec(),
{
    let r = vec![
        OsAction::KeyDown(InputKey::Control),
        OsAction::KeyDown(InputKey::KeyC),
        OsAction::SleepMs(CAPTURE_KEY_SETTLE_MS),
        OsAction::KeyUp(InputKey::KeyC),
        OsAction::KeyUp(InputKey::Control),
        OsAction::SleepMs(CAPTURE_CLIPBOARD_SETTLE_MS),
        OsAction::ReadClipboard,
    ];
    proof {
        assert(r@ =~= capture_plan_spec());
    }
    r
}

/// The ordered OS actions that paste the transformed text back, empty for
/// any mode but "replace".
pub fn replace_plan(mode: &str) -> (r: Vec<OsAction>)
    ensures
        r@ == replace_plan_spec(mode@),
{
    if str_eq(mode, "replace") {
        let r = vec![
            OsAction::HideWindow,
            OsAction::SleepMs(FOCUS_SWITCH_SETTLE_MS),
            OsAction::KeyDown(InputKey::Control),
            OsAction::KeyDown(InputKey::KeyV),
            OsAction::KeyUp(InputKey::KeyV),
            OsAction::KeyUp(InputKey::Control),
            OsAction::SleepMs(PASTE_SETTLE_MS),
            OsAction::ShowWindow,
            OsAction::FocusWindow,
        ];
        proof {
            assert(r@ =~= replace_plan_spec(mode@));
        }
        r
    } else {
        let r: Vec<OsAction> = Vec::new();
        proof {
            assert(r@ =~= replace_plan_spec(mode@));
        }
        r
    }
}

/// What capture returns once the edge has read the clipboard: the text when
/// one was read, the empty string when the clipboard could not be read or
/// held no text — capture is best-effort and never an error.
pub fn capture_text(read: Option<String>) -> (r: String)
    ensures
        read matches Some(t) ==> r == t,
        read is None ==> r@ == Seq::<char>::empty(),
{
    match read {
        Some(t) => t,
        None => String::new(),
    }
}

/// In a replace, the window is hidden first, every injected key event lies
/// strictly between the hide and the show, and the window is shown and then
/// refocused after the paste has settled.
pub proof fn lemma_replace_hides_before_paste(mode: Seq<char>)
    requires
        mode == "replace"@,
    ensures
        ({
            let p = replace_plan_spec(mode);
            &&& p.len() == 9
            &&& p[0] is HideWindow
            &&& forall|i: int|
                0 <= i < p.len() && ((#[trigger] p[i]) is KeyDown || p[i] is KeyUp) ==> 2 <= i
                    <= 5
            &&& p[7] is ShowWindow
            &&& p[8] is FocusWindow
        }),
{
    let p = replace_plan_spec(mode);
    assert forall|i: int|
        0 <= i < p.len() && ((#[trigger] p[i]) is KeyDown || p[i] is KeyUp) implies 2 <= i
        <= 5 by {
        if i < 2 || i > 5 {
            assert(!(p[i] is KeyDown) && !(p[i] is KeyUp));
        }
    }
}

} // verus!

//! Keyboard shortcuts: which commands the keys pressed in a frame ask for,
//! and in which order.

use crate::workspace::Command;
use vstd::prelude::*;

verus! {

/// The modifier state of a frame and which of the shortcut keys were
/// pressed in it.
#[derive(Clone, Copy)]
pub struct ShortcutKeys {
    pub ctrl: bool,
    pub shift: bool,
    pub p: bool,
    pub b: bool,
    pub j: bool,
    pub s: bool,
    pub z: bool,
    pub y: bool,
    pub f: bool,
    pub escape: bool,
}

/// `cmd` alone when `fires`, nothing otherwise.
pub open spec fn when(fires: bool, cmd: Command) -> Seq<Command> {
    if fires {
        seq![cmd]
    } else {
        seq![]
    }
}

/// Ctrl+P, Ctrl+B, Ctrl+J, Ctrl+S, Ctrl+Z (without Shift), Ctrl+Y or
/// Ctrl+Shift+Z, Ctrl+F and Escape, in that order.
pub open spec fn shortcut_spec(k: ShortcutKeys) -> Seq<Command> {
    when(k.ctrl && k.p, Command::ToggleCommandPalette) + when(k.ctrl && k.b, Command::ToggleRightPanel)
        + when(k.ctrl && k.j, Command::ToggleBottomPanel) + when(k.ctrl && k.s, Command::Save)
        + when(k.ctrl && !k.shift && k.z, Command::Undo) + when(
        k.ctrl && (k.y || (k.shift && k.z)),
        Command::Redo,
    ) + when(k.ctrl && k.f, Command::ToggleFindBar) + when(k.escape, Command::DismissOverlays)
}

fn push_when(v: &mut Vec<Command>, fires: bool, cmd: Command)
    ensures
        final(v)@ == old(v)@ + when(fires, cmd),
{
    let ghost before = v@;
    if fires {
        v.push(cmd);
    }
    assert(v@ =~= before + when(fires, cmd));
}

/// The commands the shortcut keys of a frame ask for (see `shortcut_spec`).
pub fn shortcut_commands(k: ShortcutKeys) -> (cmds: Vec<Command>)
    ensures
        cmds@ == shortcut_spec(k),
{
    let mut v: Vec<Command> = Vec::new();
    push_when(&mut v, k.ctrl && k.p, Command::ToggleCommandPalette);
    push_when(&mut v, k.ctrl && k.b, Command::ToggleRightPanel);
    push_when(&mut v, k.ctrl && k.j, Command::ToggleBottomPanel);
    push_when(&mut v, k.ctrl && k.s, Command::Save);
    push_when(&mut v, k.ctrl && !k.shift && k.z, Command::Undo);
    push_when(&mut v, k.ctrl && (k.y || (k.shift && k.z)), Command::Redo);
    push_when(&mut v, k.ctrl && k.f, Command::ToggleFindBar);
    push_when(&mut v, k.escape, Command::DismissOverlays);
    assert(v@ =~= shortcut_spec(k));
    v
}

}

use zord::shortcuts::{shortcut_commands, ShortcutKeys};
use zord::workspace::Command;

fn keys() -> ShortcutKeys {
    ShortcutKeys { ctrl: false, shift: false, p: false, b: false, j: false, s: false, z: false, y: false, f: false, escape: false }
}

#[test]
fn ctrl_z_undoes_and_ctrl_shift_z_redoes() {
    assert_eq!(shortcut_commands(ShortcutKeys { ctrl: true, z: true, ..keys() }), vec![Command::Undo]);
    assert_eq!(shortcut_commands(ShortcutKeys { ctrl: true, shift: true, z: true, ..keys() }), vec![Command::Redo]);
    assert_eq!(shortcut_commands(ShortcutKeys { ctrl: true, y: true, ..keys() }), vec![Command::Redo]);
    assert_eq!(shortcut_commands(ShortcutKeys { z: true, ..keys() }), vec![]);
}

#[test]
fn shortcuts_come_in_a_fixed_order() {
    let all = ShortcutKeys { ctrl: true, shift: false, p: true, b: true, j: true, s: true, z: true, y: true, f: true, escape: true };
    assert_eq!(
        shortcut_commands(all),
        vec![
            Command::ToggleCommandPalette,
            Command::ToggleRightPanel,
            Command::ToggleBottomPanel,
            Command::Save,
            Command::Undo,
            Command::Redo,
            Command::ToggleFindBar,
            Command::DismissOverlays,
        ]
    );
    assert_eq!(shortcut_commands(ShortcutKeys { escape: true, ..keys() }), vec![Command::DismissOverlays]);
    assert_eq!(shortcut_commands(ShortcutKeys { ctrl: true, s: true, z: true, ..keys() }), vec![Command::Save, Command::Undo]);
}

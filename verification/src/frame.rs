//! One frame of the editor: the shortcut keys pressed, the files that
//! arrived from loading, the input events, and then the line counts
//! brought up to date, in that order.

use crate::buffer::BufferModel;
use crate::clock::is_clock_stamp;
use crate::editing::EditEvent;
use crate::rope::rope_text;
use crate::shortcuts::{shortcut_commands, shortcut_spec, ShortcutKeys};
use crate::workspace::{log_line, Command, LoadedFile, Workspace, WorkspaceModel};
use vstd::prelude::*;

verus! {

/// How writing the active buffer went, for a frame in which Ctrl+S was
/// pressed: whether it was written, and the line to log.
pub struct SaveReport {
    pub saved: bool,
    pub message: String,
}

/// A loaded file that arrived, and the line to log if it is taken in.
pub struct Arrival {
    pub file: LoadedFile,
    pub message: String,
}

/// What a frame hands back: the text to put on the clipboard, if any, and
/// whether a loaded file was taken into the active view.
pub struct FrameResult {
    pub copied: Option<String>,
    pub loaded: bool,
}

/// Buffer `k` marked as written, when it was.
pub open spec fn marked_saved(m: WorkspaceModel, k: int, saved: bool) -> WorkspaceModel {
    if saved {
        WorkspaceModel {
            buffers: m.buffers.update(k, BufferModel { unsaved_changes: false, ..m.buffers[k] }),
            ..m
        }
    } else {
        m
    }
}

/// The save shortcut: with no path the editor logs that there is nothing to
/// save; with a path the report of the write is taken in and logged. The
/// second part is how many time stamps were used.
pub open spec fn save_step(m: WorkspaceModel, save: Option<SaveReport>, stamp: Seq<char>) -> (WorkspaceModel, nat) {
    let bi = m.active_buffer_index();
    match m.buffers[bi].path {
        None => (m.with_log(log_line(stamp, "No file open to save."@)), 1),
        Some(_) => match save {
            Some(r) => (marked_saved(m, bi, r.saved).with_log(log_line(stamp, r.message@)), 1),
            None => (m, 0),
        },
    }
}

/// The commands of the shortcuts, in order; log lines take their time
/// stamps from `stamps` in order. The second part is how many were used.
pub open spec fn command_phase(
    m: WorkspaceModel,
    cmds: Seq<Command>,
    save: Option<SaveReport>,
    stamps: Seq<Seq<char>>,
) -> (WorkspaceModel, nat)
    decreases cmds.len(),
{
    if cmds.len() == 0 {
        (m, 0)
    } else {
        let p = command_phase(m, cmds.drop_last(), save, stamps);
        if cmds.last() is Save {
            let r = save_step(p.0, save, stamps[p.1 as int]);
            (r.0, p.1 + r.1)
        } else {
            (p.0.after_command(cmds.last()), p.1)
        }
    }
}

/// The arrived files, in order: one from the most recent load is taken in
/// and its line logged with the next time stamp from `stamps[start..]`; an
/// older one is dropped. The second part is how many stamps were used up to
/// there, the third whether a file was taken in.
pub open spec fn arrival_phase(m: WorkspaceModel, arrs: Seq<Arrival>, stamps: Seq<Seq<char>>, start: nat) -> (
    WorkspaceModel,
    nat,
    bool,
)
    decreases arrs.len(),
{
    if arrs.len() == 0 {
        (m, start, false)
    } else {
        let p = arrival_phase(m, arrs.drop_last(), stamps, start);
        let a = arrs.last();
        if a.file.id == p.0.current_load_id {
            (
                p.0.after_load(rope_text(a.file.rope), a.file.path, a.file.lines).with_log(
                    log_line(stamps[p.1 as int], a.message@),
                ),
                p.1 + 1,
                true,
            )
        } else {
            p
        }
    }
}

/// A whole frame: the shortcut commands, the arrived files, the input
/// events (when the editor has the focus), then every line count brought
/// up to date. Returns the editor, the copied text and whether a file was
/// taken in.
#[verifier::opaque]
pub open spec fn frame_after(
    m: WorkspaceModel,
    keys: ShortcutKeys,
    save: Option<SaveReport>,
    arrs: Seq<Arrival>,
    events: Seq<EditEvent>,
    stamps: Seq<Seq<char>>,
) -> (WorkspaceModel, Option<Seq<char>>, bool) {
    let c = command_phase(m, shortcut_spec(keys), save, stamps);
    let a = arrival_phase(c.0, arrs, stamps, c.1);
    let i = if a.0.editor_focused {
        a.0.input_steps(events)
    } else {
        (a.0, None)
    };
    (i.0.recalculated(), i.1, a.2)
}

/// Every one of `stamps` is a time of day as the log writes it.
pub open spec fn all_clock_stamps(stamps: Seq<Seq<char>>) -> bool {
    forall|i: int| 0 <= i < stamps.len() ==> is_clock_stamp(#[trigger] stamps[i])
}

/// `s2` begins with `s1`.
pub open spec fn extends(s1: Seq<Seq<char>>, s2: Seq<Seq<char>>) -> bool {
    s1.len() <= s2.len() && forall|i: int| 0 <= i < s1.len() ==> s1[i] == #[trigger] s2[i]
}

/// Stamps past those the command phase uses do not change it.
proof fn lemma_command_phase_ext(
    m: WorkspaceModel,
    cmds: Seq<Command>,
    save: Option<SaveReport>,
    s1: Seq<Seq<char>>,
    s2: Seq<Seq<char>>,
)
    requires
        command_phase(m, cmds, save, s1).1 <= s1.len(),
        extends(s1, s2),
    ensures
        command_phase(m, cmds, save, s2) == command_phase(m, cmds, save, s1),
    decreases cmds.len(),
{
    if cmds.len() > 0 {
        lemma_command_phase_ext(m, cmds.drop_last(), save, s1, s2);
        let p = command_phase(m, cmds.drop_last(), save, s1);
        if cmds.last() is Save {
            let r = save_step(p.0, save, s1[p.1 as int]);
            if r.1 > 0 {
                assert(s1[p.1 as int] == s2[p.1 as int]);
            } else {
                assert(save_step(p.0, save, s2[p.1 as int]).1 == 0);
            }
        }
    }
}

/// The arrival phase uses stamps from `start` on, one per file taken in.
proof fn lemma_arrival_phase_used(m: WorkspaceModel, arrs: Seq<Arrival>, stamps: Seq<Seq<char>>, start: nat)
    ensures
        arrival_phase(m, arrs, stamps, start).1 >= start,
    decreases arrs.len(),
{
    if arrs.len() > 0 {
        lemma_arrival_phase_used(m, arrs.drop_last(), stamps, start);
    }
}

/// Stamps past those the arrival phase uses do not change it.
proof fn lemma_arrival_phase_ext(
    m: WorkspaceModel,
    arrs: Seq<Arrival>,
    s1: Seq<Seq<char>>,
    s2: Seq<Seq<char>>,
    start: nat,
)
    requires
        arrival_phase(m, arrs, s1, start).1 <= s1.len(),
        extends(s1, s2),
    ensures
        arrival_phase(m, arrs, s2, start) == arrival_phase(m, arrs, s1, start),
    decreases arrs.len(),
{
    if arrs.len() > 0 {
        let p = arrival_phase(m, arrs.drop_last(), s1, start);
        lemma_arrival_phase_used(m, arrs.drop_last(), s1, start);
        lemma_arrival_phase_ext(m, arrs.drop_last(), s1, s2, start);
        if arrs.last().file.id == p.0.current_load_id {
            assert(s1[p.1 as int] == s2[p.1 as int]);
        }
    }
}

/// A frame is its phases in turn.
proof fn lemma_frame_phases(
    m: WorkspaceModel,
    keys: ShortcutKeys,
    save: Option<SaveReport>,
    arrs: Seq<Arrival>,
    events: Seq<EditEvent>,
    stamps: Seq<Seq<char>>,
    n1: nat,
    m1: WorkspaceModel,
    m2: WorkspaceModel,
    loaded: bool,
    i: (WorkspaceModel, Option<Seq<char>>),
)
    requires
        command_phase(m, shortcut_spec(keys), save, stamps) == (m1, n1),
        arrival_phase(m1, arrs, stamps, n1) == (m2, stamps.len(), loaded),
        i == (if m2.editor_focused {
            m2.input_steps(events)
        } else {
            (m2, None)
        }),
    ensures
        frame_after(m, keys, save, arrs, events, stamps) == (i.0.recalculated(), i.1, loaded),
{
    reveal(frame_after);
}

impl Workspace {
    /// The shortcut commands of a frame (see `command_phase`).
    fn run_commands(&mut self, cmds: &Vec<Command>, save: &Option<SaveReport>, Ghost(m): Ghost<WorkspaceModel>)
        -> (stamps: Ghost<Seq<Seq<char>>>)
        requires
            old(self)@.wf(),
            old(self)@ == m,
        ensures
            final(self)@.wf(),
            all_clock_stamps(stamps@),
            command_phase(m, cmds@, *save, stamps@) == (final(self)@, stamps@.len()),
    {
        let ghost mut stamps: Seq<Seq<char>> = Seq::empty();
        let n = cmds.len();
        let mut i: usize = 0;
        while i < n
            invariant
                n == cmds@.len(),
                i <= n,
                self@.wf(),
                all_clock_stamps(stamps),
                command_phase(m, cmds@.take(i as int), *save, stamps) == (self@, stamps.len()),
            decreases n - i,
        {
            let ghost before = self@;
            let ghost prefix = cmds@.take(i as int);
            assert(cmds@.take(i + 1).drop_last() =~= prefix);
            assert(cmds@.take(i + 1).last() == cmds@[i as int]);
            let cmd = cmds[i];
            match cmd {
                Command::Save => {
                    let bi = self.active_buf();
                    let has_path = self.buffer(bi).path().is_some();
                    if !has_path {
                        self.add_log("No file open to save.");
                        proof {
                            let st = choose|st: Seq<char>|
                                is_clock_stamp(st) && self@ == before.with_log(
                                    log_line(st, "No file open to save."@),
                                );
                            let s2 = stamps.push(st);
                            lemma_command_phase_ext(m, prefix, *save, stamps, s2);
                            stamps = s2;
                        }
                    } else {
                        match save {
                            Some(r) => {
                                self.finish_save(bi, r.saved, r.message.as_str());
                                proof {
                                    let st = choose|st: Seq<char>|
                                        is_clock_stamp(st) && self@ == marked_saved(
                                            before,
                                            bi as int,
                                            r.saved,
                                        ).with_log(log_line(st, r.message@));
                                    let s2 = stamps.push(st);
                                    lemma_command_phase_ext(m, prefix, *save, stamps, s2);
                                    stamps = s2;
                                }
                            },
                            None => {},
                        }
                    }
                },
                _ => {
                    self.apply_command(cmd);
                },
            }
            i = i + 1;
        }
        assert(cmds@.take(n as int) =~= cmds@);
        Ghost(stamps)
    }

    /// The arrived files of a frame (see `arrival_phase`).
    fn run_arrivals(
        &mut self,
        arrivals: Vec<Arrival>,
        Ghost(m): Ghost<WorkspaceModel>,
        Ghost(s0): Ghost<Seq<Seq<char>>>,
    ) -> (r: (bool, Ghost<Seq<Seq<char>>>))
        requires
            old(self)@.wf(),
            old(self)@ == m,
            all_clock_stamps(s0),
        ensures
            final(self)@.wf(),
            all_clock_stamps(r.1@),
            extends(s0, r.1@),
            arrival_phase(m, arrivals@, r.1@, s0.len()) == (final(self)@, r.1@.len(), r.0),
    {
        let ghost arrs = arrivals@;
        let ghost mut stamps = s0;
        let mut rest = arrivals;
        let mut loaded = false;
        let ghost mut i: int = 0;
        while rest.len() > 0
            invariant
                0 <= i <= arrs.len(),
                rest@ == arrs.skip(i),
                self@.wf(),
                all_clock_stamps(stamps),
                extends(s0, stamps),
                arrival_phase(m, arrs.take(i), stamps, s0.len()) == (self@, stamps.len(), loaded),
            decreases rest.len(),
        {
            let ghost before = self@;
            let ghost prefix = arrs.take(i);
            assert(arrs.take(i + 1).drop_last() =~= prefix);
            assert(arrs.take(i + 1).last() == arrs[i]);
            let a = rest.remove(0);
            assert(a == arrs[i]);
            let Arrival { file, message } = a;
            if file.id == self.current_load_id() {
                let ghost text = rope_text(file.rope);
                let ghost path = file.path;
                let ghost lines = file.lines;
                let accepted = self.apply_loaded(file, message.as_str());
                loaded = true;
                proof {
                    let st = choose|st: Seq<char>|
                        is_clock_stamp(st) && self@ == before.after_load(text, path, lines).with_log(
                            log_line(st, message@),
                        );
                    let s2 = stamps.push(st);
                    lemma_arrival_phase_ext(m, prefix, stamps, s2, s0.len());
                    stamps = s2;
                }
            }
            proof {
                i = i + 1;
            }
            assert(rest@ =~= arrs.skip(i));
        }
        assert(arrs.take(i) =~= arrs);
        (loaded, Ghost(stamps))
    }

    /// One frame (see `frame_after`): `keys` are the shortcut keys pressed,
    /// `save` how writing went when Ctrl+S was pressed, `arrivals` the files
    /// that arrived, `events` the input. Log lines are stamped with the time
    /// of day.
    pub fn run_frame(
        &mut self,
        keys: ShortcutKeys,
        save: Option<SaveReport>,
        arrivals: Vec<Arrival>,
        events: &Vec<EditEvent>,
    ) -> (r: FrameResult)
        requires
            old(self)@.wf(),
        ensures
            final(self)@.wf(),
            exists|stamps: Seq<Seq<char>>|
                #![trigger all_clock_stamps(stamps)]
                {
                    let f = frame_after(old(self)@, keys, save, arrivals@, events@, stamps);
                    &&& all_clock_stamps(stamps)
                    &&& final(self)@ == f.0
                    &&& r.loaded == f.2
                    &&& match r.copied {
                        Some(t) => f.1 == Some(t@),
                        None => f.1.is_none(),
                    }
                },
    {
        let ghost m = self@;
        let ghost arrs = arrivals@;
        let cmds = shortcut_commands(keys);
        let Ghost(sc) = self.run_commands(&cmds, &save, Ghost(m));
        let ghost m1 = self@;
        let (loaded, Ghost(sa)) = self.run_arrivals(arrivals, Ghost(m1), Ghost(sc));
        let ghost m2 = self@;
        proof {
            lemma_command_phase_ext(m, cmds@, save, sc, sa);
            assert(command_phase(m, shortcut_spec(keys), save, sa) == (m1, sc.len()));
            assert(arrival_phase(m1, arrs, sa, sc.len()) == (m2, sa.len(), loaded));
        }
        let copied = self.handle_input(events);
        proof {
            let i = if m2.editor_focused {
                m2.input_steps(events@)
            } else {
                (m2, None)
            };
            lemma_frame_phases(m, keys, save, arrs, events@, sa, sc.len(), m1, m2, loaded, i);
        }
        self.recalc_all();
        FrameResult { copied, loaded }
    }
}

/// Ctrl is held and no shortcut key is pressed but Z, Y and Shift.
pub open spec fn only_history_keys(k: ShortcutKeys) -> bool {
    &&& k.ctrl
    &&& !k.p
    &&& !k.b
    &&& !k.j
    &&& !k.s
    &&& !k.f
    &&& !k.escape
}

/// A frame with Ctrl+Z (without Shift, and without Y) and nothing else, no
/// file arriving and no input event, is exactly an undo of the active
/// buffer followed by every line count brought up to date; nothing is
/// copied or loaded.
pub proof fn law_undo_frame(
    m: WorkspaceModel,
    keys: ShortcutKeys,
    save: Option<SaveReport>,
    stamps: Seq<Seq<char>>,
)
    requires
        only_history_keys(keys),
        keys.z,
        !keys.shift,
        !keys.y,
    ensures
        frame_after(m, keys, save, seq![], seq![], stamps) == (m.after_undo().recalculated(), None::<Seq<char>>, false),
{
    reveal(frame_after);
    let cmds = shortcut_spec(keys);
    assert(cmds =~= seq![Command::Undo]);
    assert(cmds.drop_last() =~= Seq::<Command>::empty());
    assert(command_phase(m, cmds.drop_last(), save, stamps) == (m, 0nat));
    let c = command_phase(m, cmds, save, stamps);
    assert(c == (m.after_command(Command::Undo), 0nat));
    let u = m.after_undo();
    assert(arrival_phase(u, seq![], stamps, 0) == (u, 0nat, false));
    assert(u.input_steps(seq![]) == (u, None::<Seq<char>>));
}

/// A frame with Ctrl+Y or Ctrl+Shift+Z (and not Ctrl+Z without Shift) and
/// nothing else, no file arriving and no input event, is exactly a redo of
/// the active buffer followed by every line count brought up to date;
/// nothing is copied or loaded.
pub proof fn law_redo_frame(
    m: WorkspaceModel,
    keys: ShortcutKeys,
    save: Option<SaveReport>,
    stamps: Seq<Seq<char>>,
)
    requires
        only_history_keys(keys),
        keys.y || (keys.shift && keys.z),
        !(!keys.shift && keys.z),
    ensures
        frame_after(m, keys, save, seq![], seq![], stamps) == (m.after_redo().recalculated(), None::<Seq<char>>, false),
{
    reveal(frame_after);
    let cmds = shortcut_spec(keys);
    assert(cmds =~= seq![Command::Redo]);
    assert(cmds.drop_last() =~= Seq::<Command>::empty());
    assert(command_phase(m, cmds.drop_last(), save, stamps) == (m, 0nat));
    let c = command_phase(m, cmds, save, stamps);
    assert(c == (m.after_command(Command::Redo), 0nat));
    let r = m.after_redo();
    assert(arrival_phase(r, seq![], stamps, 0) == (r, 0nat, false));
    assert(r.input_steps(seq![]) == (r, None::<Seq<char>>));
}

}

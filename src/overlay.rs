use vstd::prelude::*;
use crate::channel::opt_chars;
use crate::text::{columns_of, decimal, parse_columns, to_decimal};

verus! {

/// A request for the overlay process. `Add` shows a video's thumbnail in a
/// pane of the given width; `Remove` clears it; `Shutdown` ends the session.
pub enum OverlayCommand {
    Add(String, usize),
    Remove,
    Shutdown,
}

/// Where the thumbnail of a video is kept under the cache directory.
pub open spec fn thumbnail_path_of(cache_dir: Seq<char>, id: Seq<char>) -> Seq<char> {
    cache_dir + "/thumb/"@ + id + ".jpg"@
}

pub fn thumbnail_path(cache_dir: &str, id: &str) -> (r: String)
    ensures
        r@ == thumbnail_path_of(cache_dir@, id@),
{
    let mut s = String::from_str(cache_dir);
    s.append("/thumb/");
    s.append(id);
    s.append(".jpg");
    s
}

/// The protocol line that clears the preview image.
pub open spec fn remove_line_of() -> Seq<char> {
    "{\"action\":\"remove\",\"identifier\":\"preview\"}"@
}

/// The protocol line that shows a thumbnail at column `x` with width `w`.
pub open spec fn add_line_of(cache_dir: Seq<char>, id: Seq<char>, x: nat, w: nat) -> Seq<char> {
    "{\"action\":\"add\",\"identifier\":\"preview\",\"path\":\""@ + thumbnail_path_of(cache_dir, id)
        + "\",\"x\":"@ + decimal(x) + ",\"y\":0,\"width\":"@ + decimal(w)
        + ",\"scaler\":\"contain\",\"scaling_position_x\":0.5,\"scaling_position_y\":0.5}"@
}

pub fn remove_line() -> (r: String)
    ensures
        r@ == remove_line_of(),
{
    String::from_str("{\"action\":\"remove\",\"identifier\":\"preview\"}")
}

pub fn add_line(cache_dir: &str, id: &str, x: u128, w: u128) -> (r: String)
    ensures
        r@ == add_line_of(cache_dir@, id@, x as nat, w as nat),
{
    let mut s = String::from_str("{\"action\":\"add\",\"identifier\":\"preview\",\"path\":\"");
    let p = thumbnail_path(cache_dir, id);
    s.append(p.as_str());
    s.append("\",\"x\":");
    let xs = to_decimal(x);
    s.append(xs.as_str());
    s.append(",\"y\":0,\"width\":");
    let ws = to_decimal(w);
    s.append(ws.as_str());
    s.append(",\"scaler\":\"contain\",\"scaling_position_x\":0.5,\"scaling_position_y\":0.5}");
    s
}

/// What the overlay consumer knows: where thumbnails live, which video it
/// shows now (none after a `Remove`), and whether it still runs.
pub struct ConsumerState {
    pub cache_dir: Seq<char>,
    pub last_shown: Option<Seq<char>>,
    pub running: bool,
}

/// The single consumer of overlay commands. It turns each command into one
/// protocol line and replays the current image when the terminal is resized.
pub struct OverlayConsumer {
    pub cache_dir: String,
    pub last_shown: Option<String>,
    pub running: bool,
}

impl View for OverlayConsumer {
    type V = ConsumerState;

    open spec fn view(&self) -> ConsumerState {
        ConsumerState {
            cache_dir: self.cache_dir@,
            last_shown: opt_chars(self.last_shown),
            running: self.running,
        }
    }
}

/// One command: the next state and the line written, if any. A stopped
/// consumer ignores everything.
pub open spec fn step(st: ConsumerState, cmd: OverlayCommand) -> (ConsumerState, Option<Seq<char>>) {
    if !st.running {
        (st, None)
    } else {
        match cmd {
            OverlayCommand::Add(id, w) => (
                ConsumerState { last_shown: Some(id@), ..st },
                Some(add_line_of(st.cache_dir, id@, (w + 3) as nat, w as nat)),
            ),
            OverlayCommand::Remove => (
                ConsumerState { last_shown: None, ..st },
                Some(remove_line_of()),
            ),
            OverlayCommand::Shutdown => (ConsumerState { running: false, ..st }, None),
        }
    }
}

/// The line written on a terminal resize, given what the width probe printed:
/// the current image again, placed in the right half of the new width.
pub open spec fn resize_line(st: ConsumerState, probe: Seq<char>) -> Option<Seq<char>> {
    match st.last_shown {
        Some(id) if st.running => Some(
            add_line_of(st.cache_dir, id, columns_of(probe) / 2 + 1, columns_of(probe) / 2),
        ),
        _ => None,
    }
}

/// The lines written for a sequence of commands, in order, up to `Shutdown`.
pub open spec fn lines_written(st: ConsumerState, cmds: Seq<OverlayCommand>) -> Seq<Seq<char>>
    decreases cmds.len(),
{
    if cmds.len() == 0 {
        Seq::empty()
    } else {
        let (next, out) = step(st, cmds[0]);
        let rest = lines_written(next, cmds.drop_first());
        match out {
            Some(l) => seq![l] + rest,
            None => rest,
        }
    }
}

/// The consumer's state after a sequence of commands.
pub open spec fn state_after(st: ConsumerState, cmds: Seq<OverlayCommand>) -> ConsumerState
    decreases cmds.len(),
{
    if cmds.len() == 0 {
        st
    } else {
        state_after(step(st, cmds[0]).0, cmds.drop_first())
    }
}

pub open spec fn is_shutdown(c: OverlayCommand) -> bool {
    c is Shutdown
}

impl OverlayConsumer {
    pub fn new(cache_dir: String) -> (r: OverlayConsumer)
        ensures
            r@ == (ConsumerState { cache_dir: cache_dir@, last_shown: None, running: true }),
    {
        OverlayConsumer { cache_dir, last_shown: None, running: true }
    }

    /// Handles one command and returns the line to write to the overlay.
    pub fn handle(&mut self, cmd: OverlayCommand) -> (r: Option<String>)
        ensures
            (final(self)@, opt_chars(r)) == step(old(self)@, cmd),
    {
        if !self.running {
            return None;
        }
        match cmd {
            OverlayCommand::Add(id, w) => {
                let line = add_line(self.cache_dir.as_str(), id.as_str(), w as u128 + 3, w as u128);
                self.last_shown = Some(id);
                Some(line)
            },
            OverlayCommand::Remove => {
                self.last_shown = None;
                Some(remove_line())
            },
            OverlayCommand::Shutdown => {
                self.running = false;
                None
            },
        }
    }

    /// Handles a terminal resize, given what the width probe printed.
    pub fn handle_resize(&self, probe: &str) -> (r: Option<String>)
        ensures
            opt_chars(r) == resize_line(self@, probe@),
    {
        if !self.running {
            return None;
        }
        match &self.last_shown {
            Some(id) => {
                let cols = parse_columns(probe);
                Some(add_line(self.cache_dir.as_str(), id.as_str(), cols as u128 / 2 + 1, cols as u128 / 2))
            },
            None => None,
        }
    }
}

/// `Remove` then `Add(v, w)` writes the remove line and then exactly one add
/// line, for `v` at the offset that `w` gives; between the two no resize can
/// bring back the image shown before.
pub proof fn lemma_remove_then_add(st: ConsumerState, id: String, w: usize, probe: Seq<char>)
    requires
        st.running,
    ensures
        lines_written(st, seq![OverlayCommand::Remove, OverlayCommand::Add(id, w)]) == seq![
            remove_line_of(),
            add_line_of(st.cache_dir, id@, (w + 3) as nat, w as nat),
        ],
        resize_line(step(st, OverlayCommand::Remove).0, probe) == None::<Seq<char>>,
        step(step(st, OverlayCommand::Remove).0, OverlayCommand::Add(id, w)).0.last_shown == Some(
            id@,
        ),
{
    let cmds = seq![OverlayCommand::Remove, OverlayCommand::Add(id, w)];
    let s1 = step(st, OverlayCommand::Remove).0;
    let s2 = step(s1, OverlayCommand::Add(id, w)).0;
    assert(cmds.drop_first() =~= seq![OverlayCommand::Add(id, w)]);
    assert(cmds.drop_first().drop_first() =~= Seq::<OverlayCommand>::empty());
    assert(lines_written(s2, Seq::<OverlayCommand>::empty()) == Seq::<Seq<char>>::empty());
    assert(lines_written(s1, seq![OverlayCommand::Add(id, w)]) =~= seq![
        add_line_of(st.cache_dir, id@, (w + 3) as nat, w as nat),
    ]);
    assert(lines_written(st, cmds) =~= seq![
        remove_line_of(),
        add_line_of(st.cache_dir, id@, (w + 3) as nat, w as nat),
    ]);
}

/// Nothing is written once the consumer has stopped.
pub proof fn lemma_stopped_writes_nothing(st: ConsumerState, cmds: Seq<OverlayCommand>)
    requires
        !st.running,
    ensures
        lines_written(st, cmds) == Seq::<Seq<char>>::empty(),
        state_after(st, cmds) == st,
    decreases cmds.len(),
{
    if cmds.len() > 0 {
        lemma_stopped_writes_nothing(st, cmds.drop_first());
    }
}

/// `Shutdown` drains, then stops: every command queued before it is written,
/// one line each, and nothing queued after it is; the consumer ends stopped.
pub proof fn lemma_shutdown_drains_then_stops(
    st: ConsumerState,
    before: Seq<OverlayCommand>,
    after: Seq<OverlayCommand>,
)
    requires
        st.running,
        forall|i: int| 0 <= i < before.len() ==> !is_shutdown(#[trigger] before[i]),
    ensures
        lines_written(st, before + seq![OverlayCommand::Shutdown] + after) == lines_written(
            st,
            before,
        ),
        lines_written(st, before).len() == before.len(),
        !state_after(st, before + seq![OverlayCommand::Shutdown] + after).running,
    decreases before.len(),
{
    let all = before + seq![OverlayCommand::Shutdown] + after;
    if before.len() == 0 {
        assert(all.drop_first() =~= after);
        let (next, out) = step(st, OverlayCommand::Shutdown);
        lemma_stopped_writes_nothing(next, after);
        assert(all[0] == OverlayCommand::Shutdown);
    } else {
        let (next, out) = step(st, before[0]);
        assert(!is_shutdown(before[0]));
        assert(all.drop_first() =~= before.drop_first() + seq![OverlayCommand::Shutdown] + after);
        assert(all[0] == before[0]);
        assert forall|i: int| 0 <= i < before.drop_first().len() implies !is_shutdown(
            #[trigger] before.drop_first()[i],
        ) by {
            assert(before.drop_first()[i] == before[i + 1]);
        }
        lemma_shutdown_drains_then_stops(next, before.drop_first(), after);
    }
}

/// The overlay process's lifetime: started at most once, on first need, and
/// never again after it has been shut down.
#[derive(Clone, Copy, Debug, PartialEq, Eq, Structural)]
pub enum OverlayLifecycle {
    Uninitialized,
    Running,
    Terminated,
}

impl OverlayLifecycle {
    pub fn new() -> (r: OverlayLifecycle)
        ensures
            r == OverlayLifecycle::Uninitialized,
    {
        OverlayLifecycle::Uninitialized
    }

    /// Called before every thumbnail request. Returns whether the caller must
    /// start the overlay process now: only the first call does.
    pub fn begin(&mut self) -> (start: bool)
        ensures
            start == (*old(self) == OverlayLifecycle::Uninitialized),
            *final(self) == (if start {
                OverlayLifecycle::Running
            } else {
                *old(self)
            }),
    {
        if *self == OverlayLifecycle::Uninitialized {
            *self = OverlayLifecycle::Running;
            true
        } else {
            false
        }
    }

    /// Ends the overlay for good, also after a failed start. Returns whether a
    /// running process must be sent `Shutdown`.
    pub fn finish(&mut self) -> (was_running: bool)
        ensures
            was_running == (*old(self) == OverlayLifecycle::Running),
            *final(self) == OverlayLifecycle::Terminated,
    {
        let was = *self == OverlayLifecycle::Running;
        *self = OverlayLifecycle::Terminated;
        was
    }

    /// Whether commands reach a process: only while it runs.
    pub fn accepts_commands(&self) -> (r: bool)
        ensures
            r == (*self == OverlayLifecycle::Running),
    {
        *self == OverlayLifecycle::Running
    }
}

} // verus!

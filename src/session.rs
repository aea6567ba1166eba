//! The frame producer's side of a session: it numbers the frames, skips the
//! ticks on which the host is paused, and sends the stop message once.
use vstd::prelude::*;
use std::sync::Arc;
use crate::dcs::{DcsWorldObject, DcsWorldUnit};
use std::sync::mpsc::Sender;
use crate::gui::{self, channel_send};
use crate::worker::{FrameSnapshot, Message};

verus! {

/// The producer state of one session.
#[derive(Clone, Copy, Debug, PartialEq, Eq, Structural)]
pub struct Session {
    /// Number that the next snapshot gets.
    pub next_frame: u64,
    /// False once the session has been stopped.
    pub active: bool,
}

/// One host tick: the next session state and the number of the frame that was
/// emitted, if any.
pub open spec fn session_step(s: Session, paused: bool) -> (Session, Option<u64>) {
    if paused || !s.active {
        (s, None)
    } else {
        (Session { next_frame: (s.next_frame + 1) as u64, ..s }, Some(s.next_frame))
    }
}

/// Frame numbers emitted over a sequence of ticks, each given by its pause flag.
pub open spec fn emitted_frames(s: Session, ticks: Seq<bool>) -> Seq<u64>
    decreases ticks.len(),
{
    if ticks.len() == 0 {
        seq![]
    } else {
        let (s1, e) = session_step(s, ticks[0]);
        (if e is Some { seq![e->Some_0] } else { seq![] }) + emitted_frames(s1, ticks.skip(1))
    }
}

/// Number of ticks on which the host was running.
pub open spec fn running_ticks(ticks: Seq<bool>) -> nat
    decreases ticks.len(),
{
    if ticks.len() == 0 {
        0
    } else {
        (if ticks[0] { 0nat } else { 1nat }) + running_ticks(ticks.skip(1))
    }
}

impl Session {
    /// A fresh, active session whose first frame is numbered 0.
    pub fn new() -> (r: Session)
        ensures
            r == (Session { next_frame: 0, active: true }),
    {
        Session { next_frame: 0, active: true }
    }

    /// Number of snapshots emitted so far.
    pub fn frames_emitted(&self) -> (r: u64)
        ensures
            r == self.next_frame,
    {
        self.next_frame
    }

    /// Handles one host tick. While the host is paused, or after the session
    /// was stopped, nothing is emitted and the state is unchanged. Otherwise
    /// the snapshot gets the next frame number and the counter goes up by one.
    pub fn on_frame_begin(
        &mut self,
        paused: bool,
        game_time: i64,
        real_time: i64,
        units: Vec<DcsWorldUnit>,
        ballistics: Vec<DcsWorldObject>,
    ) -> (r: Option<Arc<FrameSnapshot>>)
        requires
            old(self).next_frame < u64::MAX,
        ensures
            (*final(self), if r is Some { Some((*(r->Some_0)).frame_number) } else { None })
                == session_step(*old(self), paused),
            r is Some ==> *(r->Some_0) == (FrameSnapshot {
                frame_number: old(self).next_frame,
                game_time,
                real_time,
                units,
                ballistics,
            }),
    {
        if paused || !self.active {
            return None;
        }
        let snapshot = FrameSnapshot {
            frame_number: self.next_frame,
            game_time,
            real_time,
            units,
            ballistics,
        };
        self.next_frame = self.next_frame + 1;
        Some(Arc::new(snapshot))
    }

    /// Ends the session. The first call yields the stop message for the
    /// consumers; later calls yield nothing.
    pub fn stop(&mut self) -> (r: Option<Message>)
        ensures
            r is Some <==> old(self).active,
            r is Some ==> r->Some_0 is Stop,
            *final(self) == (Session { active: false, ..*old(self) }),
    {
        if self.active {
            self.active = false;
            Some(Message::Stop)
        } else {
            None
        }
    }
}

/// Over any sequence of ticks, an active session emits one snapshot per tick on
/// which the host runs, numbered consecutively from its counter: frame numbers
/// go up by exactly one, and paused ticks neither emit nor count.
pub proof fn lemma_consecutive_frames(s: Session, ticks: Seq<bool>)
    requires
        s.active,
        s.next_frame + ticks.len() <= u64::MAX,
    ensures
        emitted_frames(s, ticks).len() == running_ticks(ticks),
        forall|i: int|
            0 <= i < emitted_frames(s, ticks).len() ==> #[trigger] emitted_frames(s, ticks)[i]
                == s.next_frame + i,
    decreases ticks.len(),
{
    if ticks.len() > 0 {
        let (s1, e) = session_step(s, ticks[0]);
        lemma_consecutive_frames(s1, ticks.skip(1));
        let rest = emitted_frames(s1, ticks.skip(1));
        let all = emitted_frames(s, ticks);
        assert forall|i: int| 0 <= i < all.len() implies #[trigger] all[i] == s.next_frame + i by {
            if e is Some && i > 0 {
                assert(all[i] == rest[i - 1]);
            }
        }
    }
}

/// Relies on `Arc::clone`: another handle to the same snapshot.
#[verifier::external_body]
fn share(s: &Arc<FrameSnapshot>) -> (r: Arc<FrameSnapshot>)
    ensures
        r == *s,
{
    s.clone()
}

/// Sends a message to the persistence logger, best effort: a logger that is
/// gone makes this a no-op. Returns whether the message was handed over.
pub fn send_worker_message(worker_tx: &Sender<Message>, message: Message) -> (delivered: bool) {
    channel_send(worker_tx, message)
}

/// A dashboard whose redraw interval is not positive redraws on every frame.
pub fn is_real_time_gui(gui_draw_interval: i64) -> (r: bool)
    ensures
        r == (gui_draw_interval <= 0),
{
    gui_draw_interval <= 0
}

/// The producer's connection to the dashboard.
pub struct GuiLink {
    pub is_gui_enabled: bool,
    pub gui_tx: Sender<gui::Message>,
    pub gui_context: Option<egui::Context>,
    /// Redraw interval in fixed-point seconds; not positive for a redraw per frame.
    pub gui_draw_interval: i64,
}

/// What `send_gui_message` did.
#[derive(Clone, Copy, Debug, PartialEq, Eq, Structural)]
pub struct GuiSend {
    /// The message was handed to the channel.
    pub attempted: bool,
    /// A redraw was requested.
    pub repaint: bool,
}

/// Sends a message to the dashboard when it is enabled, best effort, and asks
/// for a redraw when the dashboard redraws on every frame.
pub fn send_gui_message(link: &GuiLink, message: gui::Message) -> (r: GuiSend)
    ensures
        r.attempted == link.is_gui_enabled,
        r.repaint == (link.is_gui_enabled && link.gui_context is Some && link.gui_draw_interval <= 0),
{
    if !link.is_gui_enabled {
        return GuiSend { attempted: false, repaint: false };
    }
    let _ = channel_send(&link.gui_tx, message);
    let mut repaint = false;
    if let Some(ctx) = &link.gui_context {
        if is_real_time_gui(link.gui_draw_interval) {
            ctx.request_repaint();
            repaint = true;
        }
    }
    GuiSend { attempted: true, repaint }
}

/// Hands a frame's snapshot to its consumers: always to the logger, and to
/// the dashboard when it is shown. Returns what was done for the dashboard.
pub fn fan_out(
    worker_tx: &Sender<Message>,
    link: &GuiLink,
    gui_shown: bool,
    snapshot: &Arc<FrameSnapshot>,
) -> (r: GuiSend)
    ensures
        r.attempted == (gui_shown && link.is_gui_enabled),
        r.repaint == (gui_shown && link.is_gui_enabled && link.gui_context is Some
            && link.gui_draw_interval <= 0),
{
    let _ = send_worker_message(worker_tx, Message::Update(share(snapshot)));
    if gui_shown {
        send_gui_message(link, gui::Message::Update(share(snapshot)))
    } else {
        GuiSend { attempted: false, repaint: false }
    }
}

} // verus!

//! The live dashboard's side of the pipeline: the messages it receives, the
//! bounded history of recent frames it plots, and the link through which the
//! producer reaches it.
use vstd::prelude::*;
use std::sync::atomic::{AtomicBool, Ordering};
use std::sync::mpsc::{Receiver, Sender};
use std::sync::Arc;
use bounded_vec_deque::BoundedVecDeque;
use crate::monitor::clamp_i64;
use crate::worker::FrameSnapshot;

verus! {

#[verifier::external_type_specification]
#[verifier::external_body]
#[verifier::reject_recursive_types(T)]
pub struct ExSender<T>(Sender<T>);

#[verifier::external_type_specification]
#[verifier::external_body]
#[verifier::reject_recursive_types(T)]
pub struct ExReceiver<T>(Receiver<T>);

#[verifier::external_type_specification]
#[verifier::external_body]
pub struct ExContext(egui::Context);

#[verifier::external_type_specification]
#[verifier::external_body]
#[verifier::reject_recursive_types(T)]
pub struct ExBoundedVecDeque<T>(BoundedVecDeque<T>);

/// Relies on `egui::Context::request_repaint`: asks the dashboard to redraw.
pub assume_specification[ egui::Context::request_repaint ](ctx: &egui::Context);

/// Relies on `Sender::send`: hands the value to the receiving end; the result
/// tells whether that end still existed.
#[verifier::external_body]
pub(crate) fn channel_send<T>(tx: &Sender<T>, value: T) -> (delivered: bool) {
    tx.send(value).is_ok()
}

/// Relies on `Receiver::recv`: blocks for the next value; `None` once every
/// sending end is gone.
#[verifier::external_body]
fn channel_recv<T>(rx: &Receiver<T>) -> Option<T> {
    rx.recv().ok()
}

/// Entries of a bounded deque, front first.
pub uninterp spec fn deque_items(q: BoundedVecDeque<i64>) -> Seq<i64>;

/// The length limit a bounded deque was made with.
pub uninterp spec fn deque_limit(q: BoundedVecDeque<i64>) -> nat;

/// Relies on `BoundedVecDeque::new`: empty, with the given length limit.
#[verifier::external_body]
fn deque_new(max_len: usize) -> (r: BoundedVecDeque<i64>)
    ensures
        deque_items(r) == Seq::<i64>::empty(),
        deque_limit(r) == max_len,
{
    BoundedVecDeque::new(max_len)
}

/// Relies on `BoundedVecDeque::push_front`: the value goes to the front; when
/// the deque is full (as long as its limit) the back entry is dropped first;
/// with limit 0 nothing changes.
#[verifier::external_body]
fn deque_push_front(q: &mut BoundedVecDeque<i64>, v: i64)
    ensures
        deque_limit(*final(q)) == deque_limit(*old(q)),
        deque_items(*final(q)) == (if deque_limit(*old(q)) == 0 {
            deque_items(*old(q))
        } else if deque_items(*old(q)).len() >= deque_limit(*old(q)) {
            seq![v] + deque_items(*old(q)).drop_last()
        } else {
            seq![v] + deque_items(*old(q))
        }),
{
    let _ = q.push_front(v);
}

/// Relies on `BoundedVecDeque::clear`: removes every entry, keeps the limit.
#[verifier::external_body]
fn deque_clear(q: &mut BoundedVecDeque<i64>)
    ensures
        deque_items(*final(q)) == Seq::<i64>::empty(),
        deque_limit(*final(q)) == deque_limit(*old(q)),
{
    q.clear()
}

/// Relies on `VecDeque::len` through `BoundedVecDeque`'s dereference.
#[verifier::external_body]
fn deque_len(q: &BoundedVecDeque<i64>) -> (r: usize)
    ensures
        r == deque_items(*q).len(),
{
    q.len()
}

/// Relies on `VecDeque::get` through `BoundedVecDeque`'s dereference: the
/// entry at index `i` from the front, if there is one.
#[verifier::external_body]
fn deque_get(q: &BoundedVecDeque<i64>, i: usize) -> (r: Option<i64>)
    ensures
        r == (if i < deque_items(*q).len() {
            Some(deque_items(*q)[i as int])
        } else {
            None
        }),
{
    q.get(i).copied()
}

/// Set while the dashboard window is shown.
pub type ArcFlag = Arc<AtomicBool>;

/// The dashboard's handle; it holds nothing.
#[derive(Clone, Copy, Debug, Default, PartialEq, Eq, Structural)]
pub struct GuiInterface {}

/// What the dashboard thread tells the producer.
#[derive(Debug)]
pub enum ClientMessage {
    ThreadStarted(ArcFlag),
}

/// What the producer sends the dashboard.
pub enum Message {
    Start(egui::Context),
    Update(Arc<FrameSnapshot>),
}

/// Waits for the dashboard thread to announce itself and returns its shown
/// flag; `None` if the thread is gone.
pub fn wait_for_gui_started(rx_from_gui: &Receiver<ClientMessage>) -> (r: Option<ArcFlag>) {
    match channel_recv(rx_from_gui) {
        Some(ClientMessage::ThreadStarted(h)) => Some(h),
        None => None,
    }
}

/// Whether the dashboard window is shown; false when there is no dashboard.
pub fn is_gui_shown(flag: &Option<ArcFlag>) -> (r: bool)
    ensures
        flag is None ==> !r,
{
    match flag {
        Some(f) => f.load(Ordering::SeqCst),
        None => false,
    }
}

/// Number of recent frames the dashboard keeps.
pub const PLOT_NUM_PTS: usize = 2048;

pub open spec fn count_i64(n: nat) -> i64 {
    if n > i64::MAX { i64::MAX } else { n as i64 }
}

fn len_i64(n: usize) -> (r: i64)
    ensures
        r == count_i64(n as nat),
{
    if n as u64 > i64::MAX as u64 {
        i64::MAX
    } else {
        n as i64
    }
}

/// The dashboard's history of recent frames, newest first.
pub struct Gui {
    pub num_units: BoundedVecDeque<i64>,
    pub num_ballistics: BoundedVecDeque<i64>,
    pub game_times: BoundedVecDeque<i64>,
    pub real_times: BoundedVecDeque<i64>,
}

impl Gui {
    /// Empty histories, each of at most `PLOT_NUM_PTS` frames.
    pub fn new() -> (r: Gui)
        ensures
            within_limit(r.num_units) && within_limit(r.num_ballistics),
            within_limit(r.game_times) && within_limit(r.real_times),
            deque_items(r.num_units) == Seq::<i64>::empty(),
            deque_items(r.num_ballistics) == Seq::<i64>::empty(),
            deque_items(r.game_times) == Seq::<i64>::empty(),
            deque_items(r.real_times) == Seq::<i64>::empty(),
            deque_limit(r.num_units) == PLOT_NUM_PTS,
            deque_limit(r.num_ballistics) == PLOT_NUM_PTS,
            deque_limit(r.game_times) == PLOT_NUM_PTS,
            deque_limit(r.real_times) == PLOT_NUM_PTS,
    {
        Gui {
            num_units: deque_new(PLOT_NUM_PTS),
            num_ballistics: deque_new(PLOT_NUM_PTS),
            game_times: deque_new(PLOT_NUM_PTS),
            real_times: deque_new(PLOT_NUM_PTS),
        }
    }

    /// A start message clears the histories; an update puts the frame's
    /// counts and times at the front.
    pub fn handle_message(&mut self, msg: Message)
        ensures
            deque_limit(final(self).num_units) == deque_limit(old(self).num_units),
            deque_limit(final(self).num_ballistics) == deque_limit(old(self).num_ballistics),
            deque_limit(final(self).game_times) == deque_limit(old(self).game_times),
            deque_limit(final(self).real_times) == deque_limit(old(self).real_times),
            within_limit(old(self).num_units) ==> within_limit(final(self).num_units),
            within_limit(old(self).num_ballistics) ==> within_limit(final(self).num_ballistics),
            within_limit(old(self).game_times) ==> within_limit(final(self).game_times),
            within_limit(old(self).real_times) ==> within_limit(final(self).real_times),
            match msg {
                Message::Start(_) => {
                    &&& deque_items(final(self).num_units) == Seq::<i64>::empty()
                    &&& deque_items(final(self).num_ballistics) == Seq::<i64>::empty()
                    &&& deque_items(final(self).game_times) == Seq::<i64>::empty()
                    &&& deque_items(final(self).real_times) == Seq::<i64>::empty()
                },
                Message::Update(s) => {
                    &&& deque_items(final(self).num_units) == pushed(old(self).num_units, count_i64(s.units@.len()))
                    &&& deque_items(final(self).num_ballistics) == pushed(old(self).num_ballistics, count_i64(s.ballistics@.len()))
                    &&& deque_items(final(self).game_times) == pushed(old(self).game_times, s.game_time)
                    &&& deque_items(final(self).real_times) == pushed(old(self).real_times, s.real_time)
                },
            },
    {
        match msg {
            Message::Start(_context) => {
                deque_clear(&mut self.num_ballistics);
                deque_clear(&mut self.num_units);
                deque_clear(&mut self.game_times);
                deque_clear(&mut self.real_times);
            },
            Message::Update(s) => {
                deque_push_front(&mut self.num_units, len_i64(s.units.len()));
                deque_push_front(&mut self.num_ballistics, len_i64(s.ballistics.len()));
                deque_push_front(&mut self.game_times, s.game_time);
                deque_push_front(&mut self.real_times, s.real_time);
            },
        }
    }
}

/// A bounded deque holds no more entries than its limit.
pub open spec fn within_limit(q: BoundedVecDeque<i64>) -> bool {
    deque_items(q).len() <= deque_limit(q)
}

/// The entries of a bounded deque after pushing `v` at the front.
pub open spec fn pushed(q: BoundedVecDeque<i64>, v: i64) -> Seq<i64> {
    if deque_limit(q) == 0 {
        deque_items(q)
    } else if deque_items(q).len() >= deque_limit(q) {
        seq![v] + deque_items(q).drop_last()
    } else {
        seq![v] + deque_items(q)
    }
}

/// Position that an index names: from the front when non-negative, from the
/// back when negative (and then at least the front).
pub open spec fn indexed_position(len: nat, index: isize) -> int {
    if index < 0 {
        if len + index < 0 { 0 } else { len + index }
    } else {
        index as int
    }
}

pub open spec fn entry_at(s: Seq<i64>, i: int) -> Option<i64> {
    if 0 <= i < s.len() { Some(s[i]) } else { None }
}

/// The entry that `index` names, if there is one.
pub fn get_indexed(q: &BoundedVecDeque<i64>, index: isize) -> (r: Option<i64>)
    ensures
        r == entry_at(deque_items(*q), indexed_position(deque_items(*q).len(), index)),
{
    let len = deque_len(q);
    let i: usize = if index < 0 {
        let l: i128 = len as i128 + index as i128;
        if l < 0 {
            0
        } else {
            l as usize
        }
    } else {
        index as usize
    };
    deque_get(q, i)
}

pub open spec fn or_zero(o: Option<i64>) -> i64 {
    match o {
        Some(v) => v,
        None => 0,
    }
}

/// Difference between the two newest entries; a missing entry counts as 0.
pub fn most_recent_time_delta(queue: &BoundedVecDeque<i64>) -> (r: i64)
    ensures
        r == clamp_i64(
            or_zero(entry_at(deque_items(*queue), 0)) - or_zero(entry_at(deque_items(*queue), 1)),
        ),
{
    let t_now = match get_indexed(queue, 0) {
        Some(v) => v,
        None => 0,
    };
    let t_last = match get_indexed(queue, 1) {
        Some(v) => v,
        None => 0,
    };
    crate::monitor::sub_clamped(t_now, t_last)
}

/// Points `(time, count)` for every entry of `v`, paired by position.
pub fn make_obj_count_line(v: &BoundedVecDeque<i64>, times: &BoundedVecDeque<i64>) -> (r: Vec<(i64, i64)>)
    requires
        deque_items(*times).len() >= deque_items(*v).len(),
    ensures
        r@.len() == deque_items(*v).len(),
        forall|i: int|
            0 <= i < r@.len() ==> #[trigger] r@[i] == (deque_items(*times)[i], deque_items(*v)[i]),
{
    let n = deque_len(v);
    let mut pts: Vec<(i64, i64)> = Vec::new();
    let mut idx: usize = 0;
    while idx < n
        invariant
            n == deque_items(*v).len(),
            deque_items(*times).len() >= n,
            idx <= n,
            pts@.len() == idx,
            forall|i: int|
                0 <= i < idx ==> #[trigger] pts@[i] == (deque_items(*times)[i], deque_items(*v)[i]),
        decreases n - idx,
    {
        let t = deque_get(times, idx);
        let y = deque_get(v, idx);
        match (t, y) {
            (Some(t), Some(y)) => {
                pts.push((t, y));
            },
            _ => {
                assert(false);
            },
        }
        idx = idx + 1;
    }
    pts
}

/// Frames per simulated second, times 1000, for a frame time; 0 for a zero
/// frame time.
pub open spec fn inverse_milli(dt: i64) -> i64 {
    if dt > 0 {
        (100_000_000_000int / (dt as int)) as i64
    } else if dt < 0 {
        (-(100_000_000_000int / (-dt))) as i64
    } else {
        0
    }
}

/// For each entry after the newest: the reference time at that position with
/// the difference to the next newer entry, and the same time with the
/// matching frame rate.
pub fn make_time_line(ref_times: &BoundedVecDeque<i64>, times: &BoundedVecDeque<i64>) -> (r: (
    Vec<(i64, i64)>,
    Vec<(i64, i64)>,
))
    requires
        deque_items(*ref_times).len() >= deque_items(*times).len(),
    ensures
        r.0@.len() == r.1@.len(),
        r.0@.len() == if deque_items(*times).len() == 0 { 0 } else { deque_items(*times).len() - 1 },
        forall|i: int|
            0 <= i < r.0@.len() ==> {
                let dt = clamp_i64(deque_items(*times)[i] - deque_items(*times)[i + 1]);
                &&& #[trigger] r.0@[i] == (deque_items(*ref_times)[i + 1], dt)
                &&& r.1@[i] == (deque_items(*ref_times)[i + 1], inverse_milli(dt))
            },
{
    let n = deque_len(times);
    let mut time_pairs: Vec<(i64, i64)> = Vec::new();
    let mut fps_pts: Vec<(i64, i64)> = Vec::new();
    if n == 0 {
        return (time_pairs, fps_pts);
    }
    let mut idx: usize = 1;
    while idx < n
        invariant
            n == deque_items(*times).len(),
            deque_items(*ref_times).len() >= n,
            1 <= idx <= n,
            time_pairs@.len() == idx - 1,
            fps_pts@.len() == idx - 1,
            forall|i: int|
                0 <= i < idx - 1 ==> {
                    let dt = clamp_i64(deque_items(*times)[i] - deque_items(*times)[i + 1]);
                    &&& #[trigger] time_pairs@[i] == (deque_items(*ref_times)[i + 1], dt)
                    &&& fps_pts@[i] == (deque_items(*ref_times)[i + 1], inverse_milli(dt))
                },
        decreases n - idx,
    {
        let t = deque_get(ref_times, idx);
        let newer = deque_get(times, idx - 1);
        let older = deque_get(times, idx);
        match (t, newer, older) {
            (Some(t), Some(a), Some(b)) => {
                let dt = crate::monitor::sub_clamped(a, b);
                let inv: i64 = if dt == 0 {
                    0
                } else if dt > 0 {
                    let q: i64 = 100_000_000_000i64 / dt;
                    q
                } else {
                    proof {
                        assert(dt as int != i64::MIN ==> -(dt as int) > 0);
                    }
                    let m: i128 = -(dt as i128);
                    let q: i128 = 100_000_000_000i128 / m;
                    assert(0 <= q <= 100_000_000_000) by (nonlinear_arith)
                        requires
                            m >= 1,
                            q == 100_000_000_000i128 / m,
                    ;
                    (-q) as i64
                };
                assert(inv == inverse_milli(dt));
                let ghost tp = time_pairs@;
                let ghost fp = fps_pts@;
                time_pairs.push((t, dt));
                fps_pts.push((t, inv));
                assert(forall|i: int| 0 <= i < idx - 1 ==> time_pairs@[i] == tp[i] && fps_pts@[i] == fp[i]);
            },
            _ => {
                assert(false);
            },
        }
        idx = idx + 1;
    }
    (time_pairs, fps_pts)
}

} // verus!

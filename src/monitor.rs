//! The rolling monitor: collects per-frame metrics over a window of simulated
//! time and summarises the window into a report whenever it spans the report
//! interval.
use vstd::prelude::*;
use crate::worker::FrameSnapshot;

verus! {

/// A report is due once the window spans this much simulated time (5 s).
pub const REPORT_INTERVAL: i64 = 500_000_000;

/// A frame slower than this (100 ms) makes the report a warning.
pub const STALL_THRESHOLD: i64 = 10_000_000;

/// The metrics of one frame as the monitor receives them.
#[derive(Clone, Copy, Debug, PartialEq, Eq, Structural)]
pub struct FrameState {
    pub num_units: u64,
    pub num_ballistics: u64,
    pub real_time: i64,
    pub game_time: i64,
    /// Time spent in the frame callback.
    pub lib_time: i64,
    pub sys_cpu: i32,
    pub sys_wall: i32,
    pub proc_cpu: i32,
}

pub open spec fn clamp_i64(x: int) -> i64 {
    if x < i64::MIN {
        i64::MIN
    } else if x > i64::MAX {
        i64::MAX
    } else {
        x as i64
    }
}

/// `a - b`, clamped to the range of `i64`.
pub fn sub_clamped(a: i64, b: i64) -> (r: i64)
    ensures
        r == clamp_i64(a - b),
{
    let d: i128 = a as i128 - b as i128;
    if d < i64::MIN as i128 {
        i64::MIN
    } else if d > i64::MAX as i128 {
        i64::MAX
    } else {
        d as i64
    }
}

pub open spec fn seq_min(s: Seq<i64>) -> i64
    decreases s.len(),
{
    if s.len() <= 1 {
        s[0]
    } else {
        let m = seq_min(s.drop_last());
        if s.last() < m { s.last() } else { m }
    }
}

pub open spec fn seq_max(s: Seq<i64>) -> i64
    decreases s.len(),
{
    if s.len() <= 1 {
        s[0]
    } else {
        let m = seq_max(s.drop_last());
        if s.last() > m { s.last() } else { m }
    }
}

pub open spec fn seq_sum(s: Seq<i64>) -> int
    decreases s.len(),
{
    if s.len() == 0 {
        0
    } else {
        seq_sum(s.drop_last()) + s.last()
    }
}

pub open spec fn count_max(s: Seq<u64>) -> u64
    decreases s.len(),
{
    if s.len() == 0 {
        0
    } else {
        let m = count_max(s.drop_last());
        if s.last() > m { s.last() } else { m }
    }
}

/// Division rounding towards zero, as integer division does in Rust.
pub open spec fn trunc_div(a: int, n: int) -> int {
    if a >= 0 {
        a / n
    } else {
        -((-a) / n)
    }
}

proof fn lemma_div_le(a: int, n: int)
    requires
        a >= 0,
        n >= 1,
    ensures
        0 <= a / n <= a,
{
    assert(0 <= a / n <= a) by (nonlinear_arith)
        requires
            a >= 0,
            n >= 1,
    ;
}

/// Minimum, maximum and mean (rounded towards zero) of a non-empty series.
pub fn get_stats(v: &Vec<i64>) -> (r: Option<(i64, i64, i128)>)
    ensures
        r is None <==> v@.len() == 0,
        r is Some ==> r->Some_0 == (seq_min(v@), seq_max(v@), trunc_div(
            seq_sum(v@),
            v@.len() as int,
        ) as i128),
{
    if v.len() == 0 {
        return None;
    }
    let mut lo: i64 = v[0];
    let mut hi: i64 = v[0];
    let mut total: i128 = v[0] as i128;
    let mut i: usize = 1;
    proof {
        assert(v@.subrange(0, 1).drop_last() =~= Seq::<i64>::empty());
        assert(v@.subrange(0, 1)[0] == v@[0]);
        assert(seq_sum(v@.subrange(0, 1)) == seq_sum(Seq::<i64>::empty()) + v@[0]);
    }
    while i < v.len()
        invariant
            1 <= i <= v@.len(),
            lo == seq_min(v@.subrange(0, i as int)),
            hi == seq_max(v@.subrange(0, i as int)),
            total == seq_sum(v@.subrange(0, i as int)),
            -(i as int) * 0x8000_0000_0000_0000 <= total <= (i as int) * 0x8000_0000_0000_0000,
        decreases v@.len() - i,
    {
        let x = v[i];
        proof {
            assert(v@.subrange(0, i + 1).drop_last() =~= v@.subrange(0, i as int));
        }
        if x < lo {
            lo = x;
        }
        if x > hi {
            hi = x;
        }
        total = total + x as i128;
        i = i + 1;
    }
    proof {
        assert(v@.subrange(0, i as int) =~= v@);
    }
    let n: i128 = v.len() as i128;
    let mean: i128 = if total >= 0 {
        proof {
            lemma_div_le(total as int, n as int);
        }
        total / n
    } else {
        proof {
            lemma_div_le(-total, n as int);
        }
        -((-total) / n)
    };
    Some((lo, hi, mean))
}

/// Largest value of a series of counts, 0 when empty.
pub fn get_max_count(v: &Vec<u64>) -> (r: u64)
    ensures
        r == count_max(v@),
{
    let mut m: u64 = 0;
    let mut i: usize = 0;
    proof {
        assert(v@.subrange(0, 0) =~= Seq::<u64>::empty());
    }
    while i < v.len()
        invariant
            i <= v@.len(),
            m == count_max(v@.subrange(0, i as int)),
        decreases v@.len() - i,
    {
        proof {
            assert(v@.subrange(0, i + 1).drop_last() =~= v@.subrange(0, i as int));
        }
        if v[i] > m {
            m = v[i];
        }
        i = i + 1;
    }
    assert(v@.subrange(0, i as int) =~= v@);
    m
}

/// Per-frame load term: `x / y` in thousandths of a percent, for `y > 0`.
pub open spec fn load_term(x: i32, y: i32) -> int {
    if y > 0 {
        trunc_div(x * 100_000, y as int)
    } else {
        0
    }
}

pub open spec fn load_sum(xs: Seq<i32>, ys: Seq<i32>, n: nat) -> int
    decreases n,
{
    if n == 0 {
        0
    } else {
        load_sum(xs, ys, (n - 1) as nat) + load_term(xs[n - 1], ys[n - 1])
    }
}

pub open spec fn min_len(a: nat, b: nat) -> nat {
    if a < b { a } else { b }
}

/// Average share of `series` in `totals` over the frames of a window, in
/// thousandths of a percent: frames whose total is not positive add nothing
/// but still count in the average. An empty series gives 0.
pub open spec fn average_load(series: Seq<i32>, totals: Seq<i32>) -> int {
    if series.len() == 0 {
        0
    } else {
        trunc_div(
            load_sum(series, totals, min_len(series.len(), totals.len())),
            series.len() as int,
        )
    }
}

proof fn lemma_load_term_bound(x: i32, y: i32)
    ensures
        -0x1_0000_0000_0000 <= load_term(x, y) <= 0x1_0000_0000_0000,
{
    if y > 0 {
        let a = x * 100_000;
        if a >= 0 {
            lemma_div_le(a, y as int);
        } else {
            lemma_div_le(-a, y as int);
        }
    }
}

/// Average load of one counter against another over a window; see `average_load`.
pub fn log_times(series: &Vec<i32>, totals: &Vec<i32>) -> (r: i128)
    ensures
        r == average_load(series@, totals@),
{
    let n: usize = if series.len() < totals.len() { series.len() } else { totals.len() };
    let mut acc: i128 = 0;
    let mut i: usize = 0;
    while i < n
        invariant
            n == min_len(series@.len(), totals@.len()),
            i <= n,
            acc == load_sum(series@, totals@, i as nat),
            -(i as int) * 0x1_0000_0000_0000 <= acc <= (i as int) * 0x1_0000_0000_0000,
        decreases n - i,
    {
        let x = series[i];
        let y = totals[i];
        proof {
            lemma_load_term_bound(x, y);
        }
        if y > 0 {
            let a: i128 = x as i128 * 100_000;
            let t: i128 = if a >= 0 {
                a / (y as i128)
            } else {
                -((-a) / (y as i128))
            };
            acc = acc + t;
        }
        i = i + 1;
    }
    if series.len() == 0 {
        return 0;
    }
    let len: i128 = series.len() as i128;
    if acc >= 0 {
        proof {
            lemma_div_le(acc as int, len as int);
        }
        acc / len
    } else {
        proof {
            lemma_div_le(-acc, len as int);
        }
        -((-acc) / len)
    }
}

/// The metrics of the frames in the current window, one entry per frame in
/// each series. Times are the differences to the previous frame.
#[derive(Debug)]
pub struct FrameLog {
    pub num_units: Vec<u64>,
    pub num_ballistics: Vec<u64>,
    pub real_times: Vec<i64>,
    pub game_times: Vec<i64>,
    pub lib_times: Vec<i64>,
    pub sys_cpu_times: Vec<i32>,
    pub sys_wall_times: Vec<i32>,
    pub proc_cpu_times: Vec<i32>,
}

pub ghost struct FrameLogView {
    pub num_units: Seq<u64>,
    pub num_ballistics: Seq<u64>,
    pub real_times: Seq<i64>,
    pub game_times: Seq<i64>,
    pub lib_times: Seq<i64>,
    pub sys_cpu_times: Seq<i32>,
    pub sys_wall_times: Seq<i32>,
    pub proc_cpu_times: Seq<i32>,
}

impl View for FrameLog {
    type V = FrameLogView;

    open spec fn view(&self) -> FrameLogView {
        FrameLogView {
            num_units: self.num_units@,
            num_ballistics: self.num_ballistics@,
            real_times: self.real_times@,
            game_times: self.game_times@,
            lib_times: self.lib_times@,
            sys_cpu_times: self.sys_cpu_times@,
            sys_wall_times: self.sys_wall_times@,
            proc_cpu_times: self.proc_cpu_times@,
        }
    }
}

impl FrameLogView {
    /// Number of frames in the window.
    pub open spec fn len(self) -> nat {
        self.game_times.len()
    }

    /// Every series holds one entry per frame.
    pub open spec fn wf(self) -> bool {
        &&& self.num_units.len() == self.len()
        &&& self.num_ballistics.len() == self.len()
        &&& self.real_times.len() == self.len()
        &&& self.lib_times.len() == self.len()
        &&& self.sys_cpu_times.len() == self.len()
        &&& self.sys_wall_times.len() == self.len()
        &&& self.proc_cpu_times.len() == self.len()
    }

    pub open spec fn empty() -> FrameLogView {
        FrameLogView {
            num_units: seq![],
            num_ballistics: seq![],
            real_times: seq![],
            game_times: seq![],
            lib_times: seq![],
            sys_cpu_times: seq![],
            sys_wall_times: seq![],
            proc_cpu_times: seq![],
        }
    }

    /// The window with one more frame.
    pub open spec fn push(self, st: FrameState, last_game_time: i64, last_real_time: i64) -> FrameLogView {
        FrameLogView {
            num_units: self.num_units.push(st.num_units),
            num_ballistics: self.num_ballistics.push(st.num_ballistics),
            real_times: self.real_times.push(clamp_i64(st.real_time - last_real_time)),
            game_times: self.game_times.push(clamp_i64(st.game_time - last_game_time)),
            lib_times: self.lib_times.push(st.lib_time),
            sys_cpu_times: self.sys_cpu_times.push(st.sys_cpu),
            sys_wall_times: self.sys_wall_times.push(st.sys_wall),
            proc_cpu_times: self.proc_cpu_times.push(st.proc_cpu),
        }
    }
}

/// The summary of a window.
#[derive(Clone, Copy, Debug, PartialEq, Eq, Structural)]
pub struct FrameStats {
    /// Simulated frame times: minimum, maximum, mean.
    pub game_min: i64,
    pub game_max: i64,
    pub game_mean: i128,
    /// Wall-clock frame times: minimum, maximum, mean.
    pub real_min: i64,
    pub real_max: i64,
    pub real_mean: i128,
    /// Average frames per simulated second, times 1000.
    pub fps_milli: i128,
    pub max_units: u64,
    pub max_ballistics: u64,
    /// Process and whole-system CPU load, in thousandths of a percent.
    pub process_load: i128,
    pub total_load: i128,
    /// Time spent in the frame callback: minimum, maximum, mean.
    pub lib_min: i64,
    pub lib_max: i64,
    pub lib_mean: i128,
    /// Even the fastest frame of the window took at least the stall threshold.
    pub warn: bool,
}

/// What the monitor emits.
#[derive(Clone, Copy, Debug, PartialEq, Eq, Structural)]
pub enum Report {
    /// No frame arrived in the interval.
    NoData,
    Stats(FrameStats),
}

pub open spec fn mean_of(s: Seq<i64>) -> i128 {
    trunc_div(seq_sum(s), s.len() as int) as i128
}

/// Frames per simulated second, times 1000, for a mean frame time; 0 when the
/// mean is not positive.
pub open spec fn fps_milli_of(mean: i128) -> i128 {
    if mean > 0 {
        (100_000_000_000int / (mean as int)) as i128
    } else {
        0
    }
}

pub open spec fn report_of(l: FrameLogView) -> Report {
    if l.len() == 0 {
        Report::NoData
    } else {
        Report::Stats(
            FrameStats {
                game_min: seq_min(l.game_times),
                game_max: seq_max(l.game_times),
                game_mean: mean_of(l.game_times),
                real_min: seq_min(l.real_times),
                real_max: seq_max(l.real_times),
                real_mean: mean_of(l.real_times),
                fps_milli: fps_milli_of(mean_of(l.game_times)),
                max_units: count_max(l.num_units),
                max_ballistics: count_max(l.num_ballistics),
                process_load: average_load(l.proc_cpu_times, l.sys_wall_times) as i128,
                total_load: average_load(l.sys_cpu_times, l.sys_wall_times) as i128,
                lib_min: seq_min(l.lib_times),
                lib_max: seq_max(l.lib_times),
                lib_mean: mean_of(l.lib_times),
                warn: seq_min(l.game_times) >= STALL_THRESHOLD,
            },
        )
    }
}

impl FrameLog {
    /// An empty window.
    pub fn new() -> (r: FrameLog)
        ensures
            r@ == FrameLogView::empty(),
    {
        let r = FrameLog {
            num_units: Vec::new(),
            num_ballistics: Vec::new(),
            real_times: Vec::new(),
            game_times: Vec::new(),
            lib_times: Vec::new(),
            sys_cpu_times: Vec::new(),
            sys_wall_times: Vec::new(),
            proc_cpu_times: Vec::new(),
        };
        assert(r@ =~= FrameLogView::empty());
        r
    }

    /// Adds one frame; its times become differences to the previous frame's.
    pub fn update(&mut self, state: &FrameState, last_game_time: i64, last_real_time: i64)
        ensures
            final(self)@ == old(self)@.push(*state, last_game_time, last_real_time),
    {
        self.num_units.push(state.num_units);
        self.num_ballistics.push(state.num_ballistics);
        self.real_times.push(sub_clamped(state.real_time, last_real_time));
        self.game_times.push(sub_clamped(state.game_time, last_game_time));
        self.lib_times.push(state.lib_time);
        self.sys_cpu_times.push(state.sys_cpu);
        self.sys_wall_times.push(state.sys_wall);
        self.proc_cpu_times.push(state.proc_cpu);
    }

    /// Empties the window.
    pub fn reset(&mut self)
        ensures
            final(self)@ == FrameLogView::empty(),
    {
        self.num_units.clear();
        self.num_ballistics.clear();
        self.game_times.clear();
        self.real_times.clear();
        self.lib_times.clear();
        self.sys_cpu_times.clear();
        self.sys_wall_times.clear();
        self.proc_cpu_times.clear();
        assert(self@ =~= FrameLogView::empty());
    }

    pub fn is_empty(&self) -> (r: bool)
        ensures
            r == (self@.len() == 0),
    {
        self.game_times.len() == 0
    }

    pub fn has_data(&self) -> (r: bool)
        ensures
            r == (self@.len() > 0),
    {
        !self.is_empty()
    }

    /// The report for the current window: the no-data report when it is
    /// empty, its statistics otherwise.
    pub fn log_to_console(&self) -> (r: Report)
        requires
            self@.wf(),
        ensures
            r == report_of(self@),
    {
        let g = match get_stats(&self.game_times) {
            Some(g) => g,
            None => return Report::NoData,
        };
        let re = match get_stats(&self.real_times) {
            Some(x) => x,
            None => return Report::NoData,
        };
        let l = match get_stats(&self.lib_times) {
            Some(x) => x,
            None => return Report::NoData,
        };
        let (g_min, g_max, g_mean) = g;
        let fps_milli: i128 = if g_mean > 0 {
            100_000_000_000i128 / g_mean
        } else {
            0
        };
        Report::Stats(
            FrameStats {
                game_min: g_min,
                game_max: g_max,
                game_mean: g_mean,
                real_min: re.0,
                real_max: re.1,
                real_mean: re.2,
                fps_milli,
                max_units: get_max_count(&self.num_units),
                max_ballistics: get_max_count(&self.num_ballistics),
                process_load: log_times(&self.proc_cpu_times, &self.sys_wall_times),
                total_load: log_times(&self.sys_cpu_times, &self.sys_wall_times),
                lib_min: l.0,
                lib_max: l.1,
                lib_mean: l.2,
                warn: g_min >= STALL_THRESHOLD,
            },
        )
    }
}

/// The monitor's state: the window and the times it compares against.
#[derive(Debug)]
pub struct MonitorImpl {
    pub frame_log: FrameLog,
    pub last_game_time: i64,
    pub last_real_time: i64,
    /// Simulated time of the last report (or of the start).
    pub last_logged_time: i64,
}

pub ghost struct MonitorView {
    pub log: FrameLogView,
    pub last_game_time: i64,
    pub last_real_time: i64,
    pub last_logged_time: i64,
}

impl View for MonitorImpl {
    type V = MonitorView;

    open spec fn view(&self) -> MonitorView {
        MonitorView {
            log: self.frame_log@,
            last_game_time: self.last_game_time,
            last_real_time: self.last_real_time,
            last_logged_time: self.last_logged_time,
        }
    }
}

/// Whether a frame at simulated time `t` closes the window.
pub open spec fn report_due(last_logged_time: i64, t: i64) -> bool {
    t - last_logged_time >= REPORT_INTERVAL
}

/// One frame: the frame joins the window; if the window now spans the report
/// interval, it is reported and emptied.
pub open spec fn monitor_step(m: MonitorView, st: FrameState) -> (MonitorView, Option<Report>) {
    let log = m.log.push(st, m.last_game_time, m.last_real_time);
    let due = report_due(m.last_logged_time, st.game_time);
    (
        MonitorView {
            log: if due { FrameLogView::empty() } else { log },
            last_game_time: st.game_time,
            last_real_time: st.real_time,
            last_logged_time: if due { st.game_time } else { m.last_logged_time },
        },
        if due { Some(report_of(log)) } else { None },
    )
}

/// The monitor run over a sequence of frames: the last state and the number of reports.
pub open spec fn monitor_run(m: MonitorView, states: Seq<FrameState>) -> (MonitorView, nat)
    decreases states.len(),
{
    if states.len() == 0 {
        (m, 0)
    } else {
        let (m1, r) = monitor_step(m, states[0]);
        let (m2, n) = monitor_run(m1, states.skip(1));
        (m2, n + if r is Some { 1nat } else { 0nat })
    }
}

/// An input of the monitor's loop: a frame, or the report interval passing
/// with no frame at all.
#[derive(Clone, Copy, Debug, PartialEq, Eq, Structural)]
pub enum MonitorEvent {
    Frame(FrameState),
    Silence,
}

impl MonitorImpl {
    /// A monitor with an empty window, all times at zero.
    pub fn new() -> (r: MonitorImpl)
        ensures
            r@ == (MonitorView {
                log: FrameLogView::empty(),
                last_game_time: 0,
                last_real_time: 0,
                last_logged_time: 0,
            }),
    {
        MonitorImpl {
            frame_log: FrameLog::new(),
            last_game_time: 0,
            last_real_time: 0,
            last_logged_time: 0,
        }
    }

    /// Adds one frame, and reports and empties the window once it spans the
    /// report interval.
    pub fn update_log(&mut self, state: &FrameState) -> (r: Option<Report>)
        requires
            old(self)@.log.wf(),
        ensures
            final(self)@.log.wf(),
            (final(self)@, r) == monitor_step(old(self)@, *state),
    {
        self.frame_log.update(state, self.last_game_time, self.last_real_time);
        let r = if state.game_time as i128 - self.last_logged_time as i128 >= REPORT_INTERVAL as i128 {
            let report = self.frame_log.log_to_console();
            self.frame_log.reset();
            self.last_logged_time = state.game_time;
            Some(report)
        } else {
            None
        };
        self.last_game_time = state.game_time;
        self.last_real_time = state.real_time;
        r
    }

    /// Handles one event of the monitor's loop. Silence yields the no-data
    /// report and changes nothing.
    pub fn handle_event(&mut self, e: &MonitorEvent) -> (r: Option<Report>)
        requires
            old(self)@.log.wf(),
        ensures
            final(self)@.log.wf(),
            match *e {
                MonitorEvent::Frame(st) => (final(self)@, r) == monitor_step(old(self)@, st),
                MonitorEvent::Silence => r == Some(Report::NoData) && final(self)@ == old(self)@,
            },
    {
        match e {
            MonitorEvent::Frame(st) => self.update_log(st),
            MonitorEvent::Silence => Some(Report::NoData),
        }
    }
}

/// The metrics that the monitor takes from a snapshot.
pub fn frame_state_of(
    s: &FrameSnapshot,
    lib_time: i64,
    sys_cpu: i32,
    sys_wall: i32,
    proc_cpu: i32,
) -> (r: FrameState)
    ensures
        r == (FrameState {
            num_units: s.units@.len() as u64,
            num_ballistics: s.ballistics@.len() as u64,
            real_time: s.real_time,
            game_time: s.game_time,
            lib_time,
            sys_cpu,
            sys_wall,
            proc_cpu,
        }),
{
    FrameState {
        num_units: s.units.len() as u64,
        num_ballistics: s.ballistics.len() as u64,
        real_time: s.real_time,
        game_time: s.game_time,
        lib_time,
        sys_cpu,
        sys_wall,
        proc_cpu,
    }
}

/// Window boundary: starting from an empty window, frames that stay short of
/// the report interval produce no report, and the frame that reaches it
/// exactly produces one report, over all of those frames, and leaves an
/// empty window; the next frame then starts a fresh window of one frame.
pub proof fn lemma_window_boundary(m: MonitorView, states: Seq<FrameState>, next: FrameState)
    requires
        m.log == FrameLogView::empty(),
        states.len() >= 1,
        forall|i: int|
            0 <= i < states.len() - 1 ==> !report_due(
                m.last_logged_time,
                (#[trigger] states[i]).game_time,
            ),
        states.last().game_time - m.last_logged_time == REPORT_INTERVAL,
        !report_due(states.last().game_time, next.game_time),
    ensures
        ({
            let (m2, n) = monitor_run(m, states);
            let (m3, r3) = monitor_step(m2, next);
            &&& n == 1
            &&& m2.log == FrameLogView::empty()
            &&& m2.last_logged_time == states.last().game_time
            &&& r3 is None
            &&& m3.log.len() == 1
        }),
{
    lemma_window_run(m, states);
}

proof fn lemma_window_run(m: MonitorView, states: Seq<FrameState>)
    requires
        states.len() >= 1,
        forall|i: int|
            0 <= i < states.len() - 1 ==> !report_due(
                m.last_logged_time,
                (#[trigger] states[i]).game_time,
            ),
        report_due(m.last_logged_time, states.last().game_time),
    ensures
        monitor_run(m, states).1 == 1,
        monitor_run(m, states).0.log == FrameLogView::empty(),
        monitor_run(m, states).0.last_logged_time == states.last().game_time,
        monitor_run(m, states).0.last_game_time == states.last().game_time,
    decreases states.len(),
{
    let (m1, r) = monitor_step(m, states[0]);
    let rest = states.skip(1);
    if states.len() == 1 {
        assert(monitor_run(m1, rest) == (m1, 0nat));
    } else {
        assert(!report_due(m.last_logged_time, states[0].game_time));
        assert(rest.last() == states.last());
        assert(forall|i: int| 0 <= i < rest.len() - 1 ==> rest[i] == states[i + 1]);
        lemma_window_run(m1, rest);
    }
}

} // verus!

//! The persistence logger: turns each frame message into rows for the
//! frame-timing log and the object log, and finishes both logs exactly once.
use vstd::prelude::*;
use std::sync::Arc;
use crate::dcs::{
    lemma_fields_plain, lemma_object_row_round_trip, object_row_fields, parse_object_row_spec,
    plain_names,
    DcsWorldObject, DcsWorldUnit, Loggable, ObjectRowView,
};
use crate::decimal::{
    dec_text, fixed_text, format_fixed, format_u64, lemma_fixed_round_trip, lemma_numeric_plain,
    lemma_u64_round_trip, parse_fixed, parse_fixed_spec, parse_u64, parse_u64_spec,
};
use crate::record::{
    all_plain, csv_record, fields_view, join_fields, lemma_split_join, record_text,
    plain_field, ranges_text, split_fields, split_ranges,
};

verus! {

/// Everything captured from the host for one frame; shared read-only by the
/// consumers once built.
#[derive(Debug)]
pub struct FrameSnapshot {
    pub frame_number: u64,
    pub game_time: i64,
    pub real_time: i64,
    pub units: Vec<DcsWorldUnit>,
    pub ballistics: Vec<DcsWorldObject>,
}

/// What the producer sends to each consumer: one update per frame, then one stop.
#[derive(Debug)]
pub enum Message {
    Update(Arc<FrameSnapshot>),
    Stop,
}

/// Values read back from one row of the frame-timing log.
#[derive(Clone, Copy, Debug, PartialEq, Eq, Structural)]
pub struct FrameRow {
    pub frame_number: u64,
    pub game_time: i64,
    pub real_time: i64,
    pub num_units: u64,
    pub num_ballistics: u64,
}

/// The fields of the frame-timing row of a snapshot.
pub open spec fn frame_row_fields(s: FrameSnapshot) -> Seq<Seq<u8>> {
    seq![
        dec_text(s.frame_number as nat),
        fixed_text(s.game_time as int),
        fixed_text(s.real_time as int),
        dec_text(s.units.len() as nat),
        dec_text(s.ballistics.len() as nat),
    ]
}

/// The frame-timing row of a snapshot: its fields joined by commas, ending in a line feed.
pub open spec fn frame_row_text(s: FrameSnapshot) -> Seq<u8> {
    join_fields(frame_row_fields(s)) + seq![10u8]
}

/// The object-log rows of a snapshot: one per unit, then one per ballistic object.
pub open spec fn object_rows(s: FrameSnapshot) -> Seq<Seq<u8>> {
    Seq::new(
        s.units@.len(),
        |i: int| record_text(s.units@[i].log_fields(s.frame_number, s.game_time, s.real_time)),
    ) + Seq::new(
        s.ballistics@.len(),
        |i: int| record_text(s.ballistics@[i].log_fields(s.frame_number, s.game_time, s.real_time)),
    )
}

pub open spec fn parse_frame_row_spec(row: Seq<u8>) -> Option<FrameRow> {
    if row.len() == 0 || row.last() != 10u8 {
        None
    } else {
        let fs = split_fields(row.drop_last());
        if fs.len() != 5 {
            None
        } else {
            match (
                parse_u64_spec(fs[0]),
                parse_fixed_spec(fs[1]),
                parse_fixed_spec(fs[2]),
                parse_u64_spec(fs[3]),
                parse_u64_spec(fs[4]),
            ) {
                (Some(a), Some(b), Some(c), Some(d), Some(e)) => Some(
                    FrameRow {
                        frame_number: a,
                        game_time: b,
                        real_time: c,
                        num_units: d,
                        num_ballistics: e,
                    },
                ),
                _ => None,
            }
        }
    }
}

/// The frame-timing row of a snapshot.
pub fn log_frame(s: &FrameSnapshot) -> (r: Vec<u8>)
    ensures
        r@ == frame_row_text(*s),
{
    let mut f: Vec<Vec<u8>> = Vec::new();
    f.push(format_u64(s.frame_number));
    f.push(format_fixed(s.game_time));
    f.push(format_fixed(s.real_time));
    f.push(format_u64(s.units.len() as u64));
    f.push(format_u64(s.ballistics.len() as u64));
    proof {
        assert(fields_view(f@) =~= frame_row_fields(*s));
        let fs = frame_row_fields(*s);
        lemma_numeric_plain(s.frame_number as nat, 0, s.game_time as int);
        lemma_numeric_plain(s.units.len() as nat, 0, s.real_time as int);
        lemma_numeric_plain(s.ballistics.len() as nat, 0, 0);
        assert(forall|j: int| 0 <= j < 5 ==> #[trigger] plain_field(fs[j]));
        assert(all_plain(fs));
    }
    csv_record(&f)
}

/// Reads a frame-timing row back.
pub fn parse_frame_row(row: &Vec<u8>) -> (r: Option<FrameRow>)
    ensures
        r == parse_frame_row_spec(row@),
{
    let n = row.len();
    if n == 0 || row[n - 1] != 10u8 {
        return None;
    }
    let rs = split_ranges(row, 0, n - 1);
    assert(row@.subrange(0, n - 1) =~= row@.drop_last());
    if rs.len() != 5 {
        return None;
    }
    let ghost fs = split_fields(row@.drop_last());
    assert(fs[0] == row@.subrange(rs[0].0 as int, rs[0].1 as int));
    assert(fs[1] == row@.subrange(rs[1].0 as int, rs[1].1 as int));
    assert(fs[2] == row@.subrange(rs[2].0 as int, rs[2].1 as int));
    assert(fs[3] == row@.subrange(rs[3].0 as int, rs[3].1 as int));
    assert(fs[4] == row@.subrange(rs[4].0 as int, rs[4].1 as int));
    let a = parse_u64(row, rs[0].0, rs[0].1);
    let b = parse_fixed(row, rs[1].0, rs[1].1);
    let c = parse_fixed(row, rs[2].0, rs[2].1);
    let d = parse_u64(row, rs[3].0, rs[3].1);
    let e = parse_u64(row, rs[4].0, rs[4].1);
    match (a, b, c, d, e) {
        (Some(a), Some(b), Some(c), Some(d), Some(e)) => Some(
            FrameRow {
                frame_number: a,
                game_time: b,
                real_time: c,
                num_units: d,
                num_ballistics: e,
            },
        ),
        _ => None,
    }
}

/// Reading back the frame-timing row of a snapshot recovers the frame number,
/// both times to eight decimal places, and both entity counts.
pub proof fn lemma_frame_row_round_trip(s: FrameSnapshot)
    ensures
        parse_frame_row_spec(frame_row_text(s)) == Some(
            FrameRow {
                frame_number: s.frame_number,
                game_time: s.game_time,
                real_time: s.real_time,
                num_units: s.units.len() as u64,
                num_ballistics: s.ballistics.len() as u64,
            },
        ),
{
    let fs = frame_row_fields(s);
    lemma_numeric_plain(s.frame_number as nat, 0, s.game_time as int);
    lemma_numeric_plain(s.units.len() as nat, 0, s.real_time as int);
    lemma_numeric_plain(s.ballistics.len() as nat, 0, 0);
    assert(forall|j: int| 0 <= j < 5 ==> #[trigger] plain_field(fs[j]));
    lemma_split_join(fs);
    let row = frame_row_text(s);
    assert(row.drop_last() =~= join_fields(fs));
    lemma_u64_round_trip(s.frame_number);
    lemma_fixed_round_trip(s.game_time);
    lemma_fixed_round_trip(s.real_time);
    lemma_u64_round_trip(s.units.len() as u64);
    lemma_u64_round_trip(s.ballistics.len() as u64);
}

/// The rows of `objects` for one frame, appended to `out`.
fn log_dcs_objects<T: Loggable>(
    frame_count: u64,
    t: i64,
    real_time: i64,
    out: &mut Vec<Vec<u8>>,
    objects: &Vec<T>,
)
    ensures
        fields_view(final(out)@) == fields_view(old(out)@) + Seq::new(
            objects@.len(),
            |i: int| record_text(objects@[i].log_fields(frame_count, t, real_time)),
        ),
{
    let ghost start = fields_view(out@);
    let mut i: usize = 0;
    while i < objects.len()
        invariant
            i <= objects@.len(),
            fields_view(out@) == start + Seq::new(
                i as nat,
                |k: int| record_text(objects@[k].log_fields(frame_count, t, real_time)),
            ),
        decreases objects@.len() - i,
    {
        let row = objects[i].log_as_csv(frame_count, t, real_time);
        let ghost prev = fields_view(out@);
        out.push(row);
        assert(fields_view(out@) =~= prev.push(row@));
        assert(row@ == record_text(objects@[i as int].log_fields(frame_count, t, real_time)));
        i = i + 1;
        assert(fields_view(out@) =~= start + Seq::new(
            i as nat,
            |k: int| record_text(objects@[k].log_fields(frame_count, t, real_time)),
        ));
    }
}

/// The two output logs of a session. Each log can be switched off; the
/// logger is open until it handles its first stop.
#[derive(Clone, Copy, Debug, PartialEq, Eq, Structural)]
pub struct Logger {
    pub frame_log: bool,
    pub object_log: bool,
    pub open: bool,
}

/// What the sinks are to do for one message: append these rows to each log,
/// and finish (flush and finalise) both logs when `finish` is set.
#[derive(Debug)]
pub struct LoggerOutput {
    pub frame_rows: Vec<Vec<u8>>,
    pub object_rows: Vec<Vec<u8>>,
    pub finish: bool,
}

/// One step of the logger: the next logger and the frame rows, object rows
/// and finish flag for the sinks.
pub open spec fn logger_step(l: Logger, m: Message) -> (Logger, Seq<Seq<u8>>, Seq<Seq<u8>>, bool) {
    match m {
        Message::Update(s) => {
            if !l.open {
                (l, seq![], seq![], false)
            } else {
                (
                    l,
                    if l.frame_log { seq![frame_row_text(*s)] } else { seq![] },
                    if l.object_log { object_rows(*s) } else { seq![] },
                    false,
                )
            }
        },
        Message::Stop => (Logger { open: false, ..l }, seq![], seq![], l.open),
    }
}

/// The logger run over a sequence of messages: the last logger, all frame rows,
/// all object rows and the number of times the logs were finished.
pub open spec fn logger_run(l: Logger, msgs: Seq<Message>) -> (Logger, Seq<Seq<u8>>, Seq<Seq<u8>>, nat)
    decreases msgs.len(),
{
    if msgs.len() == 0 {
        (l, seq![], seq![], 0)
    } else {
        let (l1, f1, o1, fin) = logger_step(l, msgs[0]);
        let (l2, f2, o2, n2) = logger_run(l1, msgs.skip(1));
        (l2, f1 + f2, o1 + o2, n2 + if fin { 1nat } else { 0nat })
    }
}

impl Logger {
    /// An open logger with the given logs switched on.
    pub fn new(frame_log: bool, object_log: bool) -> (r: Logger)
        ensures
            r == (Logger { frame_log, object_log, open: true }),
    {
        Logger { frame_log, object_log, open: true }
    }

    fn log_frame(&self, s: &FrameSnapshot, out: &mut Vec<Vec<u8>>)
        ensures
            fields_view(final(out)@) == fields_view(old(out)@).push(frame_row_text(*s)),
    {
        let row = log_frame(s);
        out.push(row);
        assert(fields_view(out@) =~= fields_view(old(out)@).push(frame_row_text(*s)));
    }

    fn log_objects(&self, s: &FrameSnapshot, out: &mut Vec<Vec<u8>>)
        ensures
            fields_view(final(out)@) == fields_view(old(out)@) + object_rows(*s),
    {
        log_dcs_objects(s.frame_number, s.game_time, s.real_time, out, &s.units);
        log_dcs_objects(s.frame_number, s.game_time, s.real_time, out, &s.ballistics);
        assert(fields_view(out@) =~= fields_view(old(out)@) + object_rows(*s));
    }

    fn handle_update(&self, s: &FrameSnapshot) -> (r: LoggerOutput)
        requires
            self.open,
        ensures
            fields_view(r.frame_rows@) == (if self.frame_log {
                seq![frame_row_text(*s)]
            } else {
                seq![]
            }),
            fields_view(r.object_rows@) == (if self.object_log {
                object_rows(*s)
            } else {
                seq![]
            }),
            !r.finish,
    {
        let mut frames: Vec<Vec<u8>> = Vec::new();
        let mut objects: Vec<Vec<u8>> = Vec::new();
        if self.frame_log {
            self.log_frame(s, &mut frames);
        }
        if self.object_log {
            self.log_objects(s, &mut objects);
        }
        assert(fields_view(frames@) =~= (if self.frame_log {
            seq![frame_row_text(*s)]
        } else {
            seq![]
        }));
        assert(fields_view(objects@) =~= (if self.object_log {
            object_rows(*s)
        } else {
            seq![]
        }));
        LoggerOutput { frame_rows: frames, object_rows: objects, finish: false }
    }

    /// Handles one message. An update while open yields the frame row (if the
    /// frame log is on) and one object row per unit and per ballistic object
    /// (if the object log is on); the first stop closes the logger and asks for
    /// the logs to be finished; a closed logger yields nothing.
    pub fn handle_message(&mut self, msg: &Message) -> (r: LoggerOutput)
        ensures
            (*final(self), fields_view(r.frame_rows@), fields_view(r.object_rows@), r.finish)
                == logger_step(*old(self), *msg),
            r.object_rows@.len() == (match *msg {
                Message::Update(s) => if old(self).open && old(self).object_log {
                    s.units@.len() + s.ballistics@.len()
                } else {
                    0
                },
                Message::Stop => 0,
            }),
    {
        match msg {
            Message::Update(s) => {
                if !self.open {
                    let r = LoggerOutput { frame_rows: Vec::new(), object_rows: Vec::new(), finish: false };
                    assert(fields_view(r.frame_rows@) =~= seq![]);
                    assert(fields_view(r.object_rows@) =~= seq![]);
                    r
                } else {
                    let r = self.handle_update(s);
                    assert(r.object_rows@.len() == fields_view(r.object_rows@).len());
                    r
                }
            },
            Message::Stop => {
                let finish = self.open;
                self.open = false;
                let r = LoggerOutput { frame_rows: Vec::new(), object_rows: Vec::new(), finish };
                assert(fields_view(r.frame_rows@) =~= seq![]);
                assert(fields_view(r.object_rows@) =~= seq![]);
                r
            },
        }
    }

    /// Whether the logs have not been finished yet.
    pub fn is_open(&self) -> (r: bool)
        ensures
            r == self.open,
    {
        self.open
    }
}

pub open spec fn update_frame(m: Message) -> u64 {
    (*(m->Update_0)).frame_number
}

proof fn lemma_closed_run(l: Logger, msgs: Seq<Message>)
    requires
        !l.open,
    ensures
        logger_run(l, msgs) == (l, Seq::<Seq<u8>>::empty(), Seq::<Seq<u8>>::empty(), 0nat),
    decreases msgs.len(),
{
    if msgs.len() > 0 {
        lemma_closed_run(Logger { open: false, ..l }, msgs.skip(1));
        assert(Logger { open: false, ..l } == l);
    }
}

/// A session of `N` updates followed by a stop writes exactly `N` rows to an
/// enabled frame-timing log, finishes the logs once, and the frame numbers read
/// back from the rows are those of the updates, in order, so they increase
/// strictly when the updates' frame numbers do.
pub proof fn lemma_frame_log_rows(l: Logger, msgs: Seq<Message>)
    requires
        l.open,
        l.frame_log,
        msgs.len() >= 1,
        msgs.last() is Stop,
        forall|i: int| 0 <= i < msgs.len() - 1 ==> #[trigger] msgs[i] is Update,
        forall|i: int, j: int|
            0 <= i < j < msgs.len() - 1 ==> update_frame(#[trigger] msgs[i]) < update_frame(
                #[trigger] msgs[j],
            ),
    ensures
        ({
            let (l2, rows, _, finished) = logger_run(l, msgs);
            &&& rows.len() == msgs.len() - 1
            &&& finished == 1
            &&& !l2.open
            &&& forall|i: int| #![trigger rows[i]]
                0 <= i < rows.len() ==> parse_frame_row_spec(rows[i]) is Some
                    && parse_frame_row_spec(rows[i])->Some_0.frame_number == update_frame(msgs[i])
            &&& forall|i: int, j: int|
                0 <= i < j < rows.len() ==> parse_frame_row_spec(
                    #[trigger] rows[i],
                )->Some_0.frame_number < parse_frame_row_spec(#[trigger] rows[j])->Some_0.frame_number
        }),
    decreases msgs.len(),
{
    if msgs.len() == 1 {
        lemma_closed_run(Logger { open: false, ..l }, msgs.skip(1));
    } else {
        let rest = msgs.skip(1);
        assert(rest.last() == msgs.last());
        assert(forall|i: int| 0 <= i < rest.len() - 1 ==> rest[i] == msgs[i + 1]);
        assert forall|i: int, j: int|
            0 <= i < j < rest.len() - 1 implies update_frame(#[trigger] rest[i]) < update_frame(
                #[trigger] rest[j],
            ) by {
            assert(rest[i] == msgs[i + 1] && rest[j] == msgs[j + 1]);
        }
        assert(msgs[0] is Update);
        lemma_frame_log_rows(l, rest);
        let s = *(msgs[0]->Update_0);
        lemma_frame_row_round_trip(s);
        let (l2, rows, _, finished) = logger_run(l, msgs);
        let (_, rrows, _, _) = logger_run(l, rest);
        assert(rows == seq![frame_row_text(s)] + rrows);
        assert forall|i: int| #![trigger rows[i]]
            0 <= i < rows.len() implies parse_frame_row_spec(rows[i]) is Some
                && parse_frame_row_spec(rows[i])->Some_0.frame_number == update_frame(msgs[i]) by {
            if i > 0 {
                assert(rows[i] == rrows[i - 1]);
                assert(rest[i - 1] == msgs[i]);
            }
        }
        assert forall|i: int, j: int|
            0 <= i < j < rows.len() implies parse_frame_row_spec(
                #[trigger] rows[i],
            )->Some_0.frame_number < parse_frame_row_spec(#[trigger] rows[j])->Some_0.frame_number by {
            assert(update_frame(msgs[i]) < update_frame(msgs[j]));
        }
    }
}

/// Stopping is idempotent: from an open logger, any run in which a stop occurs
/// finishes the logs exactly once, and nothing is written after the first stop.
pub proof fn lemma_stop_finishes_once(l: Logger, msgs: Seq<Message>, k: int)
    requires
        l.open,
        0 <= k < msgs.len(),
        msgs[k] is Stop,
        forall|i: int| 0 <= i < k ==> !(#[trigger] msgs[i] is Stop),
    ensures
        logger_run(l, msgs).3 == 1,
        !logger_run(l, msgs).0.open,
        logger_run(l, msgs).1 == logger_run(l, msgs.take(k)).1,
        logger_run(l, msgs).2 == logger_run(l, msgs.take(k)).2,
    decreases k,
{
    let rest = msgs.skip(1);
    if k == 0 {
        lemma_closed_run(Logger { open: false, ..l }, rest);
        assert(msgs.take(0) =~= Seq::<Message>::empty());
    } else {
        assert(msgs[0] is Update);
        assert(forall|i: int| 0 <= i < k - 1 ==> rest[i] == msgs[i + 1]);
        lemma_stop_finishes_once(l, rest, k - 1);
        assert(msgs.take(k).skip(1) =~= rest.take(k - 1));
        assert(msgs.take(k)[0] == msgs[0]);
    }
}

/// The values that the object-log row of `o` in the frame of `s` holds.
pub open spec fn object_row_view(s: FrameSnapshot, unit_name: Seq<u8>, group_name: Seq<u8>, o: DcsWorldObject) -> ObjectRowView {
    ObjectRowView {
        frame_number: s.frame_number,
        game_time: s.game_time,
        real_time: s.real_time,
        unit_name,
        group_name,
        id: o.id,
        name: o.name@,
        country: o.country,
        coalition: o.coalition@,
        coalition_id: o.coalition_id,
        lat_lon_alt: o.lat_lon_alt,
        heading: o.heading,
        pitch: o.pitch,
        bank: o.bank,
        position: o.position,
    }
}

proof fn lemma_entity_row(
    s: FrameSnapshot,
    unit_name: Seq<u8>,
    group_name: Seq<u8>,
    o: DcsWorldObject,
)
    requires
        plain_names(unit_name, group_name, o),
    ensures
        parse_object_row_spec(
            record_text(object_row_fields(s.frame_number, s.game_time, s.real_time, unit_name, group_name, o)),
        ) == Some(object_row_view(s, unit_name, group_name, o)),
{
    let fs = object_row_fields(s.frame_number, s.game_time, s.real_time, unit_name, group_name, o);
    lemma_fields_plain(s.frame_number, s.game_time, s.real_time, unit_name, group_name, o);
    assert(fs.len() == 19);
    assert(record_text(fs) == join_fields(fs) + seq![10u8]);
    lemma_object_row_round_trip(s.frame_number, s.game_time, s.real_time, unit_name, group_name, o);
}

/// Reading back the object-log rows of a snapshot recovers each entity's
/// values with the frame's number and times, for every entity whose names
/// need no quoting: units first, then ballistic objects, in order.
pub proof fn lemma_object_rows_round_trip(s: FrameSnapshot, i: int)
    requires
        0 <= i < s.units@.len() + s.ballistics@.len(),
    ensures
        object_rows(s).len() == s.units@.len() + s.ballistics@.len(),
        i < s.units@.len() && plain_names(s.units@[i].unit_name@, s.units@[i].group_name@, s.units@[i].object)
            ==> parse_object_row_spec(object_rows(s)[i]) == Some(
            object_row_view(s, s.units@[i].unit_name@, s.units@[i].group_name@, s.units@[i].object),
        ),
        i >= s.units@.len() && plain_names(seq![], seq![], s.ballistics@[i - s.units@.len()])
            ==> parse_object_row_spec(object_rows(s)[i]) == Some(
            object_row_view(s, seq![], seq![], s.ballistics@[i - s.units@.len()]),
        ),
{
    let n = s.units@.len() as int;
    if i < n {
        let u = s.units@[i];
        assert(object_rows(s)[i] == record_text(u.log_fields(s.frame_number, s.game_time, s.real_time)));
        if plain_names(u.unit_name@, u.group_name@, u.object) {
            lemma_entity_row(s, u.unit_name@, u.group_name@, u.object);
        }
    } else {
        let o = s.ballistics@[i - n];
        assert(object_rows(s)[i] == record_text(o.log_fields(s.frame_number, s.game_time, s.real_time)));
        if plain_names(seq![], seq![], o) {
            lemma_entity_row(s, seq![], seq![], o);
        }
    }
}

} // verus!

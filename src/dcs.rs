//! World entities taken from the host, and their rows in the object log.
use vstd::prelude::*;
use crate::decimal::{
    dec_text, fixed_text, format_fixed, format_int, format_u64, int_text, lemma_fixed_round_trip,
    lemma_i32_round_trip, lemma_numeric_plain, lemma_u64_round_trip, parse_fixed, parse_fixed_spec,
    parse_i32, parse_i32_spec, parse_u64, parse_u64_spec,
};
use crate::record::{
    all_plain, copy_bytes, copy_range, csv_record, fields_view, join_fields, record_text,
    lemma_split_join, plain_field, split_fields, split_ranges,
};

verus! {

/// A geographic position; fixed-point degrees and metres.
#[derive(Clone, Copy, Debug, PartialEq, Eq, Structural)]
pub struct LatLonAlt {
    pub lat: i64,
    pub lon: i64,
    pub alt: i64,
}

/// A position in the host's Cartesian frame; fixed-point metres.
#[derive(Clone, Copy, Debug, PartialEq, Eq, Structural)]
pub struct DcsPosition {
    pub x: i64,
    pub y: i64,
    pub z: i64,
}

/// One world object of one frame. Text fields hold UTF-8 bytes; real-valued
/// fields are fixed-point with eight decimal places.
#[derive(Clone, Debug)]
pub struct DcsWorldObject {
    pub id: i32,
    pub name: Vec<u8>,
    pub country: i32,
    pub coalition: Vec<u8>,
    pub coalition_id: i32,
    pub lat_lon_alt: LatLonAlt,
    pub heading: i64,
    pub pitch: i64,
    pub bank: i64,
    pub position: DcsPosition,
}

/// A crewed unit: a world object with the names of the unit and its group.
#[derive(Clone, Debug)]
pub struct DcsWorldUnit {
    pub object: DcsWorldObject,
    pub unit_name: Vec<u8>,
    pub group_name: Vec<u8>,
}

/// The fields that the host exposes for one entity, as read from its record;
/// `None` where the record lacks the field or holds a value of another kind.
#[derive(Clone, Debug)]
pub struct HostRecord {
    pub name: Option<Vec<u8>>,
    pub country: Option<i32>,
    pub coalition: Option<Vec<u8>>,
    pub coalition_id: Option<i32>,
    pub lat: Option<i64>,
    pub lon: Option<i64>,
    pub alt: Option<i64>,
    pub heading: Option<i64>,
    pub pitch: Option<i64>,
    pub bank: Option<i64>,
    pub x: Option<i64>,
    pub y: Option<i64>,
    pub z: Option<i64>,
    pub unit_name: Option<Vec<u8>>,
    pub group_name: Option<Vec<u8>>,
}

/// A required field of a host record.
#[derive(Clone, Copy, Debug, PartialEq, Eq, Structural)]
pub enum Field {
    Name,
    Country,
    Coalition,
    CoalitionId,
    Lat,
    Long,
    Alt,
    Heading,
    Pitch,
    Bank,
    X,
    Y,
    Z,
}

#[derive(Clone, Copy, Debug, PartialEq, Eq, Structural)]
pub enum RecordError {
    MissingField(Field),
}

/// The first required field, in declaration order, that the record lacks.
pub open spec fn missing_field(r: HostRecord) -> Option<Field> {
    if r.name is None {
        Some(Field::Name)
    } else if r.country is None {
        Some(Field::Country)
    } else if r.coalition is None {
        Some(Field::Coalition)
    } else if r.coalition_id is None {
        Some(Field::CoalitionId)
    } else if r.lat is None {
        Some(Field::Lat)
    } else if r.lon is None {
        Some(Field::Long)
    } else if r.alt is None {
        Some(Field::Alt)
    } else if r.heading is None {
        Some(Field::Heading)
    } else if r.pitch is None {
        Some(Field::Pitch)
    } else if r.bank is None {
        Some(Field::Bank)
    } else if r.x is None {
        Some(Field::X)
    } else if r.y is None {
        Some(Field::Y)
    } else if r.z is None {
        Some(Field::Z)
    } else {
        None
    }
}

/// The object that a complete record describes.
pub open spec fn object_of(id: i32, r: HostRecord) -> DcsWorldObject {
    DcsWorldObject {
        id,
        name: r.name->Some_0,
        country: r.country->Some_0,
        coalition: r.coalition->Some_0,
        coalition_id: r.coalition_id->Some_0,
        lat_lon_alt: LatLonAlt { lat: r.lat->Some_0, lon: r.lon->Some_0, alt: r.alt->Some_0 },
        heading: r.heading->Some_0,
        pitch: r.pitch->Some_0,
        bank: r.bank->Some_0,
        position: DcsPosition { x: r.x->Some_0, y: r.y->Some_0, z: r.z->Some_0 },
    }
}

/// The name given to a unit or group that the host leaves unnamed.
pub open spec fn unnamed() -> Seq<u8> {
    seq![78u8, 111u8, 78u8, 97u8, 109u8, 101u8]
}

pub open spec fn name_or_unnamed(n: Option<Vec<u8>>) -> Seq<u8> {
    match n {
        Some(v) => v@,
        None => unnamed(),
    }
}

fn unnamed_bytes() -> (r: Vec<u8>)
    ensures
        r@ == unnamed(),
{
    let r: Vec<u8> = vec![78u8, 111u8, 78u8, 97u8, 109u8, 101u8];
    assert(r@ =~= unnamed());
    r
}

impl DcsWorldObject {
    /// Builds the object with identifier `id` from a host record; fails with
    /// the first required field that the record lacks.
    pub fn from_lua_with_id(id: i32, table: HostRecord) -> (r: Result<Self, RecordError>)
        ensures
            match missing_field(table) {
                Some(f) => r == Err::<Self, RecordError>(RecordError::MissingField(f)),
                None => r == Ok::<Self, RecordError>(object_of(id, table)),
            },
    {
        let HostRecord {
            name,
            country,
            coalition,
            coalition_id,
            lat,
            lon,
            alt,
            heading,
            pitch,
            bank,
            x,
            y,
            z,
            unit_name: _,
            group_name: _,
        } = table;
        let name = match name {
            Some(v) => v,
            None => return Err(RecordError::MissingField(Field::Name)),
        };
        let country = match country {
            Some(v) => v,
            None => return Err(RecordError::MissingField(Field::Country)),
        };
        let coalition = match coalition {
            Some(v) => v,
            None => return Err(RecordError::MissingField(Field::Coalition)),
        };
        let coalition_id = match coalition_id {
            Some(v) => v,
            None => return Err(RecordError::MissingField(Field::CoalitionId)),
        };
        let lat = match lat {
            Some(v) => v,
            None => return Err(RecordError::MissingField(Field::Lat)),
        };
        let lon = match lon {
            Some(v) => v,
            None => return Err(RecordError::MissingField(Field::Long)),
        };
        let alt = match alt {
            Some(v) => v,
            None => return Err(RecordError::MissingField(Field::Alt)),
        };
        let heading = match heading {
            Some(v) => v,
            None => return Err(RecordError::MissingField(Field::Heading)),
        };
        let pitch = match pitch {
            Some(v) => v,
            None => return Err(RecordError::MissingField(Field::Pitch)),
        };
        let bank = match bank {
            Some(v) => v,
            None => return Err(RecordError::MissingField(Field::Bank)),
        };
        let x = match x {
            Some(v) => v,
            None => return Err(RecordError::MissingField(Field::X)),
        };
        let y = match y {
            Some(v) => v,
            None => return Err(RecordError::MissingField(Field::Y)),
        };
        let z = match z {
            Some(v) => v,
            None => return Err(RecordError::MissingField(Field::Z)),
        };
        Ok(DcsWorldObject {
            id,
            name,
            country,
            coalition,
            coalition_id,
            lat_lon_alt: LatLonAlt { lat, lon, alt },
            heading,
            pitch,
            bank,
            position: DcsPosition { x, y, z },
        })
    }
}

impl DcsWorldUnit {
    /// Builds the unit with identifier `id` from a host record. A missing unit
    /// or group name becomes the unnamed sentinel; any other missing field
    /// fails as for a world object.
    pub fn from_lua_with_id(id: i32, table: HostRecord) -> (r: Result<Self, RecordError>)
        ensures
            match missing_field(table) {
                Some(f) => r == Err::<Self, RecordError>(RecordError::MissingField(f)),
                None => r is Ok && r->Ok_0.object == object_of(id, table)
                    && r->Ok_0.unit_name@ == name_or_unnamed(table.unit_name)
                    && r->Ok_0.group_name@ == name_or_unnamed(table.group_name),
            },
    {
        let unit_name = match &table.unit_name {
            Some(v) => copy_bytes(v),
            None => unnamed_bytes(),
        };
        let group_name = match &table.group_name {
            Some(v) => copy_bytes(v),
            None => unnamed_bytes(),
        };
        let object = DcsWorldObject::from_lua_with_id(id, table)?;
        Ok(DcsWorldUnit { object, unit_name, group_name })
    }
}

/// The fields of one row of the object log.
pub open spec fn object_row_fields(
    frame: u64,
    game_time: i64,
    real_time: i64,
    unit_name: Seq<u8>,
    group_name: Seq<u8>,
    o: DcsWorldObject,
) -> Seq<Seq<u8>> {
    seq![
        dec_text(frame as nat),
        fixed_text(game_time as int),
        fixed_text(real_time as int),
        unit_name,
        group_name,
        int_text(o.id as int),
        o.name@,
        int_text(o.country as int),
        o.coalition@,
        int_text(o.coalition_id as int),
        fixed_text(o.lat_lon_alt.lat as int),
        fixed_text(o.lat_lon_alt.lon as int),
        fixed_text(o.lat_lon_alt.alt as int),
        fixed_text(o.heading as int),
        fixed_text(o.pitch as int),
        fixed_text(o.bank as int),
        fixed_text(o.position.x as int),
        fixed_text(o.position.y as int),
        fixed_text(o.position.z as int),
    ]
}

fn object_row(
    frame: u64,
    game_time: i64,
    real_time: i64,
    unit_name: &Vec<u8>,
    group_name: &Vec<u8>,
    o: &DcsWorldObject,
) -> (r: Vec<u8>)
    ensures
        r@ == record_text(
            object_row_fields(frame, game_time, real_time, unit_name@, group_name@, *o),
        ),
        plain_names(unit_name@, group_name@, *o) ==> r@ == join_fields(
            object_row_fields(frame, game_time, real_time, unit_name@, group_name@, *o),
        ) + seq![10u8],
{
    let mut f: Vec<Vec<u8>> = Vec::new();
    f.push(format_u64(frame));
    f.push(format_fixed(game_time));
    f.push(format_fixed(real_time));
    f.push(copy_bytes(unit_name));
    f.push(copy_bytes(group_name));
    f.push(format_int(o.id as i64));
    f.push(copy_bytes(&o.name));
    f.push(format_int(o.country as i64));
    f.push(copy_bytes(&o.coalition));
    f.push(format_int(o.coalition_id as i64));
    f.push(format_fixed(o.lat_lon_alt.lat));
    f.push(format_fixed(o.lat_lon_alt.lon));
    f.push(format_fixed(o.lat_lon_alt.alt));
    f.push(format_fixed(o.heading));
    f.push(format_fixed(o.pitch));
    f.push(format_fixed(o.bank));
    f.push(format_fixed(o.position.x));
    f.push(format_fixed(o.position.y));
    f.push(format_fixed(o.position.z));
    assert(fields_view(f@) =~= object_row_fields(
        frame,
        game_time,
        real_time,
        unit_name@,
        group_name@,
        *o,
    ));
    proof {
        if plain_names(unit_name@, group_name@, *o) {
            lemma_fields_plain(frame, game_time, real_time, unit_name@, group_name@, *o);
        }
    }
    csv_record(&f)
}

/// Names that need no quoting in a record.
pub open spec fn plain_names(unit_name: Seq<u8>, group_name: Seq<u8>, o: DcsWorldObject) -> bool {
    plain_field(unit_name) && plain_field(group_name) && plain_field(o.name@) && plain_field(
        o.coalition@,
    )
}

/// With plain names, every field of an object-log row is plain.
pub proof fn lemma_fields_plain(
    frame: u64,
    game_time: i64,
    real_time: i64,
    unit_name: Seq<u8>,
    group_name: Seq<u8>,
    o: DcsWorldObject,
)
    requires
        plain_names(unit_name, group_name, o),
    ensures
        all_plain(object_row_fields(frame, game_time, real_time, unit_name, group_name, o)),
{
    let fs = object_row_fields(frame, game_time, real_time, unit_name, group_name, o);
    lemma_numeric_plain(frame as nat, o.id as int, game_time as int);
    lemma_numeric_plain(0, o.country as int, real_time as int);
    lemma_numeric_plain(0, o.coalition_id as int, o.lat_lon_alt.lat as int);
    lemma_numeric_plain(0, 0, o.lat_lon_alt.lon as int);
    lemma_numeric_plain(0, 0, o.lat_lon_alt.alt as int);
    lemma_numeric_plain(0, 0, o.heading as int);
    lemma_numeric_plain(0, 0, o.pitch as int);
    lemma_numeric_plain(0, 0, o.bank as int);
    lemma_numeric_plain(0, 0, o.position.x as int);
    lemma_numeric_plain(0, 0, o.position.y as int);
    lemma_numeric_plain(0, 0, o.position.z as int);
    assert(forall|j: int| 0 <= j < 19 ==> #[trigger] plain_field(fs[j]));
}

/// An entity that has a row in the object log.
pub trait Loggable {
    /// The fields of the entity's row for the given frame.
    spec fn log_fields(&self, frame_count: u64, frame_time: i64, real_time: i64) -> Seq<Seq<u8>>;

    /// The entity's text fields need no quoting.
    spec fn has_plain_names(&self) -> bool;

    /// The entity's row for the given frame, as the csv writer encodes it:
    /// with plain names, the fields joined by commas and ending in a line feed.
    fn log_as_csv(&self, frame_count: u64, frame_time: i64, real_time: i64) -> (r: Vec<u8>)
        ensures
            r@ == record_text(self.log_fields(frame_count, frame_time, real_time)),
            self.has_plain_names() ==> r@ == join_fields(
                self.log_fields(frame_count, frame_time, real_time),
            ) + seq![10u8],
    ;
}

impl Loggable for DcsWorldObject {
    /// A free-flying object has empty unit and group names.
    open spec fn log_fields(&self, frame_count: u64, frame_time: i64, real_time: i64) -> Seq<
        Seq<u8>,
    > {
        object_row_fields(frame_count, frame_time, real_time, seq![], seq![], *self)
    }

    open spec fn has_plain_names(&self) -> bool {
        plain_names(seq![], seq![], *self)
    }

    fn log_as_csv(&self, frame_count: u64, frame_time: i64, real_time: i64) -> (r: Vec<u8>) {
        let empty: Vec<u8> = Vec::new();
        assert(empty@ =~= Seq::<u8>::empty());
        object_row(frame_count, frame_time, real_time, &empty, &empty, self)
    }
}

impl Loggable for DcsWorldUnit {
    open spec fn log_fields(&self, frame_count: u64, frame_time: i64, real_time: i64) -> Seq<
        Seq<u8>,
    > {
        object_row_fields(
            frame_count,
            frame_time,
            real_time,
            self.unit_name@,
            self.group_name@,
            self.object,
        )
    }

    open spec fn has_plain_names(&self) -> bool {
        plain_names(self.unit_name@, self.group_name@, self.object)
    }

    fn log_as_csv(&self, frame_count: u64, frame_time: i64, real_time: i64) -> (r: Vec<u8>) {
        object_row(
            frame_count,
            frame_time,
            real_time,
            &self.unit_name,
            &self.group_name,
            &self.object,
        )
    }
}

/// Values read back from one row of the object log.
#[derive(Debug)]
pub struct ObjectRow {
    pub frame_number: u64,
    pub game_time: i64,
    pub real_time: i64,
    pub unit_name: Vec<u8>,
    pub group_name: Vec<u8>,
    pub object: DcsWorldObject,
}

pub ghost struct ObjectRowView {
    pub frame_number: u64,
    pub game_time: i64,
    pub real_time: i64,
    pub unit_name: Seq<u8>,
    pub group_name: Seq<u8>,
    pub id: i32,
    pub name: Seq<u8>,
    pub country: i32,
    pub coalition: Seq<u8>,
    pub coalition_id: i32,
    pub lat_lon_alt: LatLonAlt,
    pub heading: i64,
    pub pitch: i64,
    pub bank: i64,
    pub position: DcsPosition,
}

impl View for ObjectRow {
    type V = ObjectRowView;

    open spec fn view(&self) -> ObjectRowView {
        ObjectRowView {
            frame_number: self.frame_number,
            game_time: self.game_time,
            real_time: self.real_time,
            unit_name: self.unit_name@,
            group_name: self.group_name@,
            id: self.object.id,
            name: self.object.name@,
            country: self.object.country,
            coalition: self.object.coalition@,
            coalition_id: self.object.coalition_id,
            lat_lon_alt: self.object.lat_lon_alt,
            heading: self.object.heading,
            pitch: self.object.pitch,
            bank: self.object.bank,
            position: self.object.position,
        }
    }
}

/// The values of an object-log row, taking each text field as it stands.
pub open spec fn parse_object_row_spec(row: Seq<u8>) -> Option<ObjectRowView> {
    if row.len() == 0 || row.last() != 10u8 {
        None
    } else {
        let fs = split_fields(row.drop_last());
        if fs.len() != 19 {
            None
        } else if parse_u64_spec(fs[0]) is Some && parse_fixed_spec(fs[1]) is Some
            && parse_fixed_spec(fs[2]) is Some && parse_i32_spec(fs[5]) is Some
            && parse_i32_spec(fs[7]) is Some && parse_i32_spec(fs[9]) is Some
            && parse_fixed_spec(fs[10]) is Some && parse_fixed_spec(fs[11]) is Some
            && parse_fixed_spec(fs[12]) is Some && parse_fixed_spec(fs[13]) is Some
            && parse_fixed_spec(fs[14]) is Some && parse_fixed_spec(fs[15]) is Some
            && parse_fixed_spec(fs[16]) is Some && parse_fixed_spec(fs[17]) is Some
            && parse_fixed_spec(fs[18]) is Some {
            Some(
                ObjectRowView {
                    frame_number: parse_u64_spec(fs[0])->Some_0,
                    game_time: parse_fixed_spec(fs[1])->Some_0,
                    real_time: parse_fixed_spec(fs[2])->Some_0,
                    unit_name: fs[3],
                    group_name: fs[4],
                    id: parse_i32_spec(fs[5])->Some_0,
                    name: fs[6],
                    country: parse_i32_spec(fs[7])->Some_0,
                    coalition: fs[8],
                    coalition_id: parse_i32_spec(fs[9])->Some_0,
                    lat_lon_alt: LatLonAlt {
                        lat: parse_fixed_spec(fs[10])->Some_0,
                        lon: parse_fixed_spec(fs[11])->Some_0,
                        alt: parse_fixed_spec(fs[12])->Some_0,
                    },
                    heading: parse_fixed_spec(fs[13])->Some_0,
                    pitch: parse_fixed_spec(fs[14])->Some_0,
                    bank: parse_fixed_spec(fs[15])->Some_0,
                    position: DcsPosition {
                        x: parse_fixed_spec(fs[16])->Some_0,
                        y: parse_fixed_spec(fs[17])->Some_0,
                        z: parse_fixed_spec(fs[18])->Some_0,
                    },
                },
            )
        } else {
            None
        }
    }
}

/// Reads an object-log row back.
pub fn parse_object_row(row: &Vec<u8>) -> (r: Option<ObjectRow>)
    ensures
        match r {
            Some(o) => parse_object_row_spec(row@) == Some(o@),
            None => parse_object_row_spec(row@) is None,
        },
{
    let n = row.len();
    if n == 0 || row[n - 1] != 10u8 {
        return None;
    }
    let rs = split_ranges(row, 0, n - 1);
    assert(row@.subrange(0, n - 1) =~= row@.drop_last());
    if rs.len() != 19 {
        return None;
    }
    let ghost fs = split_fields(row@.drop_last());
    assert(forall|k: int| 0 <= k < 19 ==> #[trigger] fs[k] == row@.subrange(rs@[k].0 as int, rs@[k].1 as int));
    let frame_number = parse_u64(row, rs[0].0, rs[0].1);
    let game_time = parse_fixed(row, rs[1].0, rs[1].1);
    let real_time = parse_fixed(row, rs[2].0, rs[2].1);
    let id = parse_i32(row, rs[5].0, rs[5].1);
    let country = parse_i32(row, rs[7].0, rs[7].1);
    let coalition_id = parse_i32(row, rs[9].0, rs[9].1);
    let lat = parse_fixed(row, rs[10].0, rs[10].1);
    let lon = parse_fixed(row, rs[11].0, rs[11].1);
    let alt = parse_fixed(row, rs[12].0, rs[12].1);
    let heading = parse_fixed(row, rs[13].0, rs[13].1);
    let pitch = parse_fixed(row, rs[14].0, rs[14].1);
    let bank = parse_fixed(row, rs[15].0, rs[15].1);
    let x = parse_fixed(row, rs[16].0, rs[16].1);
    let y = parse_fixed(row, rs[17].0, rs[17].1);
    let z = parse_fixed(row, rs[18].0, rs[18].1);
    assert(fs[0] == row@.subrange(rs@[0].0 as int, rs@[0].1 as int));
    assert(fs[1] == row@.subrange(rs@[1].0 as int, rs@[1].1 as int));
    assert(fs[2] == row@.subrange(rs@[2].0 as int, rs@[2].1 as int));
    assert(fs[3] == row@.subrange(rs@[3].0 as int, rs@[3].1 as int));
    assert(fs[4] == row@.subrange(rs@[4].0 as int, rs@[4].1 as int));
    assert(fs[5] == row@.subrange(rs@[5].0 as int, rs@[5].1 as int));
    assert(fs[6] == row@.subrange(rs@[6].0 as int, rs@[6].1 as int));
    assert(fs[7] == row@.subrange(rs@[7].0 as int, rs@[7].1 as int));
    assert(fs[8] == row@.subrange(rs@[8].0 as int, rs@[8].1 as int));
    assert(fs[9] == row@.subrange(rs@[9].0 as int, rs@[9].1 as int));
    assert(fs[10] == row@.subrange(rs@[10].0 as int, rs@[10].1 as int));
    assert(fs[11] == row@.subrange(rs@[11].0 as int, rs@[11].1 as int));
    assert(fs[12] == row@.subrange(rs@[12].0 as int, rs@[12].1 as int));
    assert(fs[13] == row@.subrange(rs@[13].0 as int, rs@[13].1 as int));
    assert(fs[14] == row@.subrange(rs@[14].0 as int, rs@[14].1 as int));
    assert(fs[15] == row@.subrange(rs@[15].0 as int, rs@[15].1 as int));
    assert(fs[16] == row@.subrange(rs@[16].0 as int, rs@[16].1 as int));
    assert(fs[17] == row@.subrange(rs@[17].0 as int, rs@[17].1 as int));
    assert(fs[18] == row@.subrange(rs@[18].0 as int, rs@[18].1 as int));
    match (frame_number, game_time, real_time, id, country, coalition_id) {
        (Some(frame_number), Some(game_time), Some(real_time), Some(id), Some(country), Some(coalition_id)) => {
            match (lat, lon, alt, heading, pitch, bank, x, y, z) {
                (Some(lat), Some(lon), Some(alt), Some(heading), Some(pitch), Some(bank), Some(x), Some(y), Some(z)) => {
                    let r = ObjectRow {
                        frame_number,
                        game_time,
                        real_time,
                        unit_name: copy_range(row, rs[3].0, rs[3].1),
                        group_name: copy_range(row, rs[4].0, rs[4].1),
                        object: DcsWorldObject {
                            id,
                            name: copy_range(row, rs[6].0, rs[6].1),
                            country,
                            coalition: copy_range(row, rs[8].0, rs[8].1),
                            coalition_id,
                            lat_lon_alt: LatLonAlt { lat, lon, alt },
                            heading,
                            pitch,
                            bank,
                            position: DcsPosition { x, y, z },
                        },
                    };
                    Some(r)
                },
                _ => None,
            }
        },
        _ => None,
    }
}

/// Reading back an object-log row whose names need no quoting recovers the
/// frame number, the times and coordinates to eight decimal places, the
/// integers, and the names.
pub proof fn lemma_object_row_round_trip(
    frame: u64,
    game_time: i64,
    real_time: i64,
    unit_name: Seq<u8>,
    group_name: Seq<u8>,
    o: DcsWorldObject,
)
    requires
        plain_names(unit_name, group_name, o),
    ensures
        parse_object_row_spec(
            join_fields(object_row_fields(frame, game_time, real_time, unit_name, group_name, o))
                + seq![10u8],
        ) == Some(
            ObjectRowView {
                frame_number: frame,
                game_time,
                real_time,
                unit_name,
                group_name,
                id: o.id,
                name: o.name@,
                country: o.country,
                coalition: o.coalition@,
                coalition_id: o.coalition_id,
                lat_lon_alt: o.lat_lon_alt,
                heading: o.heading,
                pitch: o.pitch,
                bank: o.bank,
                position: o.position,
            },
        ),
{
    let fs = object_row_fields(frame, game_time, real_time, unit_name, group_name, o);
    lemma_fields_plain(frame, game_time, real_time, unit_name, group_name, o);
    lemma_split_join(fs);
    let row = join_fields(fs) + seq![10u8];
    assert(row.drop_last() =~= join_fields(fs));
    lemma_u64_round_trip(frame);
    lemma_fixed_round_trip(game_time);
    lemma_fixed_round_trip(real_time);
    lemma_i32_round_trip(o.id);
    lemma_i32_round_trip(o.country);
    lemma_i32_round_trip(o.coalition_id);
    lemma_fixed_round_trip(o.lat_lon_alt.lat);
    lemma_fixed_round_trip(o.lat_lon_alt.lon);
    lemma_fixed_round_trip(o.lat_lon_alt.alt);
    lemma_fixed_round_trip(o.heading);
    lemma_fixed_round_trip(o.pitch);
    lemma_fixed_round_trip(o.bank);
    lemma_fixed_round_trip(o.position.x);
    lemma_fixed_round_trip(o.position.y);
    lemma_fixed_round_trip(o.position.z);
}

} // verus!

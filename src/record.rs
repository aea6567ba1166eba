//! Delimited text records: one record per line, fields separated by commas.
use vstd::prelude::*;

verus! {

pub open spec fn is_special(c: u8) -> bool {
    c == 44u8 || c == 34u8 || c == 13u8 || c == 10u8
}

/// A field that needs no quoting: no comma, quote, carriage return or line feed.
pub open spec fn plain_field(f: Seq<u8>) -> bool {
    forall|i: int| 0 <= i < f.len() ==> !#[trigger] is_special(f[i])
}

pub open spec fn all_plain(fs: Seq<Seq<u8>>) -> bool {
    forall|j: int| 0 <= j < fs.len() ==> #[trigger] plain_field(fs[j])
}

/// The fields separated by commas.
pub open spec fn join_fields(fs: Seq<Seq<u8>>) -> Seq<u8>
    decreases fs.len(),
{
    if fs.len() == 0 {
        seq![]
    } else if fs.len() == 1 {
        fs[0]
    } else {
        fs[0] + seq![44u8] + join_fields(fs.skip(1))
    }
}

/// Index of the first comma of `s`, or -1.
pub open spec fn first_comma(s: Seq<u8>) -> int
    decreases s.len(),
{
    if s.len() == 0 {
        -1
    } else if s[0] == 44u8 {
        0
    } else {
        let k = first_comma(s.skip(1));
        if k < 0 { -1 } else { k + 1 }
    }
}

/// The pieces of `s` between commas.
pub open spec fn split_fields(s: Seq<u8>) -> Seq<Seq<u8>>
    decreases s.len(),
{
    let i = first_comma(s);
    if i < 0 || i >= s.len() {
        seq![s]
    } else {
        seq![s.take(i)] + split_fields(s.skip(i + 1))
    }
}

pub open spec fn fields_view(f: Seq<Vec<u8>>) -> Seq<Seq<u8>> {
    f.map_values(|v: Vec<u8>| v@)
}

/// A copy of the bytes of `v`.
pub fn copy_bytes(v: &Vec<u8>) -> (r: Vec<u8>)
    ensures
        r@ == v@,
{
    let mut r: Vec<u8> = Vec::new();
    let mut i: usize = 0;
    while i < v.len()
        invariant
            i <= v@.len(),
            r@ == v@.subrange(0, i as int),
        decreases v@.len() - i,
    {
        r.push(v[i]);
        i = i + 1;
        assert(r@ =~= v@.subrange(0, i as int));
    }
    assert(r@ =~= v@);
    r
}

/// A copy of `s[lo..hi]`.
pub fn copy_range(s: &Vec<u8>, lo: usize, hi: usize) -> (r: Vec<u8>)
    requires
        lo <= hi <= s@.len(),
    ensures
        r@ == s@.subrange(lo as int, hi as int),
{
    let mut r: Vec<u8> = Vec::new();
    let mut i: usize = lo;
    while i < hi
        invariant
            lo <= i <= hi <= s@.len(),
            r@ == s@.subrange(lo as int, i as int),
        decreases hi - i,
    {
        r.push(s[i]);
        i = i + 1;
        assert(r@ =~= s@.subrange(lo as int, i as int));
    }
    r
}

/// What the csv writer makes of one record.
pub uninterp spec fn csv_record_of(fields: Seq<Seq<u8>>) -> Seq<u8>;

/// The csv writer's record for `fs`, stated outright when no field needs quoting.
pub open spec fn record_text(fs: Seq<Seq<u8>>) -> Seq<u8> {
    if fs.len() >= 2 && all_plain(fs) {
        join_fields(fs) + seq![10u8]
    } else {
        csv_record_of(fs)
    }
}

/// Relies on `csv::Writer::write_record` with the default settings: fields are
/// separated by commas, the record ends in a line feed, and with the default
/// quote style a field is quoted only when it holds a comma, a quote, a carriage
/// return or a line feed (or is the only field and empty).
#[verifier::external_body]
pub(crate) fn csv_record(fields: &Vec<Vec<u8>>) -> (r: Vec<u8>)
    ensures
        r@ == csv_record_of(fields_view(fields@)),
        fields.len() >= 2 && all_plain(fields_view(fields@)) ==> r@ == join_fields(
            fields_view(fields@),
        ) + seq![10u8],
{
    let mut w = csv::WriterBuilder::new().has_headers(false).from_writer(Vec::new());
    let _ = w.write_record(fields.iter());
    match w.into_inner() {
        Ok(v) => v,
        Err(_) => Vec::new(),
    }
}

proof fn lemma_first_comma(s: Seq<u8>, k: int)
    requires
        0 <= k <= s.len(),
        forall|j: int| 0 <= j < k ==> s[j] != 44u8,
    ensures
        k < s.len() && s[k] == 44u8 ==> first_comma(s) == k,
        k == s.len() ==> first_comma(s) == -1,
    decreases k,
{
    if k > 0 {
        lemma_first_comma(s.skip(1), k - 1);
    }
}

/// Splitting a record of plain fields at its commas gives the fields back.
pub proof fn lemma_split_join(fs: Seq<Seq<u8>>)
    requires
        fs.len() >= 1,
        all_plain(fs),
    ensures
        split_fields(join_fields(fs)) == fs,
    decreases fs.len(),
{
    let s = join_fields(fs);
    assert(plain_field(fs[0]));
    if fs.len() == 1 {
        assert(forall|j: int| 0 <= j < s.len() ==> !is_special(fs[0][j]));
        lemma_first_comma(s, s.len() as int);
        assert(split_fields(s) =~= fs);
    } else {
        let rest = fs.skip(1);
        assert forall|j: int| 0 <= j < rest.len() implies #[trigger] plain_field(rest[j]) by {
            assert(plain_field(fs[j + 1]));
        }
        lemma_split_join(rest);
        let k = fs[0].len() as int;
        assert(forall|j: int| 0 <= j < k ==> s[j] == fs[0][j] && !is_special(fs[0][j]));
        lemma_first_comma(s, k);
        assert(s.take(k) =~= fs[0]);
        assert(s.skip(k + 1) =~= join_fields(rest));
        assert(split_fields(s) =~= fs);
    }
}

pub open spec fn ranges_text(s: Seq<u8>, rs: Seq<(usize, usize)>) -> Seq<Seq<u8>> {
    rs.map_values(|r: (usize, usize)| s.subrange(r.0 as int, r.1 as int))
}

/// Bounds of the pieces of `s[lo..hi]` between commas.
pub fn split_ranges(s: &Vec<u8>, lo: usize, hi: usize) -> (r: Vec<(usize, usize)>)
    requires
        lo <= hi <= s@.len(),
    ensures
        ranges_text(s@, r@) == split_fields(s@.subrange(lo as int, hi as int)),
        forall|j: int| 0 <= j < r@.len() ==> lo <= (#[trigger] r@[j]).0 <= r@[j].1 <= hi,
{
    let mut out: Vec<(usize, usize)> = Vec::new();
    let mut start: usize = lo;
    let mut i: usize = lo;
    while i < hi
        invariant
            lo <= start <= i <= hi <= s@.len(),
            forall|j: int| start <= j < i ==> s@[j] != 44u8,
            forall|j: int| 0 <= j < out@.len() ==> lo <= (#[trigger] out@[j]).0 <= out@[j].1 <= hi,
            split_fields(s@.subrange(lo as int, hi as int)) == ranges_text(s@, out@)
                + split_fields(s@.subrange(start as int, hi as int)),
        decreases hi - i,
    {
        if s[i] == 44u8 {
            proof {
                let t = s@.subrange(start as int, hi as int);
                let k = (i - start) as int;
                lemma_first_comma(t, k);
                assert(t.take(k) =~= s@.subrange(start as int, i as int));
                assert(t.skip(k + 1) =~= s@.subrange(i + 1, hi as int));
                assert(ranges_text(s@, out@.push((start, i))) =~= ranges_text(s@, out@).push(
                    s@.subrange(start as int, i as int),
                ));
            }
            out.push((start, i));
            start = i + 1;
        }
        i = i + 1;
    }
    proof {
        let t = s@.subrange(start as int, hi as int);
        lemma_first_comma(t, t.len() as int);
        assert(ranges_text(s@, out@.push((start, hi))) =~= ranges_text(s@, out@).push(t));
    }
    out.push((start, hi));
    proof {
        assert(ranges_text(s@, out@) =~= split_fields(s@.subrange(lo as int, hi as int)));
    }
    out
}

} // verus!

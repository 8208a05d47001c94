use vstd::prelude::*;
use crate::config::{lookup, upsert_entry};
use crate::error::{IoError, IoErrorKind};
use crate::model::SourceRecord;
use crate::persistence::{
    decode_message, i64_to_bool, invalid_data, invalid_data_message, negative_error, read_flag,
    source_from_row, source_record_from_row, source_row_problem, SourceRow,
};
use crate::source_roots::SourceRootRulesPayload;
use crate::text::{append_str, chars_eq, chars_of, string_of};

verus! {

/// The records of one kind that belong to one library: ids in load order, records by id.
#[derive(Debug)]
pub struct LibraryRecords<T> {
    pub library_id: String,
    pub order: Vec<String>,
    pub records: Vec<(String, T)>,
}

/// A stored row, decoded: the library it belongs to, its id, and its record or the error
/// that decoding it gave.
#[derive(Debug)]
pub struct PlacedRow<T> {
    pub library_id: String,
    pub id: String,
    pub record: Result<T, IoError>,
}

/// The position of the first library with the id `id`.
pub open spec fn library_index<T>(libs: Seq<LibraryRecords<T>>, id: Seq<char>) -> Option<int>
    decreases libs.len(),
{
    if libs.len() == 0 {
        None
    } else {
        match library_index(libs.drop_last(), id) {
            Some(i) => Some(i),
            None => if libs.last().library_id@ == id { Some(libs.len() - 1) } else { None },
        }
    }
}

/// The message of a row whose library is not loaded.
pub open spec fn missing_library_message(kind: Seq<char>, id: Seq<char>, library_id: Seq<char>) -> Seq<char> {
    kind + " "@ + id + " references missing library "@ + library_id
}

/// The ids of the rows that go to the library at `j`, in row order.
pub open spec fn ids_for<T>(rows: Seq<PlacedRow<T>>, libs: Seq<LibraryRecords<T>>, j: int) -> Seq<String>
    decreases rows.len(),
{
    if rows.len() == 0 {
        seq![]
    } else if library_index(libs, rows.last().library_id@) == Some(j) {
        ids_for(rows.drop_last(), libs, j).push(rows.last().id)
    } else {
        ids_for(rows.drop_last(), libs, j)
    }
}

/// The last row with the id `k` that goes to the library at `j`.
pub open spec fn last_for<T>(rows: Seq<PlacedRow<T>>, libs: Seq<LibraryRecords<T>>, j: int, k: Seq<char>) -> Option<PlacedRow<T>>
    decreases rows.len(),
{
    if rows.len() == 0 {
        None
    } else if library_index(libs, rows.last().library_id@) == Some(j) && rows.last().id@ == k {
        Some(rows.last())
    } else {
        last_for(rows.drop_last(), libs, j, k)
    }
}

/// The record of a row that decoded.
pub open spec fn decoded<T>(row: PlacedRow<T>) -> T {
    row.record->Ok_0
}

/// The library at `j` of `new` is that of `old` with `rows` placed: their ids appended to its
/// order, and under each id the record of the last of them.
pub open spec fn library_placed<T>(old: Seq<LibraryRecords<T>>, new: Seq<LibraryRecords<T>>, rows: Seq<PlacedRow<T>>, j: int) -> bool {
    &&& new[j].library_id == old[j].library_id
    &&& new[j].order@ == old[j].order@ + ids_for(rows, old, j)
    &&& forall|k: Seq<char>| #[trigger] lookup(new[j].records@, k) == match last_for(rows, old, j, k) {
        Some(row) => Some(decoded(row)),
        None => lookup(old[j].records@, k),
    }
}

/// Every library of `new` is its counterpart in `old` with `rows` placed.
pub open spec fn rows_placed<T>(old: Seq<LibraryRecords<T>>, new: Seq<LibraryRecords<T>>, rows: Seq<PlacedRow<T>>) -> bool {
    &&& new.len() == old.len()
    &&& forall|j: int| 0 <= j < old.len() ==> #[trigger] library_placed(old, new, rows, j)
}

/// A row that decoded and whose library is loaded.
pub open spec fn row_fits<T>(libs: Seq<LibraryRecords<T>>, row: PlacedRow<T>) -> bool {
    row.record is Ok && library_index(libs, row.library_id@) is Some
}

/// `e` is the error of a row that does not fit: its decoding error, or the missing library.
pub open spec fn row_error<T>(path: Seq<char>, kind: Seq<char>, libs: Seq<LibraryRecords<T>>, row: PlacedRow<T>, e: IoError) -> bool {
    match row.record {
        Err(d) => e == d,
        Ok(_) => e.kind == IoErrorKind::InvalidData && e.message@ == invalid_data_message(
            path,
            missing_library_message(kind, row.id@, row.library_id@),
        ),
    }
}

/// What placing `rows` into `old` gives: every row fits and all are placed; or the first
/// row that does not fit gives the error, the rows before it placed.
pub open spec fn place_outcome<T>(
    path: Seq<char>,
    kind: Seq<char>,
    old: Seq<LibraryRecords<T>>,
    new: Seq<LibraryRecords<T>>,
    rows: Seq<PlacedRow<T>>,
    r: Result<(), IoError>,
) -> bool {
    match r {
        Ok(()) => rows_placed(old, new, rows) && forall|i: int| 0 <= i < rows.len() ==> row_fits(old, #[trigger] rows[i]),
        Err(e) => exists|i: int|
            #![trigger rows[i]]
            0 <= i < rows.len() && (forall|j: int| 0 <= j < i ==> row_fits(old, #[trigger] rows[j]))
                && !row_fits(old, rows[i]) && row_error(path, kind, old, rows[i], e)
                && rows_placed(old, new, rows.take(i)),
    }
}

proof fn lemma_library_index_first<T>(libs: Seq<LibraryRecords<T>>, id: Seq<char>, i: int)
    requires
        0 <= i <= libs.len(),
        forall|j: int| 0 <= j < i ==> libs[j].library_id@ != id,
    ensures
        i == libs.len() ==> library_index(libs, id) is None,
        i < libs.len() && libs[i].library_id@ == id ==> library_index(libs, id) == Some(i),
    decreases libs.len(),
{
    if libs.len() > 0 {
        let d = libs.drop_last();
        if i == libs.len() {
            lemma_library_index_first(d, id, i - 1);
            assert forall|j: int| 0 <= j < d.len() implies d[j].library_id@ != id by {
                assert(d[j] == libs[j]);
            }
            lemma_library_index_first(d, id, d.len() as int);
        } else if i < d.len() {
            assert forall|j: int| 0 <= j < i implies d[j].library_id@ != id by {
                assert(d[j] == libs[j]);
            }
            if libs[i].library_id@ == id {
                assert(d[i] == libs[i]);
                lemma_library_index_first(d, id, i);
            }
        } else {
            assert forall|j: int| 0 <= j < d.len() implies d[j].library_id@ != id by {
                assert(d[j] == libs[j]);
            }
            lemma_library_index_first(d, id, d.len() as int);
        }
    }
}

proof fn lemma_library_index_bounds<T>(libs: Seq<LibraryRecords<T>>, id: Seq<char>)
    ensures
        library_index(libs, id) matches Some(i) ==> 0 <= i < libs.len() && libs[i].library_id@ == id,
    decreases libs.len(),
{
    if libs.len() > 0 {
        lemma_library_index_bounds(libs.drop_last(), id);
        if let Some(i) = library_index(libs.drop_last(), id) {
            assert(libs.drop_last()[i] == libs[i]);
        }
    }
}

/// The position of the first library with the id `id`, if any.
pub fn find_library<T>(libs: &Vec<LibraryRecords<T>>, id: &str) -> (r: Option<usize>)
    ensures
        match library_index(libs@, id@) {
            Some(i) => r is Some && r->0 as int == i && 0 <= i < libs@.len(),
            None => r is None,
        },
{
    proof {
        lemma_library_index_bounds(libs@, id@);
    }
    let want = chars_of(id);
    let mut i: usize = 0;
    while i < libs.len()
        invariant
            i <= libs@.len(),
            want@ == id@,
            forall|j: int| 0 <= j < i ==> libs@[j].library_id@ != id@,
        decreases libs.len() - i,
    {
        let here = chars_of(libs[i].library_id.as_str());
        if chars_eq(&here, &want) {
            proof {
                lemma_library_index_first(libs@, id@, i as int);
            }
            return Some(i);
        }
        i += 1;
    }
    proof {
        lemma_library_index_first(libs@, id@, i as int);
    }
    None
}

pub(crate) fn missing_library(path: &str, kind: &str, id: &str, library_id: &str) -> (r: IoError)
    ensures
        r.kind == IoErrorKind::InvalidData,
        r.message@ == invalid_data_message(path@, missing_library_message(kind@, id@, library_id@)),
{
    let mut m = chars_of(kind);
    append_str(&mut m, " ");
    append_str(&mut m, id);
    append_str(&mut m, " references missing library ");
    append_str(&mut m, library_id);
    invalid_data(path, string_of(&m).as_str())
}

proof fn lemma_place_step<T>(
    old: Seq<LibraryRecords<T>>,
    mid: Seq<LibraryRecords<T>>,
    new: Seq<LibraryRecords<T>>,
    rows: Seq<PlacedRow<T>>,
    i: int,
    idx: int,
)
    requires
        0 <= i < rows.len(),
        rows_placed(old, mid, rows.take(i)),
        library_index(old, rows[i].library_id@) == Some(idx),
        0 <= idx < old.len(),
        rows[i].record is Ok,
        new.len() == mid.len(),
        forall|j: int| 0 <= j < mid.len() && j != idx ==> new[j] == mid[j],
        new[idx].library_id == mid[idx].library_id,
        new[idx].order@ == mid[idx].order@.push(rows[i].id),
        forall|k: Seq<char>| #[trigger] lookup(new[idx].records@, k) == if k == rows[i].id@ {
            Some(decoded(rows[i]))
        } else {
            lookup(mid[idx].records@, k)
        },
    ensures
        rows_placed(old, new, rows.take(i + 1)),
{
    let t = rows.take(i + 1);
    assert(t.drop_last() =~= rows.take(i));
    assert(t.last() == rows[i]);
    assert forall|j: int| 0 <= j < old.len() implies #[trigger] library_placed(old, new, t, j) by {
        assert(library_placed(old, mid, rows.take(i), j));
        if j == idx {
            assert(new[j].order@ =~= old[j].order@ + ids_for(t, old, j));
            assert forall|k: Seq<char>| #[trigger] lookup(new[j].records@, k) == match last_for(t, old, j, k) {
                Some(row) => Some(decoded(row)),
                None => lookup(old[j].records@, k),
            } by {
                if k != rows[i].id@ {
                    assert(last_for(t, old, j, k) == last_for(rows.take(i), old, j, k));
                }
            }
        } else {
            assert(ids_for(t, old, j) == ids_for(rows.take(i), old, j));
            assert forall|k: Seq<char>| #[trigger] lookup(new[j].records@, k) == match last_for(t, old, j, k) {
                Some(row) => Some(decoded(row)),
                None => lookup(old[j].records@, k),
            } by {
                assert(last_for(t, old, j, k) == last_for(rows.take(i), old, j, k));
            }
        }
    }
}

fn place_at<T>(libs: &mut Vec<LibraryRecords<T>>, idx: usize, id: String, record: T)
    requires
        idx < old(libs)@.len(),
    ensures
        final(libs)@.len() == old(libs)@.len(),
        forall|j: int| 0 <= j < old(libs)@.len() && j != idx ==> final(libs)@[j] == old(libs)@[j],
        final(libs)@[idx as int].library_id == old(libs)@[idx as int].library_id,
        final(libs)@[idx as int].order@ == old(libs)@[idx as int].order@.push(id),
        forall|k: Seq<char>| #[trigger] lookup(final(libs)@[idx as int].records@, k) == if k == id@ {
            Some(record)
        } else {
            lookup(old(libs)@[idx as int].records@, k)
        },
{
    let ghost before = libs@;
    let mut lib = libs.remove(idx);
    lib.order.push(id.clone());
    upsert_entry(&mut lib.records, id, record);
    libs.insert(idx, lib);
    proof {
        assert forall|j: int| 0 <= j < before.len() && j != idx implies libs@[j] == before[j] by {
            if j < idx {
                assert(libs@[j] == before.remove(idx as int)[j]);
            } else {
                assert(libs@[j] == before.remove(idx as int)[j - 1]);
            }
        }
    }
}

proof fn lemma_stop_at<T>(
    path: Seq<char>,
    kind: Seq<char>,
    start: Seq<LibraryRecords<T>>,
    now: Seq<LibraryRecords<T>>,
    rows: Seq<PlacedRow<T>>,
    i: int,
    e: IoError,
)
    requires
        0 <= i < rows.len(),
        forall|j: int| 0 <= j < i ==> row_fits(start, #[trigger] rows[j]),
        !row_fits(start, rows[i]),
        row_error(path, kind, start, rows[i], e),
        rows_placed(start, now, rows.take(i)),
    ensures
        exists|i: int|
            #![trigger rows[i]]
            0 <= i < rows.len() && (forall|j: int| 0 <= j < i ==> row_fits(start, #[trigger] rows[j]))
                && !row_fits(start, rows[i]) && row_error(path, kind, start, rows[i], e)
                && rows_placed(start, now, rows.take(i)),
{
    let stopped = rows[i];
    assert(!row_fits(start, stopped));
}

/// Places decoded rows into their libraries, in row order, stopping at the first row that
/// did not decode or whose library is not loaded (`kind` names the rows in that error). The
/// rows before it are placed either way; the libraries themselves are neither added nor
/// removed.
#[verifier::rlimit(40)]
pub fn place_rows<T>(path: &str, kind: &str, libs: &mut Vec<LibraryRecords<T>>, rows: Vec<PlacedRow<T>>) -> (r: Result<(), IoError>)
    ensures
        place_outcome(path@, kind@, old(libs)@, final(libs)@, rows@, r),
{
    let ghost start = libs@;
    let ghost all = rows@;
    assert(all.len() == rows.len());
    let mut rest = crate::json::reversed(rows);
    let mut i: usize = 0;
    proof {
        assert(all.take(0) =~= Seq::<PlacedRow<T>>::empty());
        assert forall|j: int| 0 <= j < start.len() implies #[trigger] library_placed(start, libs@, all.take(0), j) by {
            assert(libs@[j].order@ =~= start[j].order@ + ids_for(all.take(0), start, j));
        }
    }
    while rest.len() > 0
        invariant
            i + rest@.len() == all.len(),
            all.len() <= usize::MAX,
            all == rows@,
            start == old(libs)@,
            rest@ == all.skip(i as int).reverse(),
            rows_placed(start, libs@, all.take(i as int)),
            forall|j: int| 0 <= j < i ==> row_fits(start, #[trigger] all[j]),
            forall|j: int| 0 <= j < libs@.len() ==> #[trigger] libs@[j].library_id == start[j].library_id,
            libs@.len() == start.len(),
        decreases rest.len(),
    {
        let row = rest.pop().unwrap();
        assert(row == all[i as int]) by {
            assert(all.skip(i as int).reverse().last() == all.skip(i as int)[0]);
        }
        assert(rest@ =~= all.skip(i + 1).reverse());
        proof {
            lemma_library_index_bounds(start, row.library_id@);
        }
        let PlacedRow { library_id, id, record } = row;
        let record = match record {
            Ok(rec) => rec,
            Err(e) => {
                proof {
                    assert(!row_fits(start, all[i as int]));
                    assert(row_error(path@, kind@, start, all[i as int], e));
                    lemma_stop_at(path@, kind@, start, libs@, all, i as int, e);
                }
                return Err(e);
            },
        };
        let ghost same = libs@;
        assert forall|j: int| 0 <= j < libs@.len() implies libs@[j].library_id@ == start[j].library_id@ by {
            assert(libs@[j].library_id == start[j].library_id);
        }
        let found = find_library(libs, library_id.as_str());
        proof {
            // the libraries' ids are those of `start`, so the search agrees with it
            lemma_same_ids_same_index(libs@, start, library_id@);
            assert(library_id == all[i as int].library_id);
        }
        let idx = match found {
            Some(idx) => {
                proof {
                    let li = library_index(libs@, library_id@);
                    assert(li == Some(idx as int));
                    assert(library_index(start, all[i as int].library_id@) == Some(idx as int));
                }
                idx
            },
            None => {
                let e = missing_library(path, kind, id.as_str(), library_id.as_str());
                proof {
                    assert(!row_fits(start, all[i as int]));
                    assert(row_error(path@, kind@, start, all[i as int], e));
                    lemma_stop_at(path@, kind@, start, libs@, all, i as int, e);
                }
                return Err(e);
            },
        };
        let ghost mid = libs@;
        let ghost placed_id = id;
        place_at(libs, idx, id, record);
        proof {
            lemma_place_step(start, mid, libs@, all, i as int, idx as int);
            assert forall|j: int| 0 <= j < libs@.len() implies #[trigger] libs@[j].library_id == start[j].library_id by {
                if j != idx {
                    assert(libs@[j] == mid[j]);
                }
            }
        }
        i += 1;
    }
    assert(all.take(all.len() as int) =~= all);
    Ok(())
}

proof fn lemma_same_ids_same_index<T>(a: Seq<LibraryRecords<T>>, b: Seq<LibraryRecords<T>>, id: Seq<char>)
    requires
        a.len() == b.len(),
        forall|j: int| 0 <= j < a.len() ==> a[j].library_id@ == b[j].library_id@,
    ensures
        library_index(a, id) == library_index(b, id),
    decreases a.len(),
{
    if a.len() > 0 {
        lemma_same_ids_same_index(a.drop_last(), b.drop_last(), id);
        assert(a.last() == a[a.len() - 1]);
    }
}

/// `placed` is the source row `row` decoded: its library and id, and its record or the
/// error of its first column out of range.
pub open spec fn source_row_decoded(path: Seq<char>, row: SourceRow, placed: PlacedRow<SourceRecord>) -> bool {
    &&& placed.library_id == row.library_id
    &&& placed.id == row.source_id
    &&& match source_row_problem(row) {
        Some(field) => placed.record matches Err(e) && negative_error(e, path, field),
        None => placed.record matches Ok(s) && source_from_row(row, s),
    }
}

/// Loads the rows of the `sources` table into their libraries, in row order: each row is
/// decoded, and placed under its library (see `place_outcome`; the rows are called
/// `source`).
pub fn load_sources(path: &str, libs: &mut Vec<LibraryRecords<SourceRecord>>, rows: Vec<SourceRow>) -> (r: Result<(), IoError>)
    ensures
        exists|placed: Seq<PlacedRow<SourceRecord>>|
            {
                &&& placed.len() == rows@.len()
                &&& forall|i: int| 0 <= i < rows@.len() ==> source_row_decoded(path@, #[trigger] rows@[i], placed[i])
                &&& place_outcome(path@, "source"@, old(libs)@, final(libs)@, placed, r)
            },
{
    let ghost all = rows@;
    let mut rest = crate::json::reversed(rows);
    let mut placed: Vec<PlacedRow<SourceRecord>> = Vec::new();
    while rest.len() > 0
        invariant
            placed@.len() + rest@.len() == all.len(),
            rest@ == all.skip(placed@.len() as int).reverse(),
            forall|i: int| 0 <= i < placed@.len() ==> source_row_decoded(path@, #[trigger] all[i], placed@[i]),
        decreases rest.len(),
    {
        let ghost i = placed@.len() as int;
        let row = rest.pop().unwrap();
        assert(row == all[i]) by {
            assert(all.skip(i).reverse().last() == all.skip(i)[0]);
        }
        assert(rest@ =~= all.skip(i + 1).reverse());
        let library_id = row.library_id.clone();
        let id = row.source_id.clone();
        let record = match source_record_from_row(path, row) {
            Ok((_, s)) => Ok(s),
            Err(e) => Err(e),
        };
        placed.push(PlacedRow { library_id, id, record });
    }
    let ghost decoded_rows = placed@;
    let r = place_rows(path, "source", libs, placed);
    assert(decoded_rows.len() == all.len());
    r
}

/// A source root as kept in the durable state.
#[derive(Debug)]
pub struct DurableSourceRootRecord {
    pub id: String,
    pub root_path: String,
    pub enabled: bool,
    pub rules: SourceRootRulesPayload,
}

/// A row of the `source_roots` table as read, its rules column already parsed (or the
/// parser's error text).
#[derive(Debug)]
pub struct SourceRootRow {
    pub library_id: String,
    pub source_root_id: String,
    pub root_path: String,
    pub enabled: i64,
    pub rules: Result<SourceRootRulesPayload, String>,
}

/// The first problem of a source root row: a flag other than 0 or 1, then rules that did
/// not parse.
pub open spec fn source_root_problem(row: SourceRootRow) -> Option<Seq<char>> {
    if read_flag(row.enabled) is None {
        Some("source_roots.enabled"@ + " must be 0 or 1"@)
    } else {
        match row.rules {
            Err(m) => Some(decode_message("source_roots.rules_json"@, m@)),
            Ok(_) => None,
        }
    }
}

/// `placed` is the source root row `row` decoded.
pub open spec fn source_root_row_decoded(path: Seq<char>, row: SourceRootRow, placed: PlacedRow<DurableSourceRootRecord>) -> bool {
    &&& placed.library_id == row.library_id
    &&& placed.id == row.source_root_id
    &&& match source_root_problem(row) {
        Some(m) => placed.record matches Err(e) && e.kind == IoErrorKind::InvalidData && e.message@
            == invalid_data_message(path, m),
        None => placed.record matches Ok(rec) && rec.id == row.source_root_id && rec.root_path
            == row.root_path && read_flag(row.enabled) == Some(rec.enabled) && row.rules == Ok::<
            SourceRootRulesPayload,
            String,
        >(rec.rules),
    }
}

fn decode_source_root_row(path: &str, row: SourceRootRow) -> (r: PlacedRow<DurableSourceRootRecord>)
    ensures
        source_root_row_decoded(path@, row, r),
{
    let ghost original = row;
    let SourceRootRow { library_id, source_root_id, root_path, enabled, rules } = row;
    let id = source_root_id.clone();
    let flag = match i64_to_bool(path, enabled, "source_roots.enabled") {
        Ok(b) => b,
        Err(e) => {
            return PlacedRow { library_id, id, record: Err(e) };
        },
    };
    let record = match rules {
        Ok(rules) => Ok(DurableSourceRootRecord { id: source_root_id, root_path, enabled: flag, rules }),
        Err(m) => {
            let mut t = chars_of("failed to decode ");
            append_str(&mut t, "source_roots.rules_json");
            append_str(&mut t, " JSON payload: ");
            append_str(&mut t, m.as_str());
            Err(invalid_data(path, string_of(&t).as_str()))
        },
    };
    PlacedRow { library_id, id, record }
}

/// Loads the rows of the `source_roots` table into their libraries, in row order (see
/// `place_outcome`; the rows are called `source_root`).
pub fn load_source_roots(
    path: &str,
    libs: &mut Vec<LibraryRecords<DurableSourceRootRecord>>,
    rows: Vec<SourceRootRow>,
) -> (r: Result<(), IoError>)
    ensures
        exists|placed: Seq<PlacedRow<DurableSourceRootRecord>>|
            {
                &&& placed.len() == rows@.len()
                &&& forall|i: int| 0 <= i < rows@.len() ==> source_root_row_decoded(path@, #[trigger] rows@[i], placed[i])
                &&& place_outcome(path@, "source_root"@, old(libs)@, final(libs)@, placed, r)
            },
{
    let ghost all = rows@;
    let mut rest = crate::json::reversed(rows);
    let mut placed: Vec<PlacedRow<DurableSourceRootRecord>> = Vec::new();
    while rest.len() > 0
        invariant
            placed@.len() + rest@.len() == all.len(),
            rest@ == all.skip(placed@.len() as int).reverse(),
            forall|i: int| 0 <= i < placed@.len() ==> source_root_row_decoded(path@, #[trigger] all[i], placed@[i]),
        decreases rest.len(),
    {
        let ghost i = placed@.len() as int;
        let row = rest.pop().unwrap();
        assert(row == all[i]) by {
            assert(all.skip(i).reverse().last() == all.skip(i)[0]);
        }
        assert(rest@ =~= all.skip(i + 1).reverse());
        placed.push(decode_source_root_row(path, row));
    }
    let ghost decoded_rows = placed@;
    let r = place_rows(path, "source_root", libs, placed);
    assert(decoded_rows.len() == all.len());
    r
}

/// A row of the `libraries` table as read.
#[derive(Debug)]
pub struct LibraryRow {
    pub library_id: String,
    pub display_name: String,
    pub lifecycle_state: String,
    pub archived_at_ms: Option<i64>,
}

/// A library as kept in the durable state, without its records.
#[derive(Debug)]
pub struct DurableLibraryHeader {
    pub id: String,
    pub display_name: String,
    pub lifecycle_state: String,
    pub archived_at_ms: Option<u128>,
}

/// A library row whose archive time is not negative.
pub open spec fn library_row_fits(row: LibraryRow) -> bool {
    row.archived_at_ms matches Some(x) ==> x >= 0
}

/// The last of the library rows with the id `k`.
pub open spec fn last_library_row(rows: Seq<LibraryRow>, k: Seq<char>) -> Option<LibraryRow>
    decreases rows.len(),
{
    if rows.len() == 0 {
        None
    } else if rows.last().library_id@ == k {
        Some(rows.last())
    } else {
        last_library_row(rows.drop_last(), k)
    }
}

/// The loaded libraries: ids in row order, and each library by id.
#[derive(Debug)]
pub struct LoadedLibraries {
    pub order: Vec<String>,
    pub libraries: Vec<(String, DurableLibraryHeader)>,
}

/// `l` holds the library rows: their ids in order, and under each id the last row with it.
pub open spec fn libraries_loaded(rows: Seq<LibraryRow>, l: LoadedLibraries) -> bool {
    &&& l.order@.len() == rows.len()
    &&& forall|i: int| 0 <= i < rows.len() ==> #[trigger] l.order@[i] == rows[i].library_id
    &&& forall|k: Seq<char>| #[trigger] lookup(l.libraries@, k) == match last_library_row(rows, k) {
        Some(row) => Some(header_of(row)),
        None => None,
    }
}

/// The header a fitting row describes.
pub open spec fn header_of(row: LibraryRow) -> DurableLibraryHeader {
    DurableLibraryHeader {
        id: row.library_id,
        display_name: row.display_name,
        lifecycle_state: row.lifecycle_state,
        archived_at_ms: match row.archived_at_ms {
            Some(x) => Some(x as u128),
            None => None,
        },
    }
}

fn library_header(path: &str, row: LibraryRow) -> (r: Result<DurableLibraryHeader, IoError>)
    ensures
        library_row_fits(row) ==> r == Ok::<DurableLibraryHeader, IoError>(header_of(row)),
        !library_row_fits(row) ==> (r matches Err(e) && negative_error(e, path@, "libraries.archived_at_ms"@)),
{
    let LibraryRow { library_id, display_name, lifecycle_state, archived_at_ms } = row;
    let archived_at_ms = crate::persistence::optional_i64_to_u128(path, archived_at_ms, "libraries.archived_at_ms")?;
    Ok(DurableLibraryHeader { id: library_id, display_name, lifecycle_state, archived_at_ms })
}

/// Loads the rows of the `libraries` table in order, stopping at the first whose archive
/// time is negative; each id is appended to the order and its library stored under it, a
/// later row replacing an earlier one with the same id.
pub fn load_libraries(path: &str, rows: Vec<LibraryRow>) -> (r: Result<LoadedLibraries, IoError>)
    ensures
        match r {
            Ok(l) => libraries_loaded(rows@, l) && forall|i: int| 0 <= i < rows@.len() ==> library_row_fits(
                #[trigger] rows@[i],
            ),
            Err(e) => exists|i: int|
                #![trigger rows@[i]]
                0 <= i < rows@.len() && (forall|j: int| 0 <= j < i ==> library_row_fits(#[trigger] rows@[j]))
                    && !library_row_fits(rows@[i]) && negative_error(e, path@, "libraries.archived_at_ms"@),
        },
{
    let ghost all = rows@;
    assert(all.len() == rows.len());
    let mut order: Vec<String> = Vec::new();
    let mut libraries: Vec<(String, DurableLibraryHeader)> = Vec::new();
    let mut rest = crate::json::reversed(rows);
    let mut i: usize = 0;
    assert(all.take(0) =~= Seq::<LibraryRow>::empty());
    while rest.len() > 0
        invariant
            i + rest@.len() == all.len(),
            all.len() <= usize::MAX,
            all == rows@,
            rest@ == all.skip(i as int).reverse(),
            order@.len() == i,
            forall|j: int| 0 <= j < i ==> #[trigger] order@[j] == all[j].library_id,
            forall|k: Seq<char>| #[trigger] lookup(libraries@, k) == match last_library_row(all.take(i as int), k) {
                Some(row) => Some(header_of(row)),
                None => None,
            },
            forall|j: int| 0 <= j < i ==> library_row_fits(#[trigger] all[j]),
        decreases rest.len(),
    {
        let row = rest.pop().unwrap();
        assert(row == all[i as int]) by {
            assert(all.skip(i as int).reverse().last() == all.skip(i as int)[0]);
        }
        assert(rest@ =~= all.skip(i + 1).reverse());
        let id = row.library_id.clone();
        let header = match library_header(path, row) {
            Ok(h) => h,
            Err(e) => {
                assert(!library_row_fits(all[i as int]));
                return Err(e);
            },
        };
        let ghost before = libraries@;
        let ghost before_order = order@;
        order.push(id.clone());
        upsert_entry(&mut libraries, id, header);
        proof {
            let t = all.take(i + 1);
            assert(t.drop_last() =~= all.take(i as int));
            assert(t.last() == all[i as int]);
            assert forall|j: int| 0 <= j < i + 1 implies #[trigger] order@[j] == all[j].library_id by {
                if j < i {
                    assert(order@[j] == before_order[j]);
                }
            }
            assert forall|k: Seq<char>| #[trigger] lookup(libraries@, k) == match last_library_row(t, k) {
                Some(row) => Some(header_of(row)),
                None => None,
            } by {
                if k != all[i as int].library_id@ {
                    assert(last_library_row(t, k) == last_library_row(all.take(i as int), k));
                }
            }
        }
        i += 1;
    }
    assert(all.take(all.len() as int) =~= all);
    Ok(LoadedLibraries { order, libraries })
}

/// An empty set of records for each loaded library, in the order they are stored.
pub fn library_buckets<T>(libraries: &Vec<(String, DurableLibraryHeader)>) -> (r: Vec<LibraryRecords<T>>)
    ensures
        r@.len() == libraries@.len(),
        forall|j: int| 0 <= j < r@.len() ==> {
            &&& #[trigger] r@[j].library_id == libraries@[j].0
            &&& r@[j].order@.len() == 0
            &&& r@[j].records@.len() == 0
        },
{
    let mut r: Vec<LibraryRecords<T>> = Vec::new();
    let mut i: usize = 0;
    while i < libraries.len()
        invariant
            i <= libraries@.len(),
            r@.len() == i,
            forall|j: int| 0 <= j < i ==> {
                &&& #[trigger] r@[j].library_id == libraries@[j].0
                &&& r@[j].order@.len() == 0
                &&& r@[j].records@.len() == 0
            },
        decreases libraries.len() - i,
    {
        r.push(LibraryRecords { library_id: libraries[i].0.clone(), order: Vec::new(), records: Vec::new() });
        i += 1;
    }
    r
}

} // verus!

//! The record store: one row per resolved file, written in batches that
//! tolerate failing rows, and read back in pages.
use vstd::prelude::*;
use crate::conf::GlobalConfig;
use crate::datetime::{
    format_time, from_utc_timestamp, in_calendar_range, lemma_epoch_seconds_injective, time_text, utc_timestamp,
    LocalDateTime, TIME_TEXT_FORMAT,
};

verus! {

/// rusqlite's `Connection`, an open database, carried through unopened.
#[verifier::external_type_specification]
#[verifier::external_body]
pub struct ExConnection(rusqlite::Connection);

/// rusqlite's `Error`, carried through unopened.
#[verifier::external_type_specification]
#[verifier::external_body]
pub struct ExSqlError(rusqlite::Error);

/// Creates the table of records.
pub const CREATE_TABLE_SQL: &'static str = "CREATE TABLE img_meta (id primary key, time, timestamp, sign)";

/// Inserts one record.
pub const INSERT_SQL: &'static str = "INSERT INTO img_meta(id, time, timestamp, sign) values (?1, ?2, ?3, ?4)";

/// Reads a page of records: offset first, then the page size.
pub const QUERY_PAGE_SQL: &'static str = "select id, timestamp, sign from img_meta limit ?, ?";

/// A value bound to a statement parameter.
pub enum SqlValue {
    Text(String),
    Integer(i64),
}

/// Why the store could not do what was asked.
#[derive(Debug)]
pub enum StorageError {
    /// The database refused the operation.
    Database(rusqlite::Error),
    /// A stored epoch time lies outside the calendar's range.
    BadTimestamp(i64),
}

/// One persisted record.
pub struct ImgMetaDO {
    /// Unique key; the store assigns one where it is missing.
    pub id: Option<String>,
    pub time: LocalDateTime,
    /// Content fingerprint.
    pub sign: String,
}

impl ImgMetaDO {
    /// A record without a key.
    pub fn new(time: LocalDateTime, sign: String) -> (r: ImgMetaDO)
        ensures
            r == (ImgMetaDO { id: None, time, sign }),
    {
        ImgMetaDO { id: None, time, sign }
    }

    /// A record with the given key.
    pub fn with_id(id: String, time: LocalDateTime, sign: String) -> (r: ImgMetaDO)
        ensures
            r == (ImgMetaDO { id: Some(id), time, sign }),
    {
        let mut img = Self::new(time, sign);
        img.id = Some(id);
        img
    }
}

/// Relies on rusqlite's `Connection::open`: opens the database file at
/// `path`, creating it if missing; whether it succeeds depends on the disk.
#[verifier::external_body]
fn open_connection(path: &str) -> (r: Result<rusqlite::Connection, rusqlite::Error>) {
    rusqlite::Connection::open(path)
}

/// Relies on rusqlite's `Connection::execute`: runs one statement with
/// `params` bound in order; the outcome depends on the database.
#[verifier::external_body]
fn execute(conn: &rusqlite::Connection, sql: &str, params: &Vec<SqlValue>) -> (r: Result<usize, rusqlite::Error>) {
    let values = params.iter().map(|p| match p {
        SqlValue::Text(s) => rusqlite::types::Value::Text(s.clone()),
        SqlValue::Integer(i) => rusqlite::types::Value::Integer(*i),
    });
    conn.execute(sql, rusqlite::params_from_iter(values))
}

/// Relies on rusqlite's `Statement::query_map`: the rows that the query
/// yields with `offset` and `limit` bound, each as its first column (text),
/// its second (integer) and its third (text, `None` where it is not).
#[verifier::external_body]
fn query_rows(conn: &rusqlite::Connection, sql: &str, offset: i64, limit: i64) -> (r: Result<Vec<(String, i64, Option<String>)>, rusqlite::Error>) {
    let mut stmt = conn.prepare(sql)?;
    let rows = stmt.query_map([offset, limit], |row| Ok((row.get(0)?, row.get(1)?, row.get(2).ok())))?;
    rows.collect()
}

/// Relies on uuid's `Uuid::new_v4`, written by `to_string` in hyphenated
/// form: a random identifier of 36 characters.
#[verifier::external_body]
pub(crate) fn gen_uuid() -> (r: String)
    ensures
        r@.len() == 36,
{
    uuid::Uuid::new_v4().to_string()
}

/// The records of `records` whose write failed (`ok` false), in order.
pub open spec fn failures(records: Seq<ImgMetaDO>, ok: Seq<bool>) -> Seq<ImgMetaDO>
    decreases records.len(),
{
    if records.len() == 0 {
        Seq::empty()
    } else {
        let rest = failures(records.drop_last(), ok.drop_last());
        if ok.last() {
            rest
        } else {
            rest.push(records.last())
        }
    }
}

/// `r` reports the write outcomes `ok` of `records`: success when none
/// failed, else the failed records in order.
pub open spec fn reports(r: Result<(), Vec<ImgMetaDO>>, records: Seq<ImgMetaDO>, ok: Seq<bool>) -> bool {
    match r {
        Ok(()) => failures(records, ok).len() == 0,
        Err(f) => f@ == failures(records, ok) && f@.len() > 0,
    }
}

/// `key` is what `d` is stored under: its own key, or a fresh one of 36
/// characters where it has none.
pub open spec fn is_key_for(key: String, d: ImgMetaDO) -> bool {
    match d.id {
        Some(k) => key == k,
        None => key@.len() == 36,
    }
}

/// `p` binds the row that stores `d` under `key`: the key, the time as text,
/// the time in epoch seconds, and the fingerprint.
pub open spec fn is_insert_params(p: Seq<SqlValue>, d: ImgMetaDO, key: String) -> bool {
    &&& p.len() == 4
    &&& p[0] == SqlValue::Text(key)
    &&& p[1] matches SqlValue::Text(text) && (0 <= d.time.year <= 9999 ==> text@ == time_text(d.time))
    &&& p[2] matches SqlValue::Integer(x) && x == d.time.epoch_seconds()
    &&& p[3] == SqlValue::Text(d.sign)
}

/// `plan[i]` is the row inserted for `records[i]`, for each record with a
/// valid time; a record without one gets no row.
pub open spec fn planned(plan: Seq<Option<Vec<SqlValue>>>, records: Seq<ImgMetaDO>) -> bool {
    &&& plan.len() == records.len()
    &&& forall|i: int|
        0 <= i < plan.len() ==> {
            &&& ((#[trigger] plan[i]) is Some <==> records[i].time.wf())
            &&& (plan[i] matches Some(p) ==> (p@[0] matches SqlValue::Text(key) && is_key_for(key, records[i])
                && is_insert_params(p@, records[i], key)))
        }
}

/// The outcomes `ok` belong to `plan`: one each, and a record that got no
/// row counts as failed.
pub open spec fn consistent(plan: Seq<Option<Vec<SqlValue>>>, ok: Seq<bool>) -> bool {
    &&& ok.len() == plan.len()
    &&& forall|i: int| 0 <= i < plan.len() && (#[trigger] plan[i]) is None ==> !ok[i]
}

/// The positions of the rows that `plan` holds, in order.
pub open spec fn planned_positions(plan: Seq<Option<Vec<SqlValue>>>) -> Seq<int>
    decreases plan.len(),
{
    if plan.len() == 0 {
        Seq::empty()
    } else {
        let rest = planned_positions(plan.drop_last());
        if plan.last() is Some {
            rest.push(plan.len() - 1)
        } else {
            rest
        }
    }
}

/// `r` is what writing `records` reports when the rows `plan` were handed to
/// the database at the positions `sent` (every planned row, in order, whatever
/// the rows before it gave) with the outcomes `ok`.
pub open spec fn store_outcome(
    r: Result<(), Vec<ImgMetaDO>>,
    records: Seq<ImgMetaDO>,
    plan: Seq<Option<Vec<SqlValue>>>,
    sent: Seq<int>,
    ok: Seq<bool>,
) -> bool {
    &&& planned(plan, records)
    &&& sent == planned_positions(plan)
    &&& consistent(plan, ok)
    &&& reports(r, records, ok)
}

/// `m` is what a stored row reads back as: its key, the UTC time of its
/// epoch seconds, and its fingerprint (empty where none is stored).
pub open spec fn is_row_record(m: ImgMetaDO, id: String, stamp: i64, sign: Option<String>) -> bool {
    &&& m.id == Some(id)
    &&& m.time.wf()
    &&& m.time.epoch_seconds() == stamp
    &&& match sign {
        Some(s) => m.sign == s,
        None => m.sign@ == Seq::<char>::empty(),
    }
}

/// A record written with the row parameters `p` reads back, from a row
/// holding the key, epoch seconds and fingerprint that `p` binds, as the same
/// key, the same time and the same fingerprint.
pub proof fn lemma_read_back(d: ImgMetaDO, key: String, p: Seq<SqlValue>, stamp: i64, m: ImgMetaDO)
    requires
        d.time.wf(),
        is_insert_params(p, d, key),
        p[2] == SqlValue::Integer(stamp),
        is_row_record(m, key, stamp, Some(d.sign)),
    ensures
        m.id == Some(key),
        m.time == d.time,
        m.sign == d.sign,
{
    lemma_epoch_seconds_injective(m.time, d.time);
}

/// Access to the record store at the configured place.
pub struct ImgMetaDao {
    pub conf: GlobalConfig,
}

impl ImgMetaDao {
    /// A store kept under `conf`'s metadata path.
    pub fn new(conf: GlobalConfig) -> (r: ImgMetaDao)
        ensures
            r.conf == conf,
    {
        ImgMetaDao { conf }
    }

    /// Opens a fresh connection to the store's file.
    pub fn get_conn(&self) -> (r: Result<rusqlite::Connection, StorageError>) {
        let path = self.conf.db_path();
        match open_connection(path.as_str()) {
            Ok(c) => Ok(c),
            Err(e) => Err(StorageError::Database(e)),
        }
    }

    /// Creates the table of records.
    pub fn create_table(conn: &rusqlite::Connection) -> (r: Result<usize, StorageError>) {
        let params: Vec<SqlValue> = Vec::new();
        match execute(conn, CREATE_TABLE_SQL, &params) {
            Ok(n) => Ok(n),
            Err(e) => Err(StorageError::Database(e)),
        }
    }

    /// A time as stored: its text `YYYY-MM-DD HH:MM:SS` and its epoch seconds.
    pub fn gen_time(time: &LocalDateTime) -> (r: (String, i64))
        requires
            time.wf(),
        ensures
            r.1 == time.epoch_seconds(),
            0 <= time.year <= 9999 ==> r.0@ == time_text(*time),
    {
        (format_time(time, TIME_TEXT_FORMAT), utc_timestamp(time))
    }

    /// The key that `d` is stored under: its own, or a fresh one.
    fn key_for(d: &ImgMetaDO) -> (r: String)
        ensures
            is_key_for(r, *d),
    {
        match &d.id {
            Some(id) => id.clone(),
            None => gen_uuid(),
        }
    }

    /// The parameters of the row that stores `d` under `key`.
    pub fn insert_params(d: &ImgMetaDO, key: String) -> (r: Vec<SqlValue>)
        requires
            d.time.wf(),
        ensures
            is_insert_params(r@, *d, key),
    {
        let (text, stamp) = Self::gen_time(&d.time);
        vec![SqlValue::Text(key), SqlValue::Text(text), SqlValue::Integer(stamp), SqlValue::Text(d.sign.clone())]
    }

    /// The row to insert for each record, keyed; none for a record whose
    /// time is not a valid date.
    pub fn plan_rows(domains: &Vec<ImgMetaDO>) -> (r: Vec<Option<Vec<SqlValue>>>)
        ensures
            planned(r@, domains@),
    {
        let mut plan: Vec<Option<Vec<SqlValue>>> = Vec::new();
        let mut i: usize = 0;
        while i < domains.len()
            invariant
                i <= domains@.len(),
                planned(plan@, domains@.subrange(0, i as int)),
            decreases domains@.len() - i,
        {
            let d = &domains[i];
            let row = if d.time.is_valid() {
                let key = Self::key_for(d);
                Some(Self::insert_params(d, key))
            } else {
                None
            };
            plan.push(row);
            i = i + 1;
            assert forall|j: int| 0 <= j < plan@.len() implies domains@.subrange(0, i as int)[j] == domains@[j] by {}
        }
        assert(domains@.subrange(0, domains@.len() as int) =~= domains@);
        plan
    }

    /// Inserts every planned row in order, going on after a failing one: the
    /// outcome of each (false where nothing was planned), and the positions
    /// of the rows handed to the database, one per call.
    fn run_inserts(conn: &rusqlite::Connection, plan: &Vec<Option<Vec<SqlValue>>>) -> (r: (Vec<bool>, Ghost<Seq<int>>))
        ensures
            consistent(plan@, r.0@),
            r.1@ == planned_positions(plan@),
    {
        let mut ok: Vec<bool> = Vec::new();
        let ghost mut sent: Seq<int> = Seq::empty();
        let mut i: usize = 0;
        while i < plan.len()
            invariant
                i <= plan@.len(),
                ok@.len() == i,
                forall|j: int| 0 <= j < i && (#[trigger] plan@[j]) is None ==> !ok@[j],
                sent == planned_positions(plan@.subrange(0, i as int)),
            decreases plan@.len() - i,
        {
            proof {
                assert(plan@.subrange(0, i + 1).drop_last() =~= plan@.subrange(0, i as int));
            }
            let written = match &plan[i] {
                Some(params) => {
                    let w = execute(conn, INSERT_SQL, params).is_ok();
                    proof {
                        sent = sent.push(i as int);
                    }
                    w
                },
                None => false,
            };
            ok.push(written);
            i = i + 1;
        }
        assert(plan@.subrange(0, i as int) =~= plan@);
        (ok, Ghost(sent))
    }

    /// What a batch write reports, given the outcome of each record's row:
    /// `Ok` when all were written, else the records that were not, in order.
    pub fn collect_failures(domains: Vec<ImgMetaDO>, ok: &Vec<bool>) -> (r: Result<(), Vec<ImgMetaDO>>)
        requires
            ok@.len() == domains@.len(),
        ensures
            reports(r, domains@, ok@),
    {
        let ghost all = domains@;
        let mut rest = domains;
        let mut failed: Vec<ImgMetaDO> = Vec::new();
        let ghost mut done: Seq<ImgMetaDO> = Seq::empty();
        let mut i: usize = 0;
        while rest.len() > 0
            invariant
                all == done + rest@,
                i == done.len(),
                i <= all.len(),
                ok.len() == all.len(),
                failed@ == failures(done, ok@.subrange(0, i as int)),
            decreases rest@.len(),
        {
            let d = rest.remove(0);
            let written = ok[i];
            proof {
                let done2 = done.push(d);
                assert(done2.drop_last() =~= done);
                assert(ok@.subrange(0, i + 1).drop_last() =~= ok@.subrange(0, i as int));
                assert(all =~= done2 + rest@);
                done = done2;
            }
            if !written {
                failed.push(d);
            }
            i = i + 1;
        }
        assert(done =~= all);
        assert(ok@.subrange(0, i as int) =~= ok@);
        if failed.len() == 0 {
            Ok(())
        } else {
            Err(failed)
        }
    }

    /// Writes each record as one row, in order: the key is the record's own
    /// or a fresh one, and the row holds the time as text and in epoch
    /// seconds, and the fingerprint. A failing row does not stop the rest;
    /// a record whose time is not a valid date gets no row and fails. The
    /// result lists the records that were not written, or is `Ok` when all
    /// were.
    pub fn batch_write(domains: Vec<ImgMetaDO>, conn: &rusqlite::Connection) -> (r: Result<(), Vec<ImgMetaDO>>)
        ensures
            exists|plan: Seq<Option<Vec<SqlValue>>>, sent: Seq<int>, ok: Seq<bool>|
                #[trigger] store_outcome(r, domains@, plan, sent, ok),
    {
        let plan = Self::plan_rows(&domains);
        let (ok, sent) = Self::run_inserts(conn, &plan);
        let ghost all = domains@;
        let r = Self::collect_failures(domains, &ok);
        assert(store_outcome(r, all, plan@, sent@, ok@));
        r
    }

    /// The record that a stored row reads back as, or `BadTimestamp` when
    /// its epoch seconds lie outside the calendar's range.
    pub fn convert_to_img_meta_do(id: String, stamp: i64, sign: Option<String>) -> (r: Result<ImgMetaDO, StorageError>)
        ensures
            match r {
                Ok(m) => is_row_record(m, id, stamp, sign),
                Err(e) => e == StorageError::BadTimestamp(stamp) && !in_calendar_range(stamp as int),
            },
    {
        match from_utc_timestamp(stamp) {
            Some(t) => {
                let s = match sign {
                    Some(s) => s,
                    None => String::new(),
                };
                Ok(ImgMetaDO::with_id(id, t, s))
            },
            None => Err(StorageError::BadTimestamp(stamp)),
        }
    }

    /// The records that stored rows read back as, in the same order; fails
    /// on the first row whose epoch seconds lie outside the calendar's range.
    pub fn rows_to_records(rows: Vec<(String, i64, Option<String>)>) -> (r: Result<Vec<ImgMetaDO>, StorageError>)
        ensures
            match r {
                Ok(v) => v@.len() == rows@.len() && forall|i: int|
                    0 <= i < v@.len() ==> is_row_record(#[trigger] v@[i], rows@[i].0, rows@[i].1, rows@[i].2),
                Err(e) => exists|j: int|
                    0 <= j < rows@.len() && !in_calendar_range(#[trigger] rows@[j].1 as int)
                        && e == StorageError::BadTimestamp(rows@[j].1),
            },
            (forall|j: int| 0 <= j < rows@.len() ==> in_calendar_range(#[trigger] rows@[j].1 as int)) ==> r is Ok,
    {
        let ghost all = rows@;
        let mut rest = rows;
        let mut out: Vec<ImgMetaDO> = Vec::new();
        while rest.len() > 0
            invariant
                all == rows@,
                all == all.subrange(0, out@.len() as int) + rest@,
                out@.len() <= all.len(),
                forall|i: int| 0 <= i < out@.len() ==> is_row_record(#[trigger] out@[i], all[i].0, all[i].1, all[i].2),
            decreases rest@.len(),
        {
            let ghost k = out@.len() as int;
            let (id, stamp, sign) = rest.remove(0);
            assert(all[k] == (id, stamp, sign));
            match Self::convert_to_img_meta_do(id, stamp, sign) {
                Ok(m) => {
                    out.push(m);
                    assert(all =~= all.subrange(0, k + 1) + rest@);
                },
                Err(e) => {
                    assert(!in_calendar_range(all[k].1 as int));
                    assert(0 <= k < all.len() && !in_calendar_range(all[k].1 as int) && e == StorageError::BadTimestamp(all[k].1));
                    return Err(e);
                },
            }
        }
        assert(all =~= all.subrange(0, out@.len() as int));
        Ok(out)
    }

    /// A row count as the database takes it: `n`, or the largest it takes.
    pub fn sql_count(n: usize) -> (r: i64)
        ensures
            r == (if n <= i64::MAX { n as int } else { i64::MAX as int }),
    {
        if (n as u64) <= (i64::MAX as u64) {
            n as i64
        } else {
            i64::MAX
        }
    }

    /// Reads up to `limit` records, skipping the first `offset`, in the
    /// store's own order; each row reads back as `rows_to_records` says.
    pub fn query_all(offset: usize, limit: usize, conn: &rusqlite::Connection) -> (r: Result<Vec<ImgMetaDO>, StorageError>)
        ensures
            r matches Ok(v) ==> forall|i: int| 0 <= i < v@.len() ==> (#[trigger] v@[i]).id is Some && v@[i].time.wf(),
            r matches Err(StorageError::BadTimestamp(s)) ==> !in_calendar_range(s as int),
    {
        let off = Self::sql_count(offset);
        let lim = Self::sql_count(limit);
        match query_rows(conn, QUERY_PAGE_SQL, off, lim) {
            Ok(rows) => Self::rows_to_records(rows),
            Err(e) => Err(StorageError::Database(e)),
        }
    }
}

} // verus!

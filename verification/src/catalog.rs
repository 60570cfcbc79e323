//! Records of the catalog of stream tables.
//!
//! Rows arrive as cells: a value, no value, or the reason why a column could
//! not be read.  Columns are taken in order, and the first that fails decides.

use vstd::prelude::*;
use vstd::string::*;

use crate::cdc;
use crate::cdc::or_default;
use crate::dag::{RefreshMode, StStatus};
use crate::dvm::diff::Frontier;
use crate::error::{ErrorView, PgTrickleError};
use crate::text;
use crate::text::{copy_opt, i64_text, text_eq, u32_text};

verus! {

// ── Change capture modes ───────────────────────────────────────────────

/// How the changes of a source are captured.
#[derive(Debug, Clone, Copy, PartialEq, Eq, Structural)]
pub enum CdcMode {
    /// By row triggers.
    Trigger,
    /// By row triggers, while logical decoding catches up.
    Transitioning,
    /// By logical decoding.
    Wal,
}

impl CdcMode {
    /// The name of a mode in the catalog.
    pub open spec fn name(self) -> Seq<char> {
        match self {
            CdcMode::Trigger => "TRIGGER"@,
            CdcMode::Transitioning => "TRANSITIONING"@,
            CdcMode::Wal => "WAL"@,
        }
    }

    /// The mode with a name.
    pub open spec fn parsed(s: Seq<char>) -> Result<CdcMode, ErrorView> {
        if s == "TRIGGER"@ {
            Ok(CdcMode::Trigger)
        } else if s == "TRANSITIONING"@ {
            Ok(CdcMode::Transitioning)
        } else if s == "WAL"@ {
            Ok(CdcMode::Wal)
        } else {
            Err(ErrorView::InvalidArgument("unknown CDC mode: "@ + s))
        }
    }

    /// The name of a mode in the catalog.
    pub fn as_str(&self) -> (r: &'static str)
        ensures
            r@ == self.name(),
    {
        match self {
            CdcMode::Trigger => "TRIGGER",
            CdcMode::Transitioning => "TRANSITIONING",
            CdcMode::Wal => "WAL",
        }
    }

    /// The mode with a name.
    pub fn from_str(s: &str) -> (r: Result<CdcMode, PgTrickleError>)
        ensures
            match r {
                Ok(mode) => CdcMode::parsed(s@) == Ok::<CdcMode, ErrorView>(mode),
                Err(e) => CdcMode::parsed(s@) == Err::<CdcMode, ErrorView>(e@),
            },
    {
        if text_eq(s, "TRIGGER") {
            Ok(CdcMode::Trigger)
        } else if text_eq(s, "TRANSITIONING") {
            Ok(CdcMode::Transitioning)
        } else if text_eq(s, "WAL") {
            Ok(CdcMode::Wal)
        } else {
            let mut m = "unknown CDC mode: ".to_string();
            m.append(s);
            Err(PgTrickleError::InvalidArgument(m))
        }
    }
}

/// A capture mode is read back from its name.
pub proof fn cdc_mode_reads_back(mode: CdcMode)
    ensures
        CdcMode::parsed(mode.name()) == Ok::<CdcMode, ErrorView>(mode),
{
    reveal_strlit("TRIGGER");
    reveal_strlit("TRANSITIONING");
    reveal_strlit("WAL");
    assert("TRIGGER"@.len() == 7 && "TRANSITIONING"@.len() == 13 && "WAL"@.len() == 3);
}

// ── Stream tables ──────────────────────────────────────────────────────

/// A row of the catalog of stream tables.
#[derive(Debug)]
pub struct StreamTableRow {
    pub pgs_id: Result<Option<i64>, String>,
    pub pgs_relid: Result<Option<u32>, String>,
    pub pgs_name: Result<Option<String>, String>,
    pub pgs_schema: Result<Option<String>, String>,
    pub defining_query: Result<Option<String>, String>,
    pub schedule: Result<Option<String>, String>,
    pub refresh_mode: Result<Option<String>, String>,
    pub status: Result<Option<String>, String>,
    pub is_populated: Result<Option<bool>, String>,
    /// Microseconds since the epoch of the server.
    pub data_timestamp: Result<Option<i64>, String>,
    pub consecutive_errors: Result<Option<i32>, String>,
    pub needs_reinit: Result<Option<bool>, String>,
    /// Nothing where there is none, or none that can be read.
    pub frontier: Result<Option<Frontier>, String>,
}

/// What the catalog says of a stream table.
#[derive(Debug, Clone)]
pub struct StreamTableMeta {
    pub pgs_id: i64,
    pub pgs_relid: u32,
    pub pgs_name: String,
    pub pgs_schema: String,
    pub defining_query: String,
    pub schedule: Option<String>,
    pub refresh_mode: RefreshMode,
    pub status: StStatus,
    pub is_populated: bool,
    /// Microseconds since the epoch of the server.
    pub data_timestamp: Option<i64>,
    pub consecutive_errors: i32,
    pub needs_reinit: bool,
    /// How far its sources have been consumed; nothing where it was never
    /// refreshed.
    pub frontier: Option<Frontier>,
}

/// What the catalog says of a stream table.
pub struct StreamTableView {
    pub pgs_id: i64,
    pub pgs_relid: u32,
    pub pgs_name: Seq<char>,
    pub pgs_schema: Seq<char>,
    pub defining_query: Seq<char>,
    pub schedule: Option<Seq<char>>,
    pub refresh_mode: RefreshMode,
    pub status: StStatus,
    pub is_populated: bool,
    pub data_timestamp: Option<i64>,
    pub consecutive_errors: i32,
    pub needs_reinit: bool,
    pub frontier: Option<Seq<(u32, Seq<char>)>>,
}

/// How far sources have been consumed, where that is known.
pub open spec fn opt_frontier(f: Option<Frontier>) -> Option<Seq<(u32, Seq<char>)>> {
    match f {
        Some(f) => Some(f@),
        None => None,
    }
}

impl View for StreamTableMeta {
    type V = StreamTableView;

    open spec fn view(&self) -> StreamTableView {
        StreamTableView {
            pgs_id: self.pgs_id,
            pgs_relid: self.pgs_relid,
            pgs_name: self.pgs_name@,
            pgs_schema: self.pgs_schema@,
            defining_query: self.defining_query@,
            schedule: text::opt_text(self.schedule),
            refresh_mode: self.refresh_mode,
            status: self.status,
            is_populated: self.is_populated,
            data_timestamp: self.data_timestamp,
            consecutive_errors: self.consecutive_errors,
            needs_reinit: self.needs_reinit,
            frontier: opt_frontier(self.frontier),
        }
    }
}

/// Why a column could not be read, if it could not.
pub open spec fn unreadable<T>(cell: Result<Option<T>, String>) -> Option<ErrorView> {
    match cell {
        Ok(_) => None,
        Err(e) => Some(ErrorView::SpiError(e@)),
    }
}

/// Why a column that must have a value cannot be used, if it cannot.
pub open spec fn unusable<T>(cell: Result<Option<T>, String>, name: Seq<char>) -> Option<
    ErrorView,
> {
    match cell {
        Ok(Some(_)) => None,
        Ok(None) => Some(ErrorView::InternalError(name + " is NULL"@)),
        Err(e) => Some(ErrorView::SpiError(e@)),
    }
}

/// The value of a column, or another where there is none.
pub open spec fn value_or<T>(cell: Result<Option<T>, String>, default: T) -> T {
    match cell {
        Ok(Some(v)) => v,
        _ => default,
    }
}

/// The text of a column, or another where there is none.
pub open spec fn cell_text(cell: Result<Option<String>, String>, default: Seq<char>) -> Seq<char> {
    match cell {
        Ok(Some(v)) => v@,
        _ => default,
    }
}

/// The refresh mode of a row: differential where there is none.
pub open spec fn row_mode(row: StreamTableRow) -> Result<RefreshMode, ErrorView> {
    RefreshMode::parsed(text::uppercase(cell_text(row.refresh_mode, "DIFFERENTIAL"@)))
}

/// The status of a row: initializing where there is none.
pub open spec fn row_status(row: StreamTableRow) -> Result<StStatus, ErrorView> {
    StStatus::parsed(cell_text(row.status, "INITIALIZING"@))
}

/// The first of two failures.
pub open spec fn or_else(a: Option<ErrorView>, b: Option<ErrorView>) -> Option<ErrorView> {
    match a {
        Some(e) => Some(e),
        None => b,
    }
}

/// A failure as such.
pub open spec fn failure_of<T>(r: Result<T, ErrorView>) -> Option<ErrorView> {
    match r {
        Ok(_) => None,
        Err(e) => Some(e),
    }
}

/// Why one of the columns before the refresh mode makes a row no record of a
/// stream table, if one does.
pub open spec fn row_failure_before_mode(row: StreamTableRow) -> Option<ErrorView> {
    let a = unusable(row.pgs_id, "pgs_id"@);
    let b = or_else(a, unusable(row.pgs_relid, "pgs_relid"@));
    let c = or_else(b, unusable(row.pgs_name, "pgs_name"@));
    let d = or_else(c, unusable(row.pgs_schema, "pgs_schema"@));
    let e = or_else(d, unusable(row.defining_query, "defining_query"@));
    or_else(e, unreadable(row.schedule))
}

/// Why a row is no record of a stream table, if it is none.
pub open spec fn row_failure(row: StreamTableRow) -> Option<ErrorView> {
    let f = row_failure_before_mode(row);
    let g = or_else(f, or_else(unreadable(row.refresh_mode), failure_of(row_mode(row))));
    let h = or_else(g, or_else(unreadable(row.status), failure_of(row_status(row))));
    let i = or_else(h, unreadable(row.is_populated));
    let j = or_else(i, unreadable(row.data_timestamp));
    let k = or_else(j, unreadable(row.consecutive_errors));
    let l = or_else(k, unreadable(row.needs_reinit));
    or_else(l, unreadable(row.frontier))
}

/// The record of a row in which nothing fails.
pub open spec fn row_record(row: StreamTableRow) -> StreamTableView {
    StreamTableView {
        pgs_id: value_or(row.pgs_id, 0),
        pgs_relid: value_or(row.pgs_relid, 0),
        pgs_name: cell_text(row.pgs_name, ""@),
        pgs_schema: cell_text(row.pgs_schema, ""@),
        defining_query: cell_text(row.defining_query, ""@),
        schedule: match row.schedule {
            Ok(s) => text::opt_text(s),
            Err(_) => None,
        },
        refresh_mode: match row_mode(row) {
            Ok(m) => m,
            Err(_) => RefreshMode::Differential,
        },
        status: match row_status(row) {
            Ok(s) => s,
            Err(_) => StStatus::Error,
        },
        is_populated: value_or(row.is_populated, false),
        data_timestamp: match row.data_timestamp {
            Ok(t) => t,
            Err(_) => None,
        },
        consecutive_errors: value_or(row.consecutive_errors, 0),
        needs_reinit: value_or(row.needs_reinit, false),
        frontier: match row.frontier {
            Ok(f) => opt_frontier(f),
            Err(_) => None,
        },
    }
}

/// Whether a result is that of a row.
pub open spec fn is_record_of(
    r: Result<StreamTableMeta, PgTrickleError>,
    row: StreamTableRow,
) -> bool {
    match row_failure(row) {
        Some(e) => r is Err && r->Err_0@ == e,
        None => r is Ok && r->Ok_0@ == row_record(row),
    }
}

/// The error for a column that could not be read.
fn read_failed(e: &String) -> (r: PgTrickleError)
    ensures
        r@ == ErrorView::SpiError(e@),
{
    PgTrickleError::SpiError(e.clone())
}

/// The error for a column that must have a value.
fn null_value(name: &str) -> (r: PgTrickleError)
    ensures
        r@ == ErrorView::InternalError(name@ + " is NULL"@),
{
    let mut m = name.to_string();
    m.append(" is NULL");
    PgTrickleError::InternalError(m)
}

/// The text of a column that must have one.
fn required_text(cell: &Result<Option<String>, String>, name: &str) -> (r: Result<
    String,
    PgTrickleError,
>)
    ensures
        match unusable(*cell, name@) {
            Some(e) => r is Err && r->Err_0@ == e,
            None => r is Ok && r->Ok_0@ == cell_text(*cell, ""@),
        },
{
    match cell {
        Ok(Some(v)) => Ok(v.clone()),
        Ok(None) => Err(null_value(name)),
        Err(e) => Err(read_failed(e)),
    }
}

/// The text of a column, or another where there is none.
fn default_text(cell: &Result<Option<String>, String>, default: &str) -> (r: Result<
    String,
    PgTrickleError,
>)
    ensures
        match unreadable(*cell) {
            Some(e) => r is Err && r->Err_0@ == e,
            None => r is Ok && r->Ok_0@ == cell_text(*cell, default@),
        },
{
    match cell {
        Ok(Some(v)) => Ok(v.clone()),
        Ok(None) => Ok(default.to_string()),
        Err(e) => Err(read_failed(e)),
    }
}

/// The truth of a column, false where there is none.
fn flag(cell: &Result<Option<bool>, String>) -> (r: Result<bool, PgTrickleError>)
    ensures
        match unreadable(*cell) {
            Some(e) => r is Err && r->Err_0@ == e,
            None => r is Ok && r->Ok_0 == value_or(*cell, false),
        },
{
    match cell {
        Ok(Some(v)) => Ok(*v),
        Ok(None) => Ok(false),
        Err(e) => Err(read_failed(e)),
    }
}

/// The failure to find a stream table.
pub open spec fn not_found(what: Seq<char>) -> ErrorView {
    ErrorView::NotFound(what)
}

impl StreamTableMeta {
    /// The record of a row.
    ///
    /// The number, the relation, the name, the schema and the query must be
    /// there.  Where there is no refresh mode it is differential, where there
    /// is no status it is initializing; the flags are false and the error
    /// count zero where they are not there.
    pub fn from_row(row: &StreamTableRow) -> (r: Result<StreamTableMeta, PgTrickleError>)
        ensures
            is_record_of(r, *row),
            row_failure_before_mode(*row) is None && row.refresh_mode is Ok && text::all_ascii(
                cell_text(row.refresh_mode, "DIFFERENTIAL"@),
            ) ==> text::uppercase(cell_text(row.refresh_mode, "DIFFERENTIAL"@)) == text::uppered(
                cell_text(row.refresh_mode, "DIFFERENTIAL"@),
            ),
    {
        let pgs_id = match &row.pgs_id {
            Ok(Some(v)) => *v,
            Ok(None) => {
                return Err(null_value("pgs_id"));
            },
            Err(e) => {
                return Err(read_failed(e));
            },
        };
        let pgs_relid = match &row.pgs_relid {
            Ok(Some(v)) => *v,
            Ok(None) => {
                return Err(null_value("pgs_relid"));
            },
            Err(e) => {
                return Err(read_failed(e));
            },
        };
        let pgs_name = match required_text(&row.pgs_name, "pgs_name") {
            Ok(v) => v,
            Err(e) => {
                return Err(e);
            },
        };
        let pgs_schema = match required_text(&row.pgs_schema, "pgs_schema") {
            Ok(v) => v,
            Err(e) => {
                return Err(e);
            },
        };
        let defining_query = match required_text(&row.defining_query, "defining_query") {
            Ok(v) => v,
            Err(e) => {
                return Err(e);
            },
        };
        let schedule = match &row.schedule {
            Ok(s) => copy_opt(s),
            Err(e) => {
                return Err(read_failed(e));
            },
        };
        let mode_text = match default_text(&row.refresh_mode, "DIFFERENTIAL") {
            Ok(v) => v,
            Err(e) => {
                return Err(e);
            },
        };
        let refresh_mode = match RefreshMode::from_str(mode_text.as_str()) {
            Ok(m) => m,
            Err(e) => {
                return Err(e);
            },
        };
        let status_text = match default_text(&row.status, "INITIALIZING") {
            Ok(v) => v,
            Err(e) => {
                return Err(e);
            },
        };
        let status = match StStatus::from_str(status_text.as_str()) {
            Ok(s) => s,
            Err(e) => {
                return Err(e);
            },
        };
        let is_populated = match flag(&row.is_populated) {
            Ok(v) => v,
            Err(e) => {
                return Err(e);
            },
        };
        let data_timestamp = match &row.data_timestamp {
            Ok(t) => *t,
            Err(e) => {
                return Err(read_failed(e));
            },
        };
        let consecutive_errors = match &row.consecutive_errors {
            Ok(Some(n)) => *n,
            Ok(None) => 0,
            Err(e) => {
                return Err(read_failed(e));
            },
        };
        let needs_reinit = match flag(&row.needs_reinit) {
            Ok(v) => v,
            Err(e) => {
                return Err(e);
            },
        };
        let frontier = match &row.frontier {
            Ok(Some(f)) => Some(f.copied()),
            Ok(None) => None,
            Err(e) => {
                return Err(read_failed(e));
            },
        };
        Ok(
            StreamTableMeta {
                pgs_id,
                pgs_relid,
                pgs_name,
                pgs_schema,
                defining_query,
                schedule,
                refresh_mode,
                status,
                is_populated,
                data_timestamp,
                consecutive_errors,
                needs_reinit,
                frontier,
            },
        )
    }

    /// The stream table with a name, from the row that was found for it.
    pub fn get_by_name(row: &Option<StreamTableRow>, schema: &str, name: &str) -> (r: Result<
        StreamTableMeta,
        PgTrickleError,
    >)
        ensures
            match *row {
                Some(found) => is_record_of(r, found),
                None => r is Err && r->Err_0@ == not_found(schema@ + "."@ + name@),
            },
    {
        match row {
            Some(found) => StreamTableMeta::from_row(found),
            None => {
                let mut m = schema.to_string();
                m.append(".");
                m.append(name);
                Err(PgTrickleError::NotFound(m))
            },
        }
    }

    /// The stream table with a storage table, from the row that was found for
    /// it.
    pub fn get_by_relid(row: &Option<StreamTableRow>, relid: u32) -> (r: Result<
        StreamTableMeta,
        PgTrickleError,
    >)
        ensures
            match *row {
                Some(found) => is_record_of(r, found),
                None => r is Err && r->Err_0@ == not_found(
                    "relid="@ + text::decimal(relid as nat),
                ),
            },
    {
        match row {
            Some(found) => StreamTableMeta::from_row(found),
            None => {
                let mut m = "relid=".to_string();
                m.append(u32_text(relid).as_str());
                Err(PgTrickleError::NotFound(m))
            },
        }
    }

    /// The stream tables of rows, and why the other rows are none.
    pub fn get_all_active(rows: &Vec<StreamTableRow>) -> (r: (
        Vec<StreamTableMeta>,
        Vec<PgTrickleError>,
    ))
        ensures
            record_views(r.0@) == records(rows@),
            failure_views(r.1@) == failures(rows@),
    {
        let mut kept: Vec<StreamTableMeta> = Vec::new();
        let mut failed: Vec<PgTrickleError> = Vec::new();
        let mut i: usize = 0;
        assert(record_views(kept@) =~= Seq::empty());
        assert(failure_views(failed@) =~= Seq::empty());
        while i < rows.len()
            invariant
                i <= rows.len(),
                record_views(kept@) == records(rows@.take(i as int)),
                failure_views(failed@) == failures(rows@.take(i as int)),
            decreases rows.len() - i,
        {
            assert(rows@.take(i + 1).drop_last() =~= rows@.take(i as int));
            let ghost kept0 = kept@;
            let ghost failed0 = failed@;
            match StreamTableMeta::from_row(&rows[i]) {
                Ok(meta) => {
                    let ghost view = meta@;
                    kept.push(meta);
                    assert(record_views(kept@) =~= record_views(kept0).push(view));
                },
                Err(e) => {
                    let ghost view = e@;
                    failed.push(e);
                    assert(failure_views(failed@) =~= failure_views(failed0).push(view));
                },
            }
            i += 1;
        }
        assert(rows@.take(i as int) =~= rows@);
        (kept, failed)
    }

    /// The number that an insert gave to a stream table.
    pub fn inserted_id(id: Option<i64>) -> (r: Result<i64, PgTrickleError>)
        ensures
            match id {
                Some(n) => r is Ok && r->Ok_0 == n,
                None => r is Err && r->Err_0@ == ErrorView::InternalError(
                    "INSERT did not return pgs_id"@,
                ),
            },
    {
        match id {
            Some(n) => Ok(n),
            None => Err(
                PgTrickleError::InternalError("INSERT did not return pgs_id".to_string()),
            ),
        }
    }

    /// What an update returned for a stream table, which was not found if it
    /// returned nothing.
    pub fn updated<T>(value: Option<T>, pgs_id: i64) -> (r: Result<T, PgTrickleError>)
        ensures
            match value {
                Some(v) => r is Ok && r->Ok_0 == v,
                None => r is Err && r->Err_0@ == not_found(
                    "pgs_id="@ + text::decimal_int(pgs_id as int),
                ),
            },
    {
        match value {
            Some(v) => Ok(v),
            None => {
                let mut m = "pgs_id=".to_string();
                m.append(i64_text(pgs_id).as_str());
                Err(PgTrickleError::NotFound(m))
            },
        }
    }
}

/// The views of records.
pub open spec fn record_views(v: Seq<StreamTableMeta>) -> Seq<StreamTableView> {
    Seq::new(v.len(), |i: int| v[i]@)
}

/// The views of errors.
pub open spec fn failure_views(v: Seq<PgTrickleError>) -> Seq<ErrorView> {
    Seq::new(v.len(), |i: int| v[i]@)
}

/// The records of the rows in which nothing fails.
pub open spec fn records(rows: Seq<StreamTableRow>) -> Seq<StreamTableView>
    decreases rows.len(),
{
    if rows.len() == 0 {
        Seq::empty()
    } else if row_failure(rows.last()) is None {
        records(rows.drop_last()).push(row_record(rows.last()))
    } else {
        records(rows.drop_last())
    }
}

/// Why the other rows are no records.
pub open spec fn failures(rows: Seq<StreamTableRow>) -> Seq<ErrorView>
    decreases rows.len(),
{
    if rows.len() == 0 {
        Seq::empty()
    } else {
        match row_failure(rows.last()) {
            Some(e) => failures(rows.drop_last()).push(e),
            None => failures(rows.drop_last()),
        }
    }
}

/// Each row is a record or a failure.
pub proof fn no_row_is_lost(rows: Seq<StreamTableRow>)
    ensures
        records(rows).len() + failures(rows).len() == rows.len(),
    decreases rows.len(),
{
    if rows.len() > 0 {
        no_row_is_lost(rows.drop_last());
    }
}

// ── Dependencies ───────────────────────────────────────────────────────

/// A row of the catalog of dependencies.
#[derive(Debug)]
pub struct DtDependencyRow {
    pub pgs_id: Option<i64>,
    pub source_relid: Option<u32>,
    pub source_type: Option<String>,
    pub cdc_mode: Option<String>,
    pub slot_name: Option<String>,
    pub transition_started_at: Option<String>,
}

/// A dependency of a stream table on a source.
#[derive(Debug, Clone)]
pub struct DtDependency {
    pub pgs_id: i64,
    pub source_relid: u32,
    pub source_type: String,
    pub columns_used: Option<Vec<String>>,
    /// How the changes of the source are captured.
    pub cdc_mode: CdcMode,
    /// The replication slot, where logical decoding is used.
    pub slot_name: Option<String>,
    /// When logical decoding was started.
    pub transition_started_at: Option<String>,
}

impl DtDependency {
    /// The dependency of a row.  Without a mode, changes are captured by
    /// triggers.
    pub fn from_row(row: &DtDependencyRow) -> (r: Result<DtDependency, PgTrickleError>)
        ensures
            match CdcMode::parsed(cdc::text_or(row.cdc_mode, "TRIGGER"@)) {
                Err(e) => r is Err && r->Err_0@ == e,
                Ok(mode) => {
                    &&& r is Ok
                    &&& r->Ok_0.pgs_id == match row.pgs_id {
                        Some(n) => n,
                        None => 0,
                    }
                    &&& r->Ok_0.source_relid == match row.source_relid {
                        Some(n) => n,
                        None => 0,
                    }
                    &&& r->Ok_0.source_type@ == cdc::text_or(row.source_type, ""@)
                    &&& r->Ok_0.columns_used is None
                    &&& r->Ok_0.cdc_mode == mode
                    &&& text::opt_text(r->Ok_0.slot_name) == text::opt_text(row.slot_name)
                    &&& text::opt_text(r->Ok_0.transition_started_at) == text::opt_text(
                        row.transition_started_at,
                    )
                },
            },
    {
        let mode_text = or_default(&row.cdc_mode, "TRIGGER");
        let cdc_mode = match CdcMode::from_str(mode_text.as_str()) {
            Ok(m) => m,
            Err(e) => {
                return Err(e);
            },
        };
        Ok(
            DtDependency {
                pgs_id: match row.pgs_id {
                    Some(n) => n,
                    None => 0,
                },
                source_relid: match row.source_relid {
                    Some(n) => n,
                    None => 0,
                },
                source_type: or_default(&row.source_type, ""),
                columns_used: None,
                cdc_mode,
                slot_name: copy_opt(&row.slot_name),
                transition_started_at: copy_opt(&row.transition_started_at),
            },
        )
    }
}

// ── Refresh history ────────────────────────────────────────────────────

/// A record of a refresh.  Times are microseconds since the epoch of the
/// server.
#[derive(Debug, Clone)]
pub struct RefreshRecord {
    pub refresh_id: i64,
    pub pgs_id: i64,
    pub data_timestamp: i64,
    pub start_time: i64,
    pub end_time: Option<i64>,
    pub action: String,
    pub rows_inserted: i64,
    pub rows_deleted: i64,
    pub error_message: Option<String>,
    pub status: String,
    /// What asked for the refresh: `SCHEDULER`, `MANUAL` or `INITIAL`.
    pub initiated_by: Option<String>,
    /// When the data had to be fresh, for schedules that are lengths of time.
    pub freshness_deadline: Option<i64>,
}

impl RefreshRecord {
    /// The number that an insert gave to a record.
    pub fn inserted_id(id: Option<i64>) -> (r: Result<i64, PgTrickleError>)
        ensures
            match id {
                Some(n) => r is Ok && r->Ok_0 == n,
                None => r is Err && r->Err_0@ == ErrorView::InternalError(
                    "INSERT did not return refresh_id"@,
                ),
            },
    {
        match id {
            Some(n) => Ok(n),
            None => Err(
                PgTrickleError::InternalError("INSERT did not return refresh_id".to_string()),
            ),
        }
    }
}

} // verus!

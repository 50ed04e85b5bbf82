//! One row of the `routes` table.
//!
//! [`COLUMNS`] is the one place that spells the column list. The fields of
//! [`RouteRow`], the statement that reads rows, the statement that writes them
//! and the values bound to it all follow its order. BLOBs stay encoded: a row
//! only carries bytes, and they are decoded where a [`Route`] is needed.
//!
//! Floating-point numbers are carried as their bits; nothing here computes with
//! them.

use vstd::prelude::*;
use vstd::string::*;

use crate::text;

verus! {

/// A 64-bit floating-point number, by its bits.
#[derive(Debug, Clone, Copy, PartialEq, Eq, Structural)]
pub struct Real {
    pub bits: u64,
}

/// A 32-bit floating-point number, by its bits.
#[derive(Debug, Clone, Copy, PartialEq, Eq, Structural)]
pub struct Real32 {
    pub bits: u32,
}

/// How many columns the table has.
pub const COLUMN_COUNT: usize = 55;

/// The columns of the `routes` table, in the order of the table: those it was
/// created with, and then those that each later version appended.
pub const COLUMNS: [&'static str; 55] = [
    "file",
    "date_dir",
    "point_count",
    "raw_park_count",
    "raw_frame_count",
    "start_ts",
    "end_ts",
    "distance_m",
    "first_lat",
    "first_lon",
    "points_blob",
    "gear_states_blob",
    "ap_states_blob",
    "speeds_blob",
    "accel_blob",
    "gear_runs_blob",
    "updated_at",
    "max_speed_mps",
    "avg_speed_mps",
    "speed_sample_count",
    "valid_point_count",
    "fsd_engaged_ms",
    "autosteer_engaged_ms",
    "tacc_engaged_ms",
    "fsd_distance_m",
    "autosteer_distance_m",
    "tacc_distance_m",
    "assisted_distance_m",
    "fsd_disengagements",
    "fsd_accel_pushes",
    "start_lat",
    "start_lon",
    "end_lat",
    "end_lon",
    "cloud_uploaded_at",
    "cloud_route_id",
    "source",
    "external_signature",
    "tessie_autopilot_percent",
    "battery_pct_start",
    "battery_pct_end",
    "battery_temp_avg",
    "interior_temp_min",
    "interior_temp_max",
    "exterior_temp_avg",
    "hvac_runtime_s",
    "tire_fl_psi",
    "tire_fr_psi",
    "tire_rl_psi",
    "tire_rr_psi",
    "odometer_mi_start",
    "odometer_mi_end",
    "software_version",
    "location_name_start",
    "location_name_end",
];

/// What a column may hold. The `Opt` kinds may be NULL as well.
#[derive(Debug, Clone, Copy, PartialEq, Eq, Structural)]
pub enum ColumnKind {
    Text,
    Integer,
    Real,
    OptText,
    OptInteger,
    OptReal,
    OptBlob,
}

/// What each of the [`COLUMNS`] may hold.
pub const COLUMN_KINDS: [ColumnKind; 55] = [
    ColumnKind::Text,
    ColumnKind::Text,
    ColumnKind::Integer,
    ColumnKind::Integer,
    ColumnKind::Integer,
    ColumnKind::OptInteger,
    ColumnKind::OptInteger,
    ColumnKind::Real,
    ColumnKind::OptReal,
    ColumnKind::OptReal,
    ColumnKind::OptBlob,
    ColumnKind::OptBlob,
    ColumnKind::OptBlob,
    ColumnKind::OptBlob,
    ColumnKind::OptBlob,
    ColumnKind::OptBlob,
    ColumnKind::Integer,
    ColumnKind::OptReal,
    ColumnKind::OptReal,
    ColumnKind::OptInteger,
    ColumnKind::OptInteger,
    ColumnKind::OptInteger,
    ColumnKind::OptInteger,
    ColumnKind::OptInteger,
    ColumnKind::OptReal,
    ColumnKind::OptReal,
    ColumnKind::OptReal,
    ColumnKind::OptReal,
    ColumnKind::OptInteger,
    ColumnKind::OptInteger,
    ColumnKind::OptReal,
    ColumnKind::OptReal,
    ColumnKind::OptReal,
    ColumnKind::OptReal,
    ColumnKind::OptInteger,
    ColumnKind::OptText,
    ColumnKind::OptText,
    ColumnKind::OptText,
    ColumnKind::OptReal,
    ColumnKind::OptReal,
    ColumnKind::OptReal,
    ColumnKind::OptReal,
    ColumnKind::OptReal,
    ColumnKind::OptReal,
    ColumnKind::OptReal,
    ColumnKind::OptInteger,
    ColumnKind::OptReal,
    ColumnKind::OptReal,
    ColumnKind::OptReal,
    ColumnKind::OptReal,
    ColumnKind::OptReal,
    ColumnKind::OptReal,
    ColumnKind::OptText,
    ColumnKind::OptText,
    ColumnKind::OptText,
];

/// One row, with a field for each of the [`COLUMNS`], in their order.
#[derive(Debug, Clone, PartialEq, Eq)]
pub struct RouteRow {
    // v1
    pub file: String,
    pub date_dir: String,
    pub point_count: i64,
    pub raw_park_count: i64,
    pub raw_frame_count: i64,
    pub start_ts: Option<i64>,
    pub end_ts: Option<i64>,
    pub distance_m: Real,
    pub first_lat: Option<Real>,
    pub first_lon: Option<Real>,
    pub points_blob: Option<Vec<u8>>,
    pub gear_states_blob: Option<Vec<u8>>,
    pub ap_states_blob: Option<Vec<u8>>,
    pub speeds_blob: Option<Vec<u8>>,
    pub accel_blob: Option<Vec<u8>>,
    pub gear_runs_blob: Option<Vec<u8>>,
    pub updated_at: i64,
    // v2
    pub max_speed_mps: Option<Real>,
    pub avg_speed_mps: Option<Real>,
    pub speed_sample_count: Option<i64>,
    pub valid_point_count: Option<i64>,
    pub fsd_engaged_ms: Option<i64>,
    pub autosteer_engaged_ms: Option<i64>,
    pub tacc_engaged_ms: Option<i64>,
    pub fsd_distance_m: Option<Real>,
    pub autosteer_distance_m: Option<Real>,
    pub tacc_distance_m: Option<Real>,
    pub assisted_distance_m: Option<Real>,
    pub fsd_disengagements: Option<i64>,
    pub fsd_accel_pushes: Option<i64>,
    pub start_lat: Option<Real>,
    pub start_lon: Option<Real>,
    pub end_lat: Option<Real>,
    pub end_lon: Option<Real>,
    // v3
    pub cloud_uploaded_at: Option<i64>,
    pub cloud_route_id: Option<String>,
    // v4
    pub source: Option<String>,
    pub external_signature: Option<String>,
    pub tessie_autopilot_percent: Option<Real>,
    // v6
    pub battery_pct_start: Option<Real>,
    pub battery_pct_end: Option<Real>,
    pub battery_temp_avg: Option<Real>,
    pub interior_temp_min: Option<Real>,
    pub interior_temp_max: Option<Real>,
    pub exterior_temp_avg: Option<Real>,
    pub hvac_runtime_s: Option<i64>,
    // v7
    pub tire_fl_psi: Option<Real>,
    pub tire_fr_psi: Option<Real>,
    pub tire_rl_psi: Option<Real>,
    pub tire_rr_psi: Option<Real>,
    // v9
    pub odometer_mi_start: Option<Real>,
    pub odometer_mi_end: Option<Real>,
    pub software_version: Option<String>,
    // v10
    pub location_name_start: Option<String>,
    pub location_name_end: Option<String>,
}

/// A value bound to a statement.
#[derive(Debug, Clone, PartialEq, Eq)]
pub enum SqlParam {
    Null,
    Integer(i64),
    Real(Real),
    Text(String),
    Blob(Vec<u8>),
}

/// What a [`SqlParam`] says.
pub enum ParamView {
    Null,
    Integer(i64),
    Real(Real),
    Text(Seq<char>),
    Blob(Seq<u8>),
}

impl View for SqlParam {
    type V = ParamView;

    open spec fn view(&self) -> ParamView {
        match self {
            SqlParam::Null => ParamView::Null,
            SqlParam::Integer(n) => ParamView::Integer(*n),
            SqlParam::Real(r) => ParamView::Real(*r),
            SqlParam::Text(s) => ParamView::Text(s@),
            SqlParam::Blob(b) => ParamView::Blob(b@),
        }
    }
}

/// What a list of parameters says.
pub open spec fn param_views(params: Seq<SqlParam>) -> Seq<ParamView> {
    params.map_values(|p: SqlParam| p@)
}

/// A value read from a column.
#[derive(Debug, Clone, PartialEq, Eq)]
pub enum SqlCell {
    Null,
    /// An integer, and the floating-point number that it stands for where one
    /// is asked for.
    Integer { value: i64, as_real: Real },
    Real(Real),
    Text(String),
    /// A text that is not UTF-8.
    BadText,
    Blob(Vec<u8>),
}

/// Why a row could not be read.
#[derive(Debug, Clone, Copy, PartialEq, Eq, Structural)]
pub enum RowError {
    /// The row has no such column.
    MissingColumn(usize),
    /// The column holds a value of another type.
    WrongType(usize),
    /// The column holds a text that is not UTF-8.
    BadText(usize),
}

// ---------------------------------------------------------------------------
// Fields as parameters
// ---------------------------------------------------------------------------

/// The parameter of an optional integer.
pub open spec fn int_param(v: Option<i64>) -> ParamView {
    match v {
        Some(n) => ParamView::Integer(n),
        None => ParamView::Null,
    }
}

/// The parameter of an optional floating-point number.
pub open spec fn real_param(v: Option<Real>) -> ParamView {
    match v {
        Some(r) => ParamView::Real(r),
        None => ParamView::Null,
    }
}

/// The parameter of an optional text.
pub open spec fn text_param(v: Option<Seq<char>>) -> ParamView {
    match v {
        Some(s) => ParamView::Text(s),
        None => ParamView::Null,
    }
}

/// The parameter of an optional BLOB.
pub open spec fn blob_param(v: Option<Seq<u8>>) -> ParamView {
    match v {
        Some(b) => ParamView::Blob(b),
        None => ParamView::Null,
    }
}

/// The characters of an optional text.
pub open spec fn text_of(v: Option<String>) -> Option<Seq<char>> {
    match v {
        Some(s) => Some(s@),
        None => None,
    }
}

/// The bytes of an optional BLOB.
pub open spec fn blob_of(v: Option<Vec<u8>>) -> Option<Seq<u8>> {
    match v {
        Some(b) => Some(b@),
        None => None,
    }
}

impl RouteRow {
    /// The values of the columns that the table was created with.
    pub open spec fn first_params(&self) -> Seq<ParamView> {
        seq![
            ParamView::Text(self.file@),
            ParamView::Text(self.date_dir@),
            ParamView::Integer(self.point_count),
            ParamView::Integer(self.raw_park_count),
            ParamView::Integer(self.raw_frame_count),
            int_param(self.start_ts),
            int_param(self.end_ts),
            ParamView::Real(self.distance_m),
            real_param(self.first_lat),
            real_param(self.first_lon),
            blob_param(blob_of(self.points_blob)),
            blob_param(blob_of(self.gear_states_blob)),
            blob_param(blob_of(self.ap_states_blob)),
            blob_param(blob_of(self.speeds_blob)),
            blob_param(blob_of(self.accel_blob)),
            blob_param(blob_of(self.gear_runs_blob)),
            ParamView::Integer(self.updated_at),
        ]
    }

    /// The values of the aggregate columns.
    pub open spec fn aggregate_params(&self) -> Seq<ParamView> {
        seq![
            real_param(self.max_speed_mps),
            real_param(self.avg_speed_mps),
            int_param(self.speed_sample_count),
            int_param(self.valid_point_count),
            int_param(self.fsd_engaged_ms),
            int_param(self.autosteer_engaged_ms),
            int_param(self.tacc_engaged_ms),
            real_param(self.fsd_distance_m),
            real_param(self.autosteer_distance_m),
            real_param(self.tacc_distance_m),
            real_param(self.assisted_distance_m),
            int_param(self.fsd_disengagements),
            int_param(self.fsd_accel_pushes),
            real_param(self.start_lat),
            real_param(self.start_lon),
            real_param(self.end_lat),
            real_param(self.end_lon),
        ]
    }

    /// The values of the columns that were appended after those.
    pub open spec fn later_params(&self) -> Seq<ParamView> {
        seq![
            int_param(self.cloud_uploaded_at),
            text_param(text_of(self.cloud_route_id)),
            text_param(text_of(self.source)),
            text_param(text_of(self.external_signature)),
            real_param(self.tessie_autopilot_percent),
            real_param(self.battery_pct_start),
            real_param(self.battery_pct_end),
            real_param(self.battery_temp_avg),
            real_param(self.interior_temp_min),
            real_param(self.interior_temp_max),
            real_param(self.exterior_temp_avg),
            int_param(self.hvac_runtime_s),
            real_param(self.tire_fl_psi),
            real_param(self.tire_fr_psi),
            real_param(self.tire_rl_psi),
            real_param(self.tire_rr_psi),
            real_param(self.odometer_mi_start),
            real_param(self.odometer_mi_end),
            text_param(text_of(self.software_version)),
            text_param(text_of(self.location_name_start)),
            text_param(text_of(self.location_name_end)),
        ]
    }

    /// The value of each column, in the order of [`COLUMNS`].
    pub open spec fn params(&self) -> Seq<ParamView> {
        self.first_params() + self.aggregate_params() + self.later_params()
    }
}

fn text_value(v: &String) -> (res: SqlParam)
    ensures
        res@ == ParamView::Text(v@),
{
    SqlParam::Text(v.clone())
}

fn int_value(v: Option<i64>) -> (res: SqlParam)
    ensures
        res@ == int_param(v),
{
    match v {
        Some(n) => SqlParam::Integer(n),
        None => SqlParam::Null,
    }
}

fn real_value(v: Option<Real>) -> (res: SqlParam)
    ensures
        res@ == real_param(v),
{
    match v {
        Some(r) => SqlParam::Real(r),
        None => SqlParam::Null,
    }
}

fn opt_text_value(v: &Option<String>) -> (res: SqlParam)
    ensures
        res@ == text_param(text_of(*v)),
{
    match v {
        Some(s) => SqlParam::Text(s.clone()),
        None => SqlParam::Null,
    }
}

fn copy_bytes(b: &Vec<u8>) -> (res: Vec<u8>)
    ensures
        res@ == b@,
{
    let mut out: Vec<u8> = Vec::new();
    let mut i: usize = 0;
    while i < b.len()
        invariant
            i <= b.len(),
            out@ == b@.take(i as int),
        decreases b.len() - i,
    {
        out.push(b[i]);
        i += 1;
        assert(out@ =~= b@.take(i as int));
    }
    assert(b@.take(i as int) =~= b@);
    out
}

fn blob_value(v: &Option<Vec<u8>>) -> (res: SqlParam)
    ensures
        res@ == blob_param(blob_of(*v)),
{
    match v {
        Some(b) => SqlParam::Blob(copy_bytes(b)),
        None => SqlParam::Null,
    }
}

impl RouteRow {
    fn first_values(&self) -> (res: Vec<SqlParam>)
        ensures
            param_views(res@) == self.first_params(),
    {
        let mut v: Vec<SqlParam> = Vec::new();
        v.push(text_value(&self.file));
        v.push(text_value(&self.date_dir));
        v.push(SqlParam::Integer(self.point_count));
        v.push(SqlParam::Integer(self.raw_park_count));
        v.push(SqlParam::Integer(self.raw_frame_count));
        v.push(int_value(self.start_ts));
        v.push(int_value(self.end_ts));
        v.push(SqlParam::Real(self.distance_m));
        v.push(real_value(self.first_lat));
        v.push(real_value(self.first_lon));
        v.push(blob_value(&self.points_blob));
        v.push(blob_value(&self.gear_states_blob));
        v.push(blob_value(&self.ap_states_blob));
        v.push(blob_value(&self.speeds_blob));
        v.push(blob_value(&self.accel_blob));
        v.push(blob_value(&self.gear_runs_blob));
        v.push(SqlParam::Integer(self.updated_at));
        assert(param_views(v@) =~= self.first_params());
        v
    }

    fn aggregate_values(&self) -> (res: Vec<SqlParam>)
        ensures
            param_views(res@) == self.aggregate_params(),
    {
        let mut v: Vec<SqlParam> = Vec::new();
        v.push(real_value(self.max_speed_mps));
        v.push(real_value(self.avg_speed_mps));
        v.push(int_value(self.speed_sample_count));
        v.push(int_value(self.valid_point_count));
        v.push(int_value(self.fsd_engaged_ms));
        v.push(int_value(self.autosteer_engaged_ms));
        v.push(int_value(self.tacc_engaged_ms));
        v.push(real_value(self.fsd_distance_m));
        v.push(real_value(self.autosteer_distance_m));
        v.push(real_value(self.tacc_distance_m));
        v.push(real_value(self.assisted_distance_m));
        v.push(int_value(self.fsd_disengagements));
        v.push(int_value(self.fsd_accel_pushes));
        v.push(real_value(self.start_lat));
        v.push(real_value(self.start_lon));
        v.push(real_value(self.end_lat));
        v.push(real_value(self.end_lon));
        assert(param_views(v@) =~= self.aggregate_params());
        v
    }

    fn later_values(&self) -> (res: Vec<SqlParam>)
        ensures
            param_views(res@) == self.later_params(),
    {
        let mut v: Vec<SqlParam> = Vec::new();
        v.push(int_value(self.cloud_uploaded_at));
        v.push(opt_text_value(&self.cloud_route_id));
        v.push(opt_text_value(&self.source));
        v.push(opt_text_value(&self.external_signature));
        v.push(real_value(self.tessie_autopilot_percent));
        v.push(real_value(self.battery_pct_start));
        v.push(real_value(self.battery_pct_end));
        v.push(real_value(self.battery_temp_avg));
        v.push(real_value(self.interior_temp_min));
        v.push(real_value(self.interior_temp_max));
        v.push(real_value(self.exterior_temp_avg));
        v.push(int_value(self.hvac_runtime_s));
        v.push(real_value(self.tire_fl_psi));
        v.push(real_value(self.tire_fr_psi));
        v.push(real_value(self.tire_rl_psi));
        v.push(real_value(self.tire_rr_psi));
        v.push(real_value(self.odometer_mi_start));
        v.push(real_value(self.odometer_mi_end));
        v.push(opt_text_value(&self.software_version));
        v.push(opt_text_value(&self.location_name_start));
        v.push(opt_text_value(&self.location_name_end));
        assert(param_views(v@) =~= self.later_params());
        v
    }

    /// The value of each column, in the order of [`COLUMNS`].
    pub fn values(&self) -> (res: Vec<SqlParam>)
        ensures
            param_views(res@) == self.params(),
    {
        let mut v = self.first_values();
        let mut second = self.aggregate_values();
        let mut third = self.later_values();
        let ghost (a, b, c) = (v@, second@, third@);
        v.append(&mut second);
        v.append(&mut third);
        assert(v@ =~= a + b + c);
        assert(param_views(v@) =~= self.params());
        v
    }
}

// ---------------------------------------------------------------------------
// Statements
// ---------------------------------------------------------------------------

/// The column names.
pub open spec fn column_names() -> Seq<Seq<char>> {
    Seq::new(55, |i: int| COLUMNS@[i]@)
}

fn column_list() -> (res: String)
    ensures
        res@ == text::joined(column_names(), ", "@),
{
    let mut names: Vec<String> = Vec::new();
    let mut i: usize = 0;
    while i < COLUMN_COUNT
        invariant
            i <= COLUMN_COUNT,
            text::views(names@) == column_names().take(i as int),
        decreases COLUMN_COUNT - i,
    {
        let ghost before = text::views(names@);
        names.push(COLUMNS[i].to_owned());
        assert(text::views(names@) =~= before.push(COLUMNS@[i as int]@));
        i += 1;
        assert(text::views(names@) =~= column_names().take(i as int));
    }
    assert(column_names().take(i as int) =~= column_names());
    text::join(&names, ", ")
}

/// The numbered parameters `?1` to `?n`.
pub open spec fn placeholders(n: nat) -> Seq<Seq<char>> {
    Seq::new(n, |i: int| "?"@ + text::decimal((i + 1) as nat))
}

fn placeholder_list() -> (res: String)
    ensures
        res@ == text::joined(placeholders(55), ", "@),
{
    let mut marks: Vec<String> = Vec::new();
    let mut i: u64 = 0;
    while i < 55
        invariant
            i <= 55,
            text::views(marks@) == placeholders(i as nat),
        decreases 55 - i,
    {
        let ghost before = text::views(marks@);
        let mark = text::cat("?", &text::decimal_of(i + 1));
        let ghost m = mark@;
        marks.push(mark);
        assert(text::views(marks@) =~= before.push(m));
        i += 1;
        assert(text::views(marks@) =~= placeholders(i as nat));
    }
    text::join(&marks, ", ")
}

/// A statement with the values to bind to its parameters.
#[derive(Debug, Clone, PartialEq, Eq)]
pub struct Insert {
    pub sql: String,
    pub params: Vec<SqlParam>,
}

/// The statement that reads rows.
pub open spec fn select_text() -> Seq<char> {
    "SELECT "@ + text::joined(column_names(), ", "@) + " FROM routes ORDER BY file"@
}

/// The statement that writes a row.
pub open spec fn insert_text() -> Seq<char> {
    "INSERT OR REPLACE INTO routes ("@ + text::joined(column_names(), ", "@) + ") VALUES ("@
        + text::joined(placeholders(55), ", "@) + ")"@
}

impl RouteRow {
    /// The statement that reads rows, with the columns in the order that
    /// [`RouteRow::from_row`] reads them in.
    pub fn select_sql() -> (res: String)
        ensures
            res@ == select_text(),
    {
        text::cat(&text::cat("SELECT ", &column_list()), " FROM routes ORDER BY file")
    }

    /// The statement that writes this row in place of one with the same `file`,
    /// and a value for each of its parameters.
    pub fn bind_insert(&self) -> (res: Insert)
        ensures
            res.sql@ == insert_text(),
            param_views(res.params@) == self.params(),
    {
        let head = text::cat("INSERT OR REPLACE INTO routes (", &column_list());
        let sql = text::cat(
            &text::cat(&text::cat(&head, ") VALUES ("), &placeholder_list()),
            ")",
        );
        Insert { sql, params: self.values() }
    }
}

// ---------------------------------------------------------------------------
// Reading a row
// ---------------------------------------------------------------------------

/// What a column of some kind makes of a cell, if it takes it.
pub open spec fn read_as(kind: ColumnKind, cell: SqlCell) -> Option<ParamView> {
    match cell {
        SqlCell::Null => match kind {
            ColumnKind::OptText | ColumnKind::OptInteger | ColumnKind::OptReal
            | ColumnKind::OptBlob => Some(ParamView::Null),
            _ => None,
        },
        SqlCell::Integer { value, as_real } => match kind {
            ColumnKind::Integer | ColumnKind::OptInteger => Some(ParamView::Integer(value)),
            ColumnKind::Real | ColumnKind::OptReal => Some(ParamView::Real(as_real)),
            _ => None,
        },
        SqlCell::Real(r) => match kind {
            ColumnKind::Real | ColumnKind::OptReal => Some(ParamView::Real(r)),
            _ => None,
        },
        SqlCell::Text(s) => match kind {
            ColumnKind::Text | ColumnKind::OptText => Some(ParamView::Text(s@)),
            _ => None,
        },
        SqlCell::BadText => None,
        SqlCell::Blob(b) => match kind {
            ColumnKind::OptBlob => Some(ParamView::Blob(b@)),
            _ => None,
        },
    }
}

/// What is wrong with column `i` of a row, if anything is.
pub open spec fn fault_at(cells: Seq<SqlCell>, i: int) -> Option<RowError> {
    if i >= cells.len() {
        Some(RowError::MissingColumn(i as usize))
    } else if read_as(COLUMN_KINDS@[i], cells[i]) is Some {
        None
    } else if cells[i] is BadText && (COLUMN_KINDS@[i] == ColumnKind::Text || COLUMN_KINDS@[i]
        == ColumnKind::OptText) {
        Some(RowError::BadText(i as usize))
    } else {
        Some(RowError::WrongType(i as usize))
    }
}

/// Reading the cells fails with this fault, the first there is.
pub open spec fn fails_with(cells: Seq<SqlCell>, e: RowError) -> bool {
    exists|i: int|
        0 <= i < 55 && #[trigger] fault_at(cells, i) == Some(e) && forall|j: int|
            0 <= j < i ==> (#[trigger] fault_at(cells, j)) is None
}

fn takes(kind: ColumnKind, cell: &SqlCell) -> (res: bool)
    ensures
        res == (read_as(kind, *cell) is Some),
{
    match cell {
        SqlCell::Null => match kind {
            ColumnKind::OptText => true,
            ColumnKind::OptInteger => true,
            ColumnKind::OptReal => true,
            ColumnKind::OptBlob => true,
            _ => false,
        },
        SqlCell::Integer { .. } => match kind {
            ColumnKind::Integer => true,
            ColumnKind::OptInteger => true,
            ColumnKind::Real => true,
            ColumnKind::OptReal => true,
            _ => false,
        },
        SqlCell::Real(_) => kind == ColumnKind::Real || kind == ColumnKind::OptReal,
        SqlCell::Text(_) => kind == ColumnKind::Text || kind == ColumnKind::OptText,
        SqlCell::BadText => false,
        SqlCell::Blob(_) => kind == ColumnKind::OptBlob,
    }
}

fn first_fault(cells: &Vec<SqlCell>) -> (res: Option<RowError>)
    ensures
        match res {
            Some(e) => fails_with(cells@, e),
            None => forall|j: int| 0 <= j < 55 ==> (#[trigger] fault_at(cells@, j)) is None,
        },
{
    let mut i: usize = 0;
    while i < COLUMN_COUNT
        invariant
            i <= COLUMN_COUNT,
            forall|j: int| 0 <= j < i ==> (#[trigger] fault_at(cells@, j)) is None,
        decreases COLUMN_COUNT - i,
    {
        let fault = if i >= cells.len() {
            Some(RowError::MissingColumn(i))
        } else if takes(COLUMN_KINDS[i], &cells[i]) {
            None
        } else {
            let kind = COLUMN_KINDS[i];
            let textual = kind == ColumnKind::Text || kind == ColumnKind::OptText;
            match &cells[i] {
                SqlCell::BadText => if textual {
                    Some(RowError::BadText(i))
                } else {
                    Some(RowError::WrongType(i))
                },
                _ => Some(RowError::WrongType(i)),
            }
        };
        assert(fault == fault_at(cells@, i as int));
        if fault.is_some() {
            return fault;
        }
        i += 1;
    }
    None
}

fn get_text(cell: &SqlCell) -> (res: String)
    requires
        read_as(ColumnKind::Text, *cell) is Some,
    ensures
        read_as(ColumnKind::Text, *cell) == Some(ParamView::Text(res@)),
{
    match cell {
        SqlCell::Text(s) => s.clone(),
        _ => String::new(),
    }
}

fn get_integer(cell: &SqlCell) -> (res: i64)
    requires
        read_as(ColumnKind::Integer, *cell) is Some,
    ensures
        read_as(ColumnKind::Integer, *cell) == Some(ParamView::Integer(res)),
{
    match cell {
        SqlCell::Integer { value, .. } => *value,
        _ => 0,
    }
}

fn get_real(cell: &SqlCell) -> (res: Real)
    requires
        read_as(ColumnKind::Real, *cell) is Some,
    ensures
        read_as(ColumnKind::Real, *cell) == Some(ParamView::Real(res)),
{
    match cell {
        SqlCell::Real(r) => *r,
        SqlCell::Integer { as_real, .. } => *as_real,
        _ => Real { bits: 0 },
    }
}

fn get_opt_text(cell: &SqlCell) -> (res: Option<String>)
    requires
        read_as(ColumnKind::OptText, *cell) is Some,
    ensures
        read_as(ColumnKind::OptText, *cell) == Some(text_param(text_of(res))),
{
    match cell {
        SqlCell::Text(s) => Some(s.clone()),
        _ => None,
    }
}

fn get_opt_integer(cell: &SqlCell) -> (res: Option<i64>)
    requires
        read_as(ColumnKind::OptInteger, *cell) is Some,
    ensures
        read_as(ColumnKind::OptInteger, *cell) == Some(int_param(res)),
{
    match cell {
        SqlCell::Integer { value, .. } => Some(*value),
        _ => None,
    }
}

fn get_opt_real(cell: &SqlCell) -> (res: Option<Real>)
    requires
        read_as(ColumnKind::OptReal, *cell) is Some,
    ensures
        read_as(ColumnKind::OptReal, *cell) == Some(real_param(res)),
{
    match cell {
        SqlCell::Real(r) => Some(*r),
        SqlCell::Integer { as_real, .. } => Some(*as_real),
        _ => None,
    }
}

fn get_opt_blob(cell: &SqlCell) -> (res: Option<Vec<u8>>)
    requires
        read_as(ColumnKind::OptBlob, *cell) is Some,
    ensures
        read_as(ColumnKind::OptBlob, *cell) == Some(blob_param(blob_of(res))),
{
    match cell {
        SqlCell::Blob(b) => Some(copy_bytes(b)),
        _ => None,
    }
}

/// The row says what the cells say, column by column.
pub open spec fn row_reads(row: RouteRow, cells: Seq<SqlCell>) -> bool {
    cells.len() >= 55 && forall|i: int|
        0 <= i < 55 ==> read_as(COLUMN_KINDS@[i], #[trigger] cells[i]) == Some(row.params()[i])
}

impl RouteRow {
    /// Read a row from its cells, which stand in the order of [`COLUMNS`]. The
    /// first column that does not fit is the error.
    pub fn from_row(cells: &Vec<SqlCell>) -> (res: Result<RouteRow, RowError>)
        ensures
            match res {
                Ok(row) => row_reads(row, cells@),
                Err(e) => fails_with(cells@, e),
            },
    {
        match first_fault(cells) {
            Some(e) => {
                return Err(e);
            },
            None => {},
        }
        assert(fault_at(cells@, 54) is None);
        assert forall|i: int| 0 <= i < 55 implies read_as(
            COLUMN_KINDS@[i],
            #[trigger] cells@[i],
        ) is Some by {
            assert(fault_at(cells@, i) is None);
        }
        let row = RouteRow {
            file: get_text(&cells[0]),
            date_dir: get_text(&cells[1]),
            point_count: get_integer(&cells[2]),
            raw_park_count: get_integer(&cells[3]),
            raw_frame_count: get_integer(&cells[4]),
            start_ts: get_opt_integer(&cells[5]),
            end_ts: get_opt_integer(&cells[6]),
            distance_m: get_real(&cells[7]),
            first_lat: get_opt_real(&cells[8]),
            first_lon: get_opt_real(&cells[9]),
            points_blob: get_opt_blob(&cells[10]),
            gear_states_blob: get_opt_blob(&cells[11]),
            ap_states_blob: get_opt_blob(&cells[12]),
            speeds_blob: get_opt_blob(&cells[13]),
            accel_blob: get_opt_blob(&cells[14]),
            gear_runs_blob: get_opt_blob(&cells[15]),
            updated_at: get_integer(&cells[16]),
            max_speed_mps: get_opt_real(&cells[17]),
            avg_speed_mps: get_opt_real(&cells[18]),
            speed_sample_count: get_opt_integer(&cells[19]),
            valid_point_count: get_opt_integer(&cells[20]),
            fsd_engaged_ms: get_opt_integer(&cells[21]),
            autosteer_engaged_ms: get_opt_integer(&cells[22]),
            tacc_engaged_ms: get_opt_integer(&cells[23]),
            fsd_distance_m: get_opt_real(&cells[24]),
            autosteer_distance_m: get_opt_real(&cells[25]),
            tacc_distance_m: get_opt_real(&cells[26]),
            assisted_distance_m: get_opt_real(&cells[27]),
            fsd_disengagements: get_opt_integer(&cells[28]),
            fsd_accel_pushes: get_opt_integer(&cells[29]),
            start_lat: get_opt_real(&cells[30]),
            start_lon: get_opt_real(&cells[31]),
            end_lat: get_opt_real(&cells[32]),
            end_lon: get_opt_real(&cells[33]),
            cloud_uploaded_at: get_opt_integer(&cells[34]),
            cloud_route_id: get_opt_text(&cells[35]),
            source: get_opt_text(&cells[36]),
            external_signature: get_opt_text(&cells[37]),
            tessie_autopilot_percent: get_opt_real(&cells[38]),
            battery_pct_start: get_opt_real(&cells[39]),
            battery_pct_end: get_opt_real(&cells[40]),
            battery_temp_avg: get_opt_real(&cells[41]),
            interior_temp_min: get_opt_real(&cells[42]),
            interior_temp_max: get_opt_real(&cells[43]),
            exterior_temp_avg: get_opt_real(&cells[44]),
            hvac_runtime_s: get_opt_integer(&cells[45]),
            tire_fl_psi: get_opt_real(&cells[46]),
            tire_fr_psi: get_opt_real(&cells[47]),
            tire_rl_psi: get_opt_real(&cells[48]),
            tire_rr_psi: get_opt_real(&cells[49]),
            odometer_mi_start: get_opt_real(&cells[50]),
            odometer_mi_end: get_opt_real(&cells[51]),
            software_version: get_opt_text(&cells[52]),
            location_name_start: get_opt_text(&cells[53]),
            location_name_end: get_opt_text(&cells[54]),
        };
        Ok(row)
    }
}

// ---------------------------------------------------------------------------
// Rows and routes
// ---------------------------------------------------------------------------

/// A run of frames in one gear.
#[derive(Debug, Clone, Copy, PartialEq, Eq, Structural)]
pub struct GearRun {
    pub gear: u8,
    pub frames: u32,
}

/// A route as it stands on the wire. A point is a latitude and a longitude.
#[derive(Debug, Clone, PartialEq, Eq)]
pub struct Route {
    pub file: String,
    pub date: String,
    pub points: Vec<[Real; 2]>,
    pub gear_states: Vec<u8>,
    pub autopilot_states: Vec<u8>,
    pub speeds: Vec<Real32>,
    pub accel_positions: Vec<Real32>,
    pub raw_park_count: u32,
    pub raw_frame_count: u32,
    pub gear_runs: Vec<GearRun>,
    pub source: Option<String>,
    pub external_signature: Option<String>,
    pub tessie_autopilot_percent: Option<Real>,
    pub battery_pct_start: Option<Real>,
    pub battery_pct_end: Option<Real>,
    pub interior_temp_min: Option<Real>,
    pub interior_temp_max: Option<Real>,
    pub exterior_temp_avg: Option<Real>,
    pub hvac_runtime_s: Option<i64>,
    pub tire_fl_psi: Option<Real>,
    pub tire_fr_psi: Option<Real>,
    pub tire_rl_psi: Option<Real>,
    pub tire_rr_psi: Option<Real>,
    pub odometer_mi_start: Option<Real>,
    pub odometer_mi_end: Option<Real>,
    pub location_name_start: Option<String>,
    pub location_name_end: Option<String>,
}

/// What a [`Route`] says.
pub struct RouteView {
    pub file: Seq<char>,
    pub date: Seq<char>,
    pub points: Seq<[Real; 2]>,
    pub gear_states: Seq<u8>,
    pub autopilot_states: Seq<u8>,
    pub speeds: Seq<Real32>,
    pub accel_positions: Seq<Real32>,
    pub raw_park_count: u32,
    pub raw_frame_count: u32,
    pub gear_runs: Seq<GearRun>,
    pub source: Option<Seq<char>>,
    pub external_signature: Option<Seq<char>>,
    pub tessie_autopilot_percent: Option<Real>,
    pub battery_pct_start: Option<Real>,
    pub battery_pct_end: Option<Real>,
    pub interior_temp_min: Option<Real>,
    pub interior_temp_max: Option<Real>,
    pub exterior_temp_avg: Option<Real>,
    pub hvac_runtime_s: Option<i64>,
    pub tire_fl_psi: Option<Real>,
    pub tire_fr_psi: Option<Real>,
    pub tire_rl_psi: Option<Real>,
    pub tire_rr_psi: Option<Real>,
    pub odometer_mi_start: Option<Real>,
    pub odometer_mi_end: Option<Real>,
    pub location_name_start: Option<Seq<char>>,
    pub location_name_end: Option<Seq<char>>,
}

impl View for Route {
    type V = RouteView;

    open spec fn view(&self) -> RouteView {
        RouteView {
            file: self.file@,
            date: self.date@,
            points: self.points@,
            gear_states: self.gear_states@,
            autopilot_states: self.autopilot_states@,
            speeds: self.speeds@,
            accel_positions: self.accel_positions@,
            raw_park_count: self.raw_park_count,
            raw_frame_count: self.raw_frame_count,
            gear_runs: self.gear_runs@,
            source: text_of(self.source),
            external_signature: text_of(self.external_signature),
            tessie_autopilot_percent: self.tessie_autopilot_percent,
            battery_pct_start: self.battery_pct_start,
            battery_pct_end: self.battery_pct_end,
            interior_temp_min: self.interior_temp_min,
            interior_temp_max: self.interior_temp_max,
            exterior_temp_avg: self.exterior_temp_avg,
            hvac_runtime_s: self.hvac_runtime_s,
            tire_fl_psi: self.tire_fl_psi,
            tire_fr_psi: self.tire_fr_psi,
            tire_rl_psi: self.tire_rl_psi,
            tire_rr_psi: self.tire_rr_psi,
            odometer_mi_start: self.odometer_mi_start,
            odometer_mi_end: self.odometer_mi_end,
            location_name_start: text_of(self.location_name_start),
            location_name_end: text_of(self.location_name_end),
        }
    }
}

/// What was computed over a route.
#[derive(Debug, Clone, Copy, PartialEq, Eq)]
pub struct RouteAggregates {
    pub distance_m: Real,
    pub max_speed_mps: Real,
    pub avg_speed_mps: Real,
    pub speed_sample_count: i64,
    pub valid_point_count: i64,
    pub fsd_engaged_ms: i64,
    pub autosteer_engaged_ms: i64,
    pub tacc_engaged_ms: i64,
    pub fsd_distance_m: Real,
    pub autosteer_distance_m: Real,
    pub tacc_distance_m: Real,
    pub assisted_distance_m: Real,
    pub fsd_disengagements: u32,
    pub fsd_accel_pushes: u32,
    pub start_lat: Option<Real>,
    pub start_lng: Option<Real>,
    pub end_lat: Option<Real>,
    pub end_lng: Option<Real>,
}

/// What came of decoding the BLOBs of a row: their contents, `None` where there
/// was no BLOB, or why they cannot be decoded. The state BLOBs are bytes and
/// always decode.
pub struct DecodedBlobs {
    pub points: Result<Option<Vec<[Real; 2]>>, String>,
    pub gear_states: Option<Vec<u8>>,
    pub ap_states: Option<Vec<u8>>,
    pub speeds: Result<Option<Vec<Real32>>, String>,
    pub accel: Result<Option<Vec<Real32>>, String>,
    pub gear_runs: Result<Option<Vec<GearRun>>, String>,
}

/// The BLOBs of a route, encoded.
pub struct EncodedBlobs {
    pub points: Option<Vec<u8>>,
    pub gear_states: Option<Vec<u8>>,
    pub ap_states: Option<Vec<u8>>,
    pub speeds: Option<Vec<u8>>,
    pub accel: Option<Vec<u8>>,
    pub gear_runs: Option<Vec<u8>>,
}

/// The bytes of the BLOBs.
pub struct BlobsView {
    pub points: Option<Seq<u8>>,
    pub gear_states: Option<Seq<u8>>,
    pub ap_states: Option<Seq<u8>>,
    pub speeds: Option<Seq<u8>>,
    pub accel: Option<Seq<u8>>,
    pub gear_runs: Option<Seq<u8>>,
}

impl View for EncodedBlobs {
    type V = BlobsView;

    open spec fn view(&self) -> BlobsView {
        BlobsView {
            points: blob_of(self.points),
            gear_states: blob_of(self.gear_states),
            ap_states: blob_of(self.ap_states),
            speeds: blob_of(self.speeds),
            accel: blob_of(self.accel),
            gear_runs: blob_of(self.gear_runs),
        }
    }
}

impl RouteRow {
    /// The bytes of the row's BLOBs.
    pub open spec fn blobs(&self) -> BlobsView {
        BlobsView {
            points: blob_of(self.points_blob),
            gear_states: blob_of(self.gear_states_blob),
            ap_states: blob_of(self.ap_states_blob),
            speeds: blob_of(self.speeds_blob),
            accel: blob_of(self.accel_blob),
            gear_runs: blob_of(self.gear_runs_blob),
        }
    }
}

/// Why a row is no route: what was being done, and what went wrong.
#[derive(Debug, Clone, PartialEq, Eq)]
pub struct DecodeError {
    pub context: String,
    pub cause: String,
}

/// What there is, or nothing.
pub open spec fn or_empty<T>(v: Option<Vec<T>>) -> Seq<T> {
    match v {
        Some(x) => x@,
        None => Seq::empty(),
    }
}

/// The first of the BLOBs that cannot be decoded, and why.
pub open spec fn decode_fault(blobs: DecodedBlobs) -> Option<(Seq<char>, Seq<char>)> {
    match (blobs.points, blobs.speeds, blobs.accel, blobs.gear_runs) {
        (Err(e), _, _, _) => Some(("points"@, e@)),
        (_, Err(e), _, _) => Some(("speeds"@, e@)),
        (_, _, Err(e), _) => Some(("accel"@, e@)),
        (_, _, _, Err(e)) => Some(("gear_runs"@, e@)),
        _ => None,
    }
}

/// The route of a row whose BLOBs could be decoded. The aggregates and the
/// bookkeeping of the row are no part of it.
pub open spec fn route_of(row: RouteRow, blobs: DecodedBlobs) -> RouteView {
    RouteView {
        file: row.file@,
        date: row.date_dir@,
        points: or_empty(blobs.points->Ok_0),
        gear_states: or_empty(blobs.gear_states),
        autopilot_states: or_empty(blobs.ap_states),
        speeds: or_empty(blobs.speeds->Ok_0),
        accel_positions: or_empty(blobs.accel->Ok_0),
        raw_park_count: row.raw_park_count as u32,
        raw_frame_count: row.raw_frame_count as u32,
        gear_runs: or_empty(blobs.gear_runs->Ok_0),
        source: text_of(row.source),
        external_signature: text_of(row.external_signature),
        tessie_autopilot_percent: row.tessie_autopilot_percent,
        battery_pct_start: row.battery_pct_start,
        battery_pct_end: row.battery_pct_end,
        interior_temp_min: row.interior_temp_min,
        interior_temp_max: row.interior_temp_max,
        exterior_temp_avg: row.exterior_temp_avg,
        hvac_runtime_s: row.hvac_runtime_s,
        tire_fl_psi: row.tire_fl_psi,
        tire_fr_psi: row.tire_fr_psi,
        tire_rl_psi: row.tire_rl_psi,
        tire_rr_psi: row.tire_rr_psi,
        odometer_mi_start: row.odometer_mi_start,
        odometer_mi_end: row.odometer_mi_end,
        location_name_start: text_of(row.location_name_start),
        location_name_end: text_of(row.location_name_end),
    }
}

fn items_or_none<T>(v: Option<Vec<T>>) -> (res: Vec<T>)
    ensures
        res@ == or_empty(v),
{
    match v {
        Some(x) => x,
        None => Vec::new(),
    }
}

fn copy_text(v: &Option<String>) -> (res: Option<String>)
    ensures
        text_of(res) == text_of(*v),
{
    match v {
        Some(s) => Some(s.clone()),
        None => None,
    }
}

fn decode_error(what: &str, file: &str, cause: String) -> (res: DecodeError)
    ensures
        res.context@ == "decode "@ + what@ + " "@ + file@,
        res.cause@ == cause@,
{
    DecodeError {
        context: text::cat(&text::cat(&text::cat("decode ", what), " "), file),
        cause,
    }
}

/// A coordinate of the first point, if there is one.
pub open spec fn first_coordinate(points: Seq<[Real; 2]>, axis: int) -> Option<Real> {
    if points.len() > 0 {
        Some(points[0]@[axis])
    } else {
        None
    }
}

/// The values of the row that stands for a route: the columns that the table
/// was created with.
pub open spec fn first_params_of(
    r: RouteView,
    a: RouteAggregates,
    file: Seq<char>,
    blobs: EncodedBlobs,
    now: i64,
) -> Seq<ParamView> {
    seq![
        ParamView::Text(file),
        ParamView::Text(r.date),
        ParamView::Integer(r.points.len() as i64),
        ParamView::Integer(r.raw_park_count as i64),
        ParamView::Integer(r.raw_frame_count as i64),
        ParamView::Null,
        ParamView::Null,
        ParamView::Real(a.distance_m),
        real_param(first_coordinate(r.points, 0)),
        real_param(first_coordinate(r.points, 1)),
        blob_param(blob_of(blobs.points)),
        blob_param(blob_of(blobs.gear_states)),
        blob_param(blob_of(blobs.ap_states)),
        blob_param(blob_of(blobs.speeds)),
        blob_param(blob_of(blobs.accel)),
        blob_param(blob_of(blobs.gear_runs)),
        ParamView::Integer(now),
    ]
}

/// The values of the row that stands for a route: the aggregate columns.
pub open spec fn aggregate_params_of(a: RouteAggregates) -> Seq<ParamView> {
    seq![
        ParamView::Real(a.max_speed_mps),
        ParamView::Real(a.avg_speed_mps),
        ParamView::Integer(a.speed_sample_count),
        ParamView::Integer(a.valid_point_count),
        ParamView::Integer(a.fsd_engaged_ms),
        ParamView::Integer(a.autosteer_engaged_ms),
        ParamView::Integer(a.tacc_engaged_ms),
        ParamView::Real(a.fsd_distance_m),
        ParamView::Real(a.autosteer_distance_m),
        ParamView::Real(a.tacc_distance_m),
        ParamView::Real(a.assisted_distance_m),
        ParamView::Integer(a.fsd_disengagements as i64),
        ParamView::Integer(a.fsd_accel_pushes as i64),
        real_param(a.start_lat),
        real_param(a.start_lng),
        real_param(a.end_lat),
        real_param(a.end_lng),
    ]
}

/// The values of the row that stands for a route: the columns that were
/// appended after those. The bookkeeping of uploads starts out NULL.
pub open spec fn later_params_of(r: RouteView) -> Seq<ParamView> {
    seq![
        ParamView::Null,
        ParamView::Null,
        text_param(r.source),
        text_param(r.external_signature),
        real_param(r.tessie_autopilot_percent),
        real_param(r.battery_pct_start),
        real_param(r.battery_pct_end),
        ParamView::Null,
        real_param(r.interior_temp_min),
        real_param(r.interior_temp_max),
        real_param(r.exterior_temp_avg),
        int_param(r.hvac_runtime_s),
        real_param(r.tire_fl_psi),
        real_param(r.tire_fr_psi),
        real_param(r.tire_rl_psi),
        real_param(r.tire_rr_psi),
        real_param(r.odometer_mi_start),
        real_param(r.odometer_mi_end),
        ParamView::Null,
        text_param(r.location_name_start),
        text_param(r.location_name_end),
    ]
}

/// The values of the row that stands for a route.
pub open spec fn params_of(
    r: RouteView,
    a: RouteAggregates,
    file: Seq<char>,
    blobs: EncodedBlobs,
    now: i64,
) -> Seq<ParamView> {
    first_params_of(r, a, file, blobs, now) + aggregate_params_of(a) + later_params_of(r)
}

/// What a row with these decoded BLOBs turns into.
pub open spec fn turns_into(
    row: RouteRow,
    blobs: DecodedBlobs,
    res: Result<Route, DecodeError>,
) -> bool {
    match decode_fault(blobs) {
        Some((what, cause)) => res matches Err(e) && e.context@ == "decode "@ + what + " "@
            + row.file@ && e.cause@ == cause,
        None => res matches Ok(route) && route@ == route_of(row, blobs),
    }
}

impl RouteRow {
    /// Turn a row into a route, given what its BLOBs decode to.
    pub fn to_route(&self, blobs: DecodedBlobs) -> (res: Result<Route, DecodeError>)
        ensures
            turns_into(*self, blobs, res),
    {
        let points = match blobs.points {
            Ok(v) => v,
            Err(e) => {
                return Err(decode_error("points", &self.file, e));
            },
        };
        let speeds = match blobs.speeds {
            Ok(v) => v,
            Err(e) => {
                return Err(decode_error("speeds", &self.file, e));
            },
        };
        let accel = match blobs.accel {
            Ok(v) => v,
            Err(e) => {
                return Err(decode_error("accel", &self.file, e));
            },
        };
        let gear_runs = match blobs.gear_runs {
            Ok(v) => v,
            Err(e) => {
                return Err(decode_error("gear_runs", &self.file, e));
            },
        };
        Ok(
            Route {
                file: self.file.clone(),
                date: self.date_dir.clone(),
                points: items_or_none(points),
                gear_states: items_or_none(blobs.gear_states),
                autopilot_states: items_or_none(blobs.ap_states),
                speeds: items_or_none(speeds),
                accel_positions: items_or_none(accel),
                raw_park_count: self.raw_park_count as u32,
                raw_frame_count: self.raw_frame_count as u32,
                gear_runs: items_or_none(gear_runs),
                source: copy_text(&self.source),
                external_signature: copy_text(&self.external_signature),
                tessie_autopilot_percent: self.tessie_autopilot_percent,
                battery_pct_start: self.battery_pct_start,
                battery_pct_end: self.battery_pct_end,
                interior_temp_min: self.interior_temp_min,
                interior_temp_max: self.interior_temp_max,
                exterior_temp_avg: self.exterior_temp_avg,
                hvac_runtime_s: self.hvac_runtime_s,
                tire_fl_psi: self.tire_fl_psi,
                tire_fr_psi: self.tire_fr_psi,
                tire_rl_psi: self.tire_rl_psi,
                tire_rr_psi: self.tire_rr_psi,
                odometer_mi_start: self.odometer_mi_start,
                odometer_mi_end: self.odometer_mi_end,
                location_name_start: copy_text(&self.location_name_start),
                location_name_end: copy_text(&self.location_name_end),
            },
        )
    }

    /// Build the row of a route from its aggregates, its normalized file name,
    /// its encoded BLOBs and the time in seconds since the epoch.
    pub fn from_route(
        r: &Route,
        a: &RouteAggregates,
        file: String,
        blobs: EncodedBlobs,
        now: i64,
    ) -> (res: RouteRow)
        ensures
            res.params() == params_of(r@, *a, file@, blobs, now),
    {
        let (first_lat, first_lon) = if r.points.len() > 0 {
            let p = r.points[0];
            (Some(p[0]), Some(p[1]))
        } else {
            (None, None)
        };
        let row = RouteRow {
            file: file,
            date_dir: r.date.clone(),
            point_count: r.points.len() as i64,
            raw_park_count: r.raw_park_count as i64,
            raw_frame_count: r.raw_frame_count as i64,
            start_ts: None,
            end_ts: None,
            distance_m: a.distance_m,
            first_lat: first_lat,
            first_lon: first_lon,
            points_blob: blobs.points,
            gear_states_blob: blobs.gear_states,
            ap_states_blob: blobs.ap_states,
            speeds_blob: blobs.speeds,
            accel_blob: blobs.accel,
            gear_runs_blob: blobs.gear_runs,
            updated_at: now,
            max_speed_mps: Some(a.max_speed_mps),
            avg_speed_mps: Some(a.avg_speed_mps),
            speed_sample_count: Some(a.speed_sample_count),
            valid_point_count: Some(a.valid_point_count),
            fsd_engaged_ms: Some(a.fsd_engaged_ms),
            autosteer_engaged_ms: Some(a.autosteer_engaged_ms),
            tacc_engaged_ms: Some(a.tacc_engaged_ms),
            fsd_distance_m: Some(a.fsd_distance_m),
            autosteer_distance_m: Some(a.autosteer_distance_m),
            tacc_distance_m: Some(a.tacc_distance_m),
            assisted_distance_m: Some(a.assisted_distance_m),
            fsd_disengagements: Some(a.fsd_disengagements as i64),
            fsd_accel_pushes: Some(a.fsd_accel_pushes as i64),
            start_lat: a.start_lat,
            start_lon: a.start_lng,
            end_lat: a.end_lat,
            end_lon: a.end_lng,
            cloud_uploaded_at: None,
            cloud_route_id: None,
            source: copy_text(&r.source),
            external_signature: copy_text(&r.external_signature),
            tessie_autopilot_percent: r.tessie_autopilot_percent,
            battery_pct_start: r.battery_pct_start,
            battery_pct_end: r.battery_pct_end,
            battery_temp_avg: None,
            interior_temp_min: r.interior_temp_min,
            interior_temp_max: r.interior_temp_max,
            exterior_temp_avg: r.exterior_temp_avg,
            hvac_runtime_s: r.hvac_runtime_s,
            tire_fl_psi: r.tire_fl_psi,
            tire_fr_psi: r.tire_fr_psi,
            tire_rl_psi: r.tire_rl_psi,
            tire_rr_psi: r.tire_rr_psi,
            odometer_mi_start: r.odometer_mi_start,
            odometer_mi_end: r.odometer_mi_end,
            software_version: None,
            location_name_start: copy_text(&r.location_name_start),
            location_name_end: copy_text(&r.location_name_end),
        };
        assert(row.first_params() =~= first_params_of(r@, *a, file@, blobs, now));
        assert(row.aggregate_params() =~= aggregate_params_of(*a));
        assert(row.later_params() =~= later_params_of(r@));
        row
    }
}

// ---------------------------------------------------------------------------
// Laws
// ---------------------------------------------------------------------------

/// The rows agree on the columns that the table was created with.
pub open spec fn same_first(a: RouteRow, b: RouteRow) -> bool {
    &&& a.file@ == b.file@
    &&& a.date_dir@ == b.date_dir@
    &&& a.point_count == b.point_count
    &&& a.raw_park_count == b.raw_park_count
    &&& a.raw_frame_count == b.raw_frame_count
    &&& a.start_ts == b.start_ts
    &&& a.end_ts == b.end_ts
    &&& a.distance_m == b.distance_m
    &&& a.first_lat == b.first_lat
    &&& a.first_lon == b.first_lon
    &&& blob_of(a.points_blob) == blob_of(b.points_blob)
    &&& blob_of(a.gear_states_blob) == blob_of(b.gear_states_blob)
    &&& blob_of(a.ap_states_blob) == blob_of(b.ap_states_blob)
    &&& blob_of(a.speeds_blob) == blob_of(b.speeds_blob)
    &&& blob_of(a.accel_blob) == blob_of(b.accel_blob)
    &&& blob_of(a.gear_runs_blob) == blob_of(b.gear_runs_blob)
    &&& a.updated_at == b.updated_at
}

/// The rows agree on the aggregate columns.
pub open spec fn same_aggregates(a: RouteRow, b: RouteRow) -> bool {
    &&& a.max_speed_mps == b.max_speed_mps
    &&& a.avg_speed_mps == b.avg_speed_mps
    &&& a.speed_sample_count == b.speed_sample_count
    &&& a.valid_point_count == b.valid_point_count
    &&& a.fsd_engaged_ms == b.fsd_engaged_ms
    &&& a.autosteer_engaged_ms == b.autosteer_engaged_ms
    &&& a.tacc_engaged_ms == b.tacc_engaged_ms
    &&& a.fsd_distance_m == b.fsd_distance_m
    &&& a.autosteer_distance_m == b.autosteer_distance_m
    &&& a.tacc_distance_m == b.tacc_distance_m
    &&& a.assisted_distance_m == b.assisted_distance_m
    &&& a.fsd_disengagements == b.fsd_disengagements
    &&& a.fsd_accel_pushes == b.fsd_accel_pushes
    &&& a.start_lat == b.start_lat
    &&& a.start_lon == b.start_lon
    &&& a.end_lat == b.end_lat
    &&& a.end_lon == b.end_lon
}

/// The rows agree on the columns that were appended after those.
pub open spec fn same_later(a: RouteRow, b: RouteRow) -> bool {
    &&& a.cloud_uploaded_at == b.cloud_uploaded_at
    &&& text_of(a.cloud_route_id) == text_of(b.cloud_route_id)
    &&& text_of(a.source) == text_of(b.source)
    &&& text_of(a.external_signature) == text_of(b.external_signature)
    &&& a.tessie_autopilot_percent == b.tessie_autopilot_percent
    &&& a.battery_pct_start == b.battery_pct_start
    &&& a.battery_pct_end == b.battery_pct_end
    &&& a.battery_temp_avg == b.battery_temp_avg
    &&& a.interior_temp_min == b.interior_temp_min
    &&& a.interior_temp_max == b.interior_temp_max
    &&& a.exterior_temp_avg == b.exterior_temp_avg
    &&& a.hvac_runtime_s == b.hvac_runtime_s
    &&& a.tire_fl_psi == b.tire_fl_psi
    &&& a.tire_fr_psi == b.tire_fr_psi
    &&& a.tire_rl_psi == b.tire_rl_psi
    &&& a.tire_rr_psi == b.tire_rr_psi
    &&& a.odometer_mi_start == b.odometer_mi_start
    &&& a.odometer_mi_end == b.odometer_mi_end
    &&& text_of(a.software_version) == text_of(b.software_version)
    &&& text_of(a.location_name_start) == text_of(b.location_name_start)
    &&& text_of(a.location_name_end) == text_of(b.location_name_end)
}

proof fn lemma_same_first(a: RouteRow, b: RouteRow)
    requires
        a.first_params() == b.first_params(),
    ensures
        same_first(a, b),
{
    assert(a.first_params()[0] == b.first_params()[0]);
    assert(a.first_params()[1] == b.first_params()[1]);
    assert(a.first_params()[2] == b.first_params()[2]);
    assert(a.first_params()[3] == b.first_params()[3]);
    assert(a.first_params()[4] == b.first_params()[4]);
    assert(a.first_params()[5] == b.first_params()[5]);
    assert(a.first_params()[6] == b.first_params()[6]);
    assert(a.first_params()[7] == b.first_params()[7]);
    assert(a.first_params()[8] == b.first_params()[8]);
    assert(a.first_params()[9] == b.first_params()[9]);
    assert(a.first_params()[10] == b.first_params()[10]);
    assert(a.first_params()[11] == b.first_params()[11]);
    assert(a.first_params()[12] == b.first_params()[12]);
    assert(a.first_params()[13] == b.first_params()[13]);
    assert(a.first_params()[14] == b.first_params()[14]);
    assert(a.first_params()[15] == b.first_params()[15]);
    assert(a.first_params()[16] == b.first_params()[16]);
}

proof fn lemma_same_aggregates(a: RouteRow, b: RouteRow)
    requires
        a.aggregate_params() == b.aggregate_params(),
    ensures
        same_aggregates(a, b),
{
    assert(a.aggregate_params()[0] == b.aggregate_params()[0]);
    assert(a.aggregate_params()[1] == b.aggregate_params()[1]);
    assert(a.aggregate_params()[2] == b.aggregate_params()[2]);
    assert(a.aggregate_params()[3] == b.aggregate_params()[3]);
    assert(a.aggregate_params()[4] == b.aggregate_params()[4]);
    assert(a.aggregate_params()[5] == b.aggregate_params()[5]);
    assert(a.aggregate_params()[6] == b.aggregate_params()[6]);
    assert(a.aggregate_params()[7] == b.aggregate_params()[7]);
    assert(a.aggregate_params()[8] == b.aggregate_params()[8]);
    assert(a.aggregate_params()[9] == b.aggregate_params()[9]);
    assert(a.aggregate_params()[10] == b.aggregate_params()[10]);
    assert(a.aggregate_params()[11] == b.aggregate_params()[11]);
    assert(a.aggregate_params()[12] == b.aggregate_params()[12]);
    assert(a.aggregate_params()[13] == b.aggregate_params()[13]);
    assert(a.aggregate_params()[14] == b.aggregate_params()[14]);
    assert(a.aggregate_params()[15] == b.aggregate_params()[15]);
    assert(a.aggregate_params()[16] == b.aggregate_params()[16]);
}

proof fn lemma_same_later(a: RouteRow, b: RouteRow)
    requires
        a.later_params() == b.later_params(),
    ensures
        same_later(a, b),
{
    assert(a.later_params()[0] == b.later_params()[0]);
    assert(a.later_params()[1] == b.later_params()[1]);
    assert(a.later_params()[2] == b.later_params()[2]);
    assert(a.later_params()[3] == b.later_params()[3]);
    assert(a.later_params()[4] == b.later_params()[4]);
    assert(a.later_params()[5] == b.later_params()[5]);
    assert(a.later_params()[6] == b.later_params()[6]);
    assert(a.later_params()[7] == b.later_params()[7]);
    assert(a.later_params()[8] == b.later_params()[8]);
    assert(a.later_params()[9] == b.later_params()[9]);
    assert(a.later_params()[10] == b.later_params()[10]);
    assert(a.later_params()[11] == b.later_params()[11]);
    assert(a.later_params()[12] == b.later_params()[12]);
    assert(a.later_params()[13] == b.later_params()[13]);
    assert(a.later_params()[14] == b.later_params()[14]);
    assert(a.later_params()[15] == b.later_params()[15]);
    assert(a.later_params()[16] == b.later_params()[16]);
    assert(a.later_params()[17] == b.later_params()[17]);
    assert(a.later_params()[18] == b.later_params()[18]);
    assert(a.later_params()[19] == b.later_params()[19]);
    assert(a.later_params()[20] == b.later_params()[20]);
}

/// Two rows with the same values agree on every field: the values that are
/// written leave nothing out.
pub proof fn law_values_tell_rows_apart(a: RouteRow, b: RouteRow)
    requires
        a.params() == b.params(),
    ensures
        same_first(a, b),
        same_aggregates(a, b),
        same_later(a, b),
{
    let (x, y) = (a.params(), b.params());
    assert(x.subrange(0, 17) =~= a.first_params());
    assert(y.subrange(0, 17) =~= b.first_params());
    assert(x.subrange(17, 34) =~= a.aggregate_params());
    assert(y.subrange(17, 34) =~= b.aggregate_params());
    assert(x.subrange(34, 55) =~= a.later_params());
    assert(y.subrange(34, 55) =~= b.later_params());
    lemma_same_first(a, b);
    lemma_same_aggregates(a, b);
    lemma_same_later(a, b);
}

/// The cell is what a column gives back of a parameter that was written to it.
pub open spec fn stores(cell: SqlCell, param: ParamView) -> bool {
    match param {
        ParamView::Null => cell is Null,
        ParamView::Integer(n) => cell matches SqlCell::Integer { value, .. } && value == n,
        ParamView::Real(r) => cell matches SqlCell::Real(x) && x == r,
        ParamView::Text(s) => cell matches SqlCell::Text(x) && x@ == s,
        ParamView::Blob(b) => cell matches SqlCell::Blob(x) && x@ == b,
    }
}

proof fn lemma_columns_take_their_values(row: RouteRow, i: int, cell: SqlCell)
    requires
        0 <= i < 55,
        stores(cell, row.params()[i]),
    ensures
        read_as(COLUMN_KINDS@[i], cell) == Some(row.params()[i]),
{
    if i < 17 {
        assert(row.params()[i] == row.first_params()[i]);
    } else if i < 34 {
        assert(row.params()[i] == row.aggregate_params()[i - 17]);
    } else {
        assert(row.params()[i] == row.later_params()[i - 34]);
    }
}

/// Reading a row back from what its columns store succeeds, and gives a row
/// with the same value in every column.
pub proof fn law_written_row_reads_back(row: RouteRow, cells: Seq<SqlCell>)
    requires
        cells.len() == 55,
        forall|i: int| 0 <= i < 55 ==> stores(#[trigger] cells[i], row.params()[i]),
    ensures
        forall|i: int| 0 <= i < 55 ==> (#[trigger] fault_at(cells, i)) is None,
        forall|back: RouteRow| #[trigger]
            row_reads(back, cells) ==> back.params() == row.params() && same_first(back, row)
                && same_aggregates(back, row) && same_later(back, row),
{
    assert forall|i: int| 0 <= i < 55 implies (#[trigger] fault_at(cells, i)) is None by {
        lemma_columns_take_their_values(row, i, cells[i]);
    }
    assert forall|back: RouteRow| #[trigger] row_reads(back, cells) implies back.params()
        == row.params() && same_first(back, row) && same_aggregates(back, row) && same_later(
        back,
        row,
    ) by {
        assert forall|i: int| 0 <= i < 55 implies back.params()[i] == row.params()[i] by {
            lemma_columns_take_their_values(row, i, cells[i]);
        }
        assert(back.params() =~= row.params());
        law_values_tell_rows_apart(back, row);
    }
}

/// The decoded BLOBs are those of the route.
pub open spec fn decodes_to(blobs: DecodedBlobs, r: RouteView) -> bool {
    &&& blobs.points matches Ok(v) && or_empty(v) == r.points
    &&& or_empty(blobs.gear_states) == r.gear_states
    &&& or_empty(blobs.ap_states) == r.autopilot_states
    &&& blobs.speeds matches Ok(v) && or_empty(v) == r.speeds
    &&& blobs.accel matches Ok(v) && or_empty(v) == r.accel_positions
    &&& blobs.gear_runs matches Ok(v) && or_empty(v) == r.gear_runs
}

/// What the columns of a route's row hold that the route is read from.
pub proof fn lemma_row_holds_the_route(
    r: RouteView,
    a: RouteAggregates,
    file: Seq<char>,
    encoded: EncodedBlobs,
    now: i64,
    row: RouteRow,
    blobs: DecodedBlobs,
)
    requires
        row.params() == params_of(r, a, file, encoded, now),
    ensures
        row.blobs() == encoded@,
        route_of(row, blobs) == (RouteView {
            file,
            points: or_empty(blobs.points->Ok_0),
            gear_states: or_empty(blobs.gear_states),
            autopilot_states: or_empty(blobs.ap_states),
            speeds: or_empty(blobs.speeds->Ok_0),
            accel_positions: or_empty(blobs.accel->Ok_0),
            gear_runs: or_empty(blobs.gear_runs->Ok_0),
            ..r
        }),
{
    let x = row.params();
    let first = first_params_of(r, a, file, encoded, now);
    let later = later_params_of(r);
    assert(x.subrange(0, 17) =~= row.first_params());
    assert(x.subrange(0, 17) =~= first);
    assert(x.subrange(34, 55) =~= row.later_params());
    assert(x.subrange(34, 55) =~= later);
    assert(row.first_params()[0] == first[0]);
    assert(row.first_params()[1] == first[1]);
    assert(row.first_params()[3] == first[3]);
    assert(row.first_params()[4] == first[4]);
    assert(row.first_params()[10] == first[10]);
    assert(row.first_params()[11] == first[11]);
    assert(row.first_params()[12] == first[12]);
    assert(row.first_params()[13] == first[13]);
    assert(row.first_params()[14] == first[14]);
    assert(row.first_params()[15] == first[15]);
    assert(row.later_params()[2] == later[2]);
    assert(row.later_params()[3] == later[3]);
    assert(row.later_params()[4] == later[4]);
    assert(row.later_params()[5] == later[5]);
    assert(row.later_params()[6] == later[6]);
    assert(row.later_params()[8] == later[8]);
    assert(row.later_params()[9] == later[9]);
    assert(row.later_params()[10] == later[10]);
    assert(row.later_params()[11] == later[11]);
    assert(row.later_params()[12] == later[12]);
    assert(row.later_params()[13] == later[13]);
    assert(row.later_params()[14] == later[14]);
    assert(row.later_params()[15] == later[15]);
    assert(row.later_params()[16] == later[16]);
    assert(row.later_params()[17] == later[17]);
    assert(row.later_params()[19] == later[19]);
    assert(row.later_params()[20] == later[20]);
}

/// A route survives being made a row and read again, whatever the coding of the
/// BLOBs: where `decode` undoes the coding of this route's BLOBs, reading the
/// BLOBs that the row holds succeeds and gives the route, with its normalized
/// file name. The aggregates and the time have no part in it.
pub proof fn law_route_survives_its_row(
    r: RouteView,
    a: RouteAggregates,
    file: Seq<char>,
    encoded: EncodedBlobs,
    now: i64,
    row: RouteRow,
    decode: spec_fn(BlobsView) -> DecodedBlobs,
)
    requires
        row.params() == params_of(r, a, file, encoded, now),
        decodes_to(decode(encoded@), r),
    ensures
        decode_fault(decode(row.blobs())) is None,
        route_of(row, decode(row.blobs())) == (RouteView { file, ..r }),
{
    lemma_row_holds_the_route(r, a, file, encoded, now, row, decode(encoded@));
}

/// The aggregates and the time that a row is made with leave no trace in the
/// route that is read from it: two rows of one route hold the same BLOBs, and
/// give the same route whatever those decode to.
pub proof fn law_aggregates_leave_no_trace(
    r: RouteView,
    a: RouteAggregates,
    b: RouteAggregates,
    file: Seq<char>,
    encoded: EncodedBlobs,
    before: i64,
    now: i64,
    x: RouteRow,
    y: RouteRow,
    blobs: DecodedBlobs,
)
    requires
        x.params() == params_of(r, a, file, encoded, before),
        y.params() == params_of(r, b, file, encoded, now),
    ensures
        x.blobs() == y.blobs(),
        route_of(x, blobs) == route_of(y, blobs),
{
    lemma_row_holds_the_route(r, a, file, encoded, before, x, blobs);
    lemma_row_holds_the_route(r, b, file, encoded, now, y, blobs);
}

/// The cell holds this text.
pub open spec fn holds_text(cell: SqlCell, v: Seq<char>) -> bool {
    cell matches SqlCell::Text(s) && s@ == v
}

/// The cell holds this integer.
pub open spec fn holds_integer(cell: SqlCell, v: i64) -> bool {
    cell matches SqlCell::Integer { value, .. } && value == v
}

/// The cell holds this floating-point number, or an integer that stands for it.
pub open spec fn holds_real(cell: SqlCell, v: Real) -> bool {
    ||| (cell matches SqlCell::Real(r) && r == v)
    ||| (cell matches SqlCell::Integer { as_real, .. } && as_real == v)
}

/// The cell holds this text, or is NULL where there is none.
pub open spec fn holds_opt_text(cell: SqlCell, v: Option<String>) -> bool {
    match v {
        Some(s) => holds_text(cell, s@),
        None => cell is Null,
    }
}

/// The cell holds this integer, or is NULL where there is none.
pub open spec fn holds_opt_integer(cell: SqlCell, v: Option<i64>) -> bool {
    match v {
        Some(n) => holds_integer(cell, n),
        None => cell is Null,
    }
}

/// The cell holds this floating-point number, or is NULL where there is none.
pub open spec fn holds_opt_real(cell: SqlCell, v: Option<Real>) -> bool {
    match v {
        Some(r) => holds_real(cell, r),
        None => cell is Null,
    }
}

/// The cell holds these bytes, or is NULL where there are none.
pub open spec fn holds_opt_blob(cell: SqlCell, v: Option<Vec<u8>>) -> bool {
    match v {
        Some(b) => cell matches SqlCell::Blob(x) && x@ == b@,
        None => cell is Null,
    }
}

proof fn lemma_cells_fill_first(row: RouteRow, cells: Seq<SqlCell>)
    requires
        row_reads(row, cells),
    ensures
        holds_text(cells[0], row.file@),
        holds_text(cells[1], row.date_dir@),
        holds_integer(cells[2], row.point_count),
        holds_integer(cells[3], row.raw_park_count),
        holds_integer(cells[4], row.raw_frame_count),
        holds_opt_integer(cells[5], row.start_ts),
        holds_opt_integer(cells[6], row.end_ts),
        holds_real(cells[7], row.distance_m),
        holds_opt_real(cells[8], row.first_lat),
        holds_opt_real(cells[9], row.first_lon),
        holds_opt_blob(cells[10], row.points_blob),
        holds_opt_blob(cells[11], row.gear_states_blob),
        holds_opt_blob(cells[12], row.ap_states_blob),
        holds_opt_blob(cells[13], row.speeds_blob),
        holds_opt_blob(cells[14], row.accel_blob),
        holds_opt_blob(cells[15], row.gear_runs_blob),
        holds_integer(cells[16], row.updated_at),
{
    assert(row.params()[0] == row.first_params()[0]);
    assert(row.params()[1] == row.first_params()[1]);
    assert(row.params()[2] == row.first_params()[2]);
    assert(row.params()[3] == row.first_params()[3]);
    assert(row.params()[4] == row.first_params()[4]);
    assert(row.params()[5] == row.first_params()[5]);
    assert(row.params()[6] == row.first_params()[6]);
    assert(row.params()[7] == row.first_params()[7]);
    assert(row.params()[8] == row.first_params()[8]);
    assert(row.params()[9] == row.first_params()[9]);
    assert(row.params()[10] == row.first_params()[10]);
    assert(row.params()[11] == row.first_params()[11]);
    assert(row.params()[12] == row.first_params()[12]);
    assert(row.params()[13] == row.first_params()[13]);
    assert(row.params()[14] == row.first_params()[14]);
    assert(row.params()[15] == row.first_params()[15]);
    assert(row.params()[16] == row.first_params()[16]);
    assert(read_as(COLUMN_KINDS@[0], cells[0]) == Some(row.params()[0]));
    assert(read_as(COLUMN_KINDS@[1], cells[1]) == Some(row.params()[1]));
    assert(read_as(COLUMN_KINDS@[2], cells[2]) == Some(row.params()[2]));
    assert(read_as(COLUMN_KINDS@[3], cells[3]) == Some(row.params()[3]));
    assert(read_as(COLUMN_KINDS@[4], cells[4]) == Some(row.params()[4]));
    assert(read_as(COLUMN_KINDS@[5], cells[5]) == Some(row.params()[5]));
    assert(read_as(COLUMN_KINDS@[6], cells[6]) == Some(row.params()[6]));
    assert(read_as(COLUMN_KINDS@[7], cells[7]) == Some(row.params()[7]));
    assert(read_as(COLUMN_KINDS@[8], cells[8]) == Some(row.params()[8]));
    assert(read_as(COLUMN_KINDS@[9], cells[9]) == Some(row.params()[9]));
    assert(read_as(COLUMN_KINDS@[10], cells[10]) == Some(row.params()[10]));
    assert(read_as(COLUMN_KINDS@[11], cells[11]) == Some(row.params()[11]));
    assert(read_as(COLUMN_KINDS@[12], cells[12]) == Some(row.params()[12]));
    assert(read_as(COLUMN_KINDS@[13], cells[13]) == Some(row.params()[13]));
    assert(read_as(COLUMN_KINDS@[14], cells[14]) == Some(row.params()[14]));
    assert(read_as(COLUMN_KINDS@[15], cells[15]) == Some(row.params()[15]));
    assert(read_as(COLUMN_KINDS@[16], cells[16]) == Some(row.params()[16]));
}

proof fn lemma_cells_fill_aggregate(row: RouteRow, cells: Seq<SqlCell>)
    requires
        row_reads(row, cells),
    ensures
        holds_opt_real(cells[17], row.max_speed_mps),
        holds_opt_real(cells[18], row.avg_speed_mps),
        holds_opt_integer(cells[19], row.speed_sample_count),
        holds_opt_integer(cells[20], row.valid_point_count),
        holds_opt_integer(cells[21], row.fsd_engaged_ms),
        holds_opt_integer(cells[22], row.autosteer_engaged_ms),
        holds_opt_integer(cells[23], row.tacc_engaged_ms),
        holds_opt_real(cells[24], row.fsd_distance_m),
        holds_opt_real(cells[25], row.autosteer_distance_m),
        holds_opt_real(cells[26], row.tacc_distance_m),
        holds_opt_real(cells[27], row.assisted_distance_m),
        holds_opt_integer(cells[28], row.fsd_disengagements),
        holds_opt_integer(cells[29], row.fsd_accel_pushes),
        holds_opt_real(cells[30], row.start_lat),
        holds_opt_real(cells[31], row.start_lon),
        holds_opt_real(cells[32], row.end_lat),
        holds_opt_real(cells[33], row.end_lon),
{
    assert(row.params()[17] == row.aggregate_params()[0]);
    assert(row.params()[18] == row.aggregate_params()[1]);
    assert(row.params()[19] == row.aggregate_params()[2]);
    assert(row.params()[20] == row.aggregate_params()[3]);
    assert(row.params()[21] == row.aggregate_params()[4]);
    assert(row.params()[22] == row.aggregate_params()[5]);
    assert(row.params()[23] == row.aggregate_params()[6]);
    assert(row.params()[24] == row.aggregate_params()[7]);
    assert(row.params()[25] == row.aggregate_params()[8]);
    assert(row.params()[26] == row.aggregate_params()[9]);
    assert(row.params()[27] == row.aggregate_params()[10]);
    assert(row.params()[28] == row.aggregate_params()[11]);
    assert(row.params()[29] == row.aggregate_params()[12]);
    assert(row.params()[30] == row.aggregate_params()[13]);
    assert(row.params()[31] == row.aggregate_params()[14]);
    assert(row.params()[32] == row.aggregate_params()[15]);
    assert(row.params()[33] == row.aggregate_params()[16]);
    assert(read_as(COLUMN_KINDS@[17], cells[17]) == Some(row.params()[17]));
    assert(read_as(COLUMN_KINDS@[18], cells[18]) == Some(row.params()[18]));
    assert(read_as(COLUMN_KINDS@[19], cells[19]) == Some(row.params()[19]));
    assert(read_as(COLUMN_KINDS@[20], cells[20]) == Some(row.params()[20]));
    assert(read_as(COLUMN_KINDS@[21], cells[21]) == Some(row.params()[21]));
    assert(read_as(COLUMN_KINDS@[22], cells[22]) == Some(row.params()[22]));
    assert(read_as(COLUMN_KINDS@[23], cells[23]) == Some(row.params()[23]));
    assert(read_as(COLUMN_KINDS@[24], cells[24]) == Some(row.params()[24]));
    assert(read_as(COLUMN_KINDS@[25], cells[25]) == Some(row.params()[25]));
    assert(read_as(COLUMN_KINDS@[26], cells[26]) == Some(row.params()[26]));
    assert(read_as(COLUMN_KINDS@[27], cells[27]) == Some(row.params()[27]));
    assert(read_as(COLUMN_KINDS@[28], cells[28]) == Some(row.params()[28]));
    assert(read_as(COLUMN_KINDS@[29], cells[29]) == Some(row.params()[29]));
    assert(read_as(COLUMN_KINDS@[30], cells[30]) == Some(row.params()[30]));
    assert(read_as(COLUMN_KINDS@[31], cells[31]) == Some(row.params()[31]));
    assert(read_as(COLUMN_KINDS@[32], cells[32]) == Some(row.params()[32]));
    assert(read_as(COLUMN_KINDS@[33], cells[33]) == Some(row.params()[33]));
}

proof fn lemma_cells_fill_later(row: RouteRow, cells: Seq<SqlCell>)
    requires
        row_reads(row, cells),
    ensures
        holds_opt_integer(cells[34], row.cloud_uploaded_at),
        holds_opt_text(cells[35], row.cloud_route_id),
        holds_opt_text(cells[36], row.source),
        holds_opt_text(cells[37], row.external_signature),
        holds_opt_real(cells[38], row.tessie_autopilot_percent),
        holds_opt_real(cells[39], row.battery_pct_start),
        holds_opt_real(cells[40], row.battery_pct_end),
        holds_opt_real(cells[41], row.battery_temp_avg),
        holds_opt_real(cells[42], row.interior_temp_min),
        holds_opt_real(cells[43], row.interior_temp_max),
        holds_opt_real(cells[44], row.exterior_temp_avg),
        holds_opt_integer(cells[45], row.hvac_runtime_s),
        holds_opt_real(cells[46], row.tire_fl_psi),
        holds_opt_real(cells[47], row.tire_fr_psi),
        holds_opt_real(cells[48], row.tire_rl_psi),
        holds_opt_real(cells[49], row.tire_rr_psi),
        holds_opt_real(cells[50], row.odometer_mi_start),
        holds_opt_real(cells[51], row.odometer_mi_end),
        holds_opt_text(cells[52], row.software_version),
        holds_opt_text(cells[53], row.location_name_start),
        holds_opt_text(cells[54], row.location_name_end),
{
    assert(row.params()[34] == row.later_params()[0]);
    assert(row.params()[35] == row.later_params()[1]);
    assert(row.params()[36] == row.later_params()[2]);
    assert(row.params()[37] == row.later_params()[3]);
    assert(row.params()[38] == row.later_params()[4]);
    assert(row.params()[39] == row.later_params()[5]);
    assert(row.params()[40] == row.later_params()[6]);
    assert(row.params()[41] == row.later_params()[7]);
    assert(row.params()[42] == row.later_params()[8]);
    assert(row.params()[43] == row.later_params()[9]);
    assert(row.params()[44] == row.later_params()[10]);
    assert(row.params()[45] == row.later_params()[11]);
    assert(row.params()[46] == row.later_params()[12]);
    assert(row.params()[47] == row.later_params()[13]);
    assert(row.params()[48] == row.later_params()[14]);
    assert(row.params()[49] == row.later_params()[15]);
    assert(row.params()[50] == row.later_params()[16]);
    assert(row.params()[51] == row.later_params()[17]);
    assert(row.params()[52] == row.later_params()[18]);
    assert(row.params()[53] == row.later_params()[19]);
    assert(row.params()[54] == row.later_params()[20]);
    assert(read_as(COLUMN_KINDS@[34], cells[34]) == Some(row.params()[34]));
    assert(read_as(COLUMN_KINDS@[35], cells[35]) == Some(row.params()[35]));
    assert(read_as(COLUMN_KINDS@[36], cells[36]) == Some(row.params()[36]));
    assert(read_as(COLUMN_KINDS@[37], cells[37]) == Some(row.params()[37]));
    assert(read_as(COLUMN_KINDS@[38], cells[38]) == Some(row.params()[38]));
    assert(read_as(COLUMN_KINDS@[39], cells[39]) == Some(row.params()[39]));
    assert(read_as(COLUMN_KINDS@[40], cells[40]) == Some(row.params()[40]));
    assert(read_as(COLUMN_KINDS@[41], cells[41]) == Some(row.params()[41]));
    assert(read_as(COLUMN_KINDS@[42], cells[42]) == Some(row.params()[42]));
    assert(read_as(COLUMN_KINDS@[43], cells[43]) == Some(row.params()[43]));
    assert(read_as(COLUMN_KINDS@[44], cells[44]) == Some(row.params()[44]));
    assert(read_as(COLUMN_KINDS@[45], cells[45]) == Some(row.params()[45]));
    assert(read_as(COLUMN_KINDS@[46], cells[46]) == Some(row.params()[46]));
    assert(read_as(COLUMN_KINDS@[47], cells[47]) == Some(row.params()[47]));
    assert(read_as(COLUMN_KINDS@[48], cells[48]) == Some(row.params()[48]));
    assert(read_as(COLUMN_KINDS@[49], cells[49]) == Some(row.params()[49]));
    assert(read_as(COLUMN_KINDS@[50], cells[50]) == Some(row.params()[50]));
    assert(read_as(COLUMN_KINDS@[51], cells[51]) == Some(row.params()[51]));
    assert(read_as(COLUMN_KINDS@[52], cells[52]) == Some(row.params()[52]));
    assert(read_as(COLUMN_KINDS@[53], cells[53]) == Some(row.params()[53]));
    assert(read_as(COLUMN_KINDS@[54], cells[54]) == Some(row.params()[54]));
}

/// A row that was read has in each field what the cell of the field's column
/// holds: the cells stand in the order of the table.
pub proof fn law_cells_fill_their_fields(row: RouteRow, cells: Seq<SqlCell>)
    requires
        row_reads(row, cells),
    ensures
        holds_text(cells[0], row.file@),
        holds_text(cells[1], row.date_dir@),
        holds_integer(cells[2], row.point_count),
        holds_integer(cells[3], row.raw_park_count),
        holds_integer(cells[4], row.raw_frame_count),
        holds_opt_integer(cells[5], row.start_ts),
        holds_opt_integer(cells[6], row.end_ts),
        holds_real(cells[7], row.distance_m),
        holds_opt_real(cells[8], row.first_lat),
        holds_opt_real(cells[9], row.first_lon),
        holds_opt_blob(cells[10], row.points_blob),
        holds_opt_blob(cells[11], row.gear_states_blob),
        holds_opt_blob(cells[12], row.ap_states_blob),
        holds_opt_blob(cells[13], row.speeds_blob),
        holds_opt_blob(cells[14], row.accel_blob),
        holds_opt_blob(cells[15], row.gear_runs_blob),
        holds_integer(cells[16], row.updated_at),
        holds_opt_real(cells[17], row.max_speed_mps),
        holds_opt_real(cells[18], row.avg_speed_mps),
        holds_opt_integer(cells[19], row.speed_sample_count),
        holds_opt_integer(cells[20], row.valid_point_count),
        holds_opt_integer(cells[21], row.fsd_engaged_ms),
        holds_opt_integer(cells[22], row.autosteer_engaged_ms),
        holds_opt_integer(cells[23], row.tacc_engaged_ms),
        holds_opt_real(cells[24], row.fsd_distance_m),
        holds_opt_real(cells[25], row.autosteer_distance_m),
        holds_opt_real(cells[26], row.tacc_distance_m),
        holds_opt_real(cells[27], row.assisted_distance_m),
        holds_opt_integer(cells[28], row.fsd_disengagements),
        holds_opt_integer(cells[29], row.fsd_accel_pushes),
        holds_opt_real(cells[30], row.start_lat),
        holds_opt_real(cells[31], row.start_lon),
        holds_opt_real(cells[32], row.end_lat),
        holds_opt_real(cells[33], row.end_lon),
        holds_opt_integer(cells[34], row.cloud_uploaded_at),
        holds_opt_text(cells[35], row.cloud_route_id),
        holds_opt_text(cells[36], row.source),
        holds_opt_text(cells[37], row.external_signature),
        holds_opt_real(cells[38], row.tessie_autopilot_percent),
        holds_opt_real(cells[39], row.battery_pct_start),
        holds_opt_real(cells[40], row.battery_pct_end),
        holds_opt_real(cells[41], row.battery_temp_avg),
        holds_opt_real(cells[42], row.interior_temp_min),
        holds_opt_real(cells[43], row.interior_temp_max),
        holds_opt_real(cells[44], row.exterior_temp_avg),
        holds_opt_integer(cells[45], row.hvac_runtime_s),
        holds_opt_real(cells[46], row.tire_fl_psi),
        holds_opt_real(cells[47], row.tire_fr_psi),
        holds_opt_real(cells[48], row.tire_rl_psi),
        holds_opt_real(cells[49], row.tire_rr_psi),
        holds_opt_real(cells[50], row.odometer_mi_start),
        holds_opt_real(cells[51], row.odometer_mi_end),
        holds_opt_text(cells[52], row.software_version),
        holds_opt_text(cells[53], row.location_name_start),
        holds_opt_text(cells[54], row.location_name_end),
{
    lemma_cells_fill_first(row, cells);
    lemma_cells_fill_aggregate(row, cells);
    lemma_cells_fill_later(row, cells);
}

/// The parameter is this text.
pub open spec fn binds_text(p: ParamView, v: Seq<char>) -> bool {
    p == ParamView::Text(v)
}

/// The parameter is this integer.
pub open spec fn binds_integer(p: ParamView, v: i64) -> bool {
    p == ParamView::Integer(v)
}

/// The parameter is this floating-point number.
pub open spec fn binds_real(p: ParamView, v: Real) -> bool {
    p == ParamView::Real(v)
}

/// The parameter is this text, or NULL where there is none.
pub open spec fn binds_opt_text(p: ParamView, v: Option<String>) -> bool {
    match v {
        Some(s) => p == ParamView::Text(s@),
        None => p is Null,
    }
}

/// The parameter is this integer, or NULL where there is none.
pub open spec fn binds_opt_integer(p: ParamView, v: Option<i64>) -> bool {
    match v {
        Some(n) => p == ParamView::Integer(n),
        None => p is Null,
    }
}

/// The parameter is this floating-point number, or NULL where there is none.
pub open spec fn binds_opt_real(p: ParamView, v: Option<Real>) -> bool {
    match v {
        Some(r) => p == ParamView::Real(r),
        None => p is Null,
    }
}

/// The parameter is these bytes, or NULL where there are none.
pub open spec fn binds_opt_blob(p: ParamView, v: Option<Vec<u8>>) -> bool {
    match v {
        Some(b) => p == ParamView::Blob(b@),
        None => p is Null,
    }
}

/// Each column is written from the field of its own name.
pub proof fn law_columns_are_written_from_their_fields(row: RouteRow)
    ensures
        row.params().len() == 55,
        COLUMNS@[0]@ == "file"@ && binds_text(row.params()[0], row.file@),
        COLUMNS@[1]@ == "date_dir"@ && binds_text(row.params()[1], row.date_dir@),
        COLUMNS@[2]@ == "point_count"@ && binds_integer(row.params()[2], row.point_count),
        COLUMNS@[3]@ == "raw_park_count"@ && binds_integer(row.params()[3], row.raw_park_count),
        COLUMNS@[4]@ == "raw_frame_count"@ && binds_integer(row.params()[4], row.raw_frame_count),
        COLUMNS@[5]@ == "start_ts"@ && binds_opt_integer(row.params()[5], row.start_ts),
        COLUMNS@[6]@ == "end_ts"@ && binds_opt_integer(row.params()[6], row.end_ts),
        COLUMNS@[7]@ == "distance_m"@ && binds_real(row.params()[7], row.distance_m),
        COLUMNS@[8]@ == "first_lat"@ && binds_opt_real(row.params()[8], row.first_lat),
        COLUMNS@[9]@ == "first_lon"@ && binds_opt_real(row.params()[9], row.first_lon),
        COLUMNS@[10]@ == "points_blob"@ && binds_opt_blob(row.params()[10], row.points_blob),
        COLUMNS@[11]@ == "gear_states_blob"@ && binds_opt_blob(row.params()[11], row.gear_states_blob),
        COLUMNS@[12]@ == "ap_states_blob"@ && binds_opt_blob(row.params()[12], row.ap_states_blob),
        COLUMNS@[13]@ == "speeds_blob"@ && binds_opt_blob(row.params()[13], row.speeds_blob),
        COLUMNS@[14]@ == "accel_blob"@ && binds_opt_blob(row.params()[14], row.accel_blob),
        COLUMNS@[15]@ == "gear_runs_blob"@ && binds_opt_blob(row.params()[15], row.gear_runs_blob),
        COLUMNS@[16]@ == "updated_at"@ && binds_integer(row.params()[16], row.updated_at),
        COLUMNS@[17]@ == "max_speed_mps"@ && binds_opt_real(row.params()[17], row.max_speed_mps),
        COLUMNS@[18]@ == "avg_speed_mps"@ && binds_opt_real(row.params()[18], row.avg_speed_mps),
        COLUMNS@[19]@ == "speed_sample_count"@ && binds_opt_integer(row.params()[19], row.speed_sample_count),
        COLUMNS@[20]@ == "valid_point_count"@ && binds_opt_integer(row.params()[20], row.valid_point_count),
        COLUMNS@[21]@ == "fsd_engaged_ms"@ && binds_opt_integer(row.params()[21], row.fsd_engaged_ms),
        COLUMNS@[22]@ == "autosteer_engaged_ms"@ && binds_opt_integer(row.params()[22], row.autosteer_engaged_ms),
        COLUMNS@[23]@ == "tacc_engaged_ms"@ && binds_opt_integer(row.params()[23], row.tacc_engaged_ms),
        COLUMNS@[24]@ == "fsd_distance_m"@ && binds_opt_real(row.params()[24], row.fsd_distance_m),
        COLUMNS@[25]@ == "autosteer_distance_m"@ && binds_opt_real(row.params()[25], row.autosteer_distance_m),
        COLUMNS@[26]@ == "tacc_distance_m"@ && binds_opt_real(row.params()[26], row.tacc_distance_m),
        COLUMNS@[27]@ == "assisted_distance_m"@ && binds_opt_real(row.params()[27], row.assisted_distance_m),
        COLUMNS@[28]@ == "fsd_disengagements"@ && binds_opt_integer(row.params()[28], row.fsd_disengagements),
        COLUMNS@[29]@ == "fsd_accel_pushes"@ && binds_opt_integer(row.params()[29], row.fsd_accel_pushes),
        COLUMNS@[30]@ == "start_lat"@ && binds_opt_real(row.params()[30], row.start_lat),
        COLUMNS@[31]@ == "start_lon"@ && binds_opt_real(row.params()[31], row.start_lon),
        COLUMNS@[32]@ == "end_lat"@ && binds_opt_real(row.params()[32], row.end_lat),
        COLUMNS@[33]@ == "end_lon"@ && binds_opt_real(row.params()[33], row.end_lon),
        COLUMNS@[34]@ == "cloud_uploaded_at"@ && binds_opt_integer(row.params()[34], row.cloud_uploaded_at),
        COLUMNS@[35]@ == "cloud_route_id"@ && binds_opt_text(row.params()[35], row.cloud_route_id),
        COLUMNS@[36]@ == "source"@ && binds_opt_text(row.params()[36], row.source),
        COLUMNS@[37]@ == "external_signature"@ && binds_opt_text(row.params()[37], row.external_signature),
        COLUMNS@[38]@ == "tessie_autopilot_percent"@ && binds_opt_real(row.params()[38], row.tessie_autopilot_percent),
        COLUMNS@[39]@ == "battery_pct_start"@ && binds_opt_real(row.params()[39], row.battery_pct_start),
        COLUMNS@[40]@ == "battery_pct_end"@ && binds_opt_real(row.params()[40], row.battery_pct_end),
        COLUMNS@[41]@ == "battery_temp_avg"@ && binds_opt_real(row.params()[41], row.battery_temp_avg),
        COLUMNS@[42]@ == "interior_temp_min"@ && binds_opt_real(row.params()[42], row.interior_temp_min),
        COLUMNS@[43]@ == "interior_temp_max"@ && binds_opt_real(row.params()[43], row.interior_temp_max),
        COLUMNS@[44]@ == "exterior_temp_avg"@ && binds_opt_real(row.params()[44], row.exterior_temp_avg),
        COLUMNS@[45]@ == "hvac_runtime_s"@ && binds_opt_integer(row.params()[45], row.hvac_runtime_s),
        COLUMNS@[46]@ == "tire_fl_psi"@ && binds_opt_real(row.params()[46], row.tire_fl_psi),
        COLUMNS@[47]@ == "tire_fr_psi"@ && binds_opt_real(row.params()[47], row.tire_fr_psi),
        COLUMNS@[48]@ == "tire_rl_psi"@ && binds_opt_real(row.params()[48], row.tire_rl_psi),
        COLUMNS@[49]@ == "tire_rr_psi"@ && binds_opt_real(row.params()[49], row.tire_rr_psi),
        COLUMNS@[50]@ == "odometer_mi_start"@ && binds_opt_real(row.params()[50], row.odometer_mi_start),
        COLUMNS@[51]@ == "odometer_mi_end"@ && binds_opt_real(row.params()[51], row.odometer_mi_end),
        COLUMNS@[52]@ == "software_version"@ && binds_opt_text(row.params()[52], row.software_version),
        COLUMNS@[53]@ == "location_name_start"@ && binds_opt_text(row.params()[53], row.location_name_start),
        COLUMNS@[54]@ == "location_name_end"@ && binds_opt_text(row.params()[54], row.location_name_end),
{
    assert(row.params()[0] == row.first_params()[0]);
    assert(row.params()[1] == row.first_params()[1]);
    assert(row.params()[2] == row.first_params()[2]);
    assert(row.params()[3] == row.first_params()[3]);
    assert(row.params()[4] == row.first_params()[4]);
    assert(row.params()[5] == row.first_params()[5]);
    assert(row.params()[6] == row.first_params()[6]);
    assert(row.params()[7] == row.first_params()[7]);
    assert(row.params()[8] == row.first_params()[8]);
    assert(row.params()[9] == row.first_params()[9]);
    assert(row.params()[10] == row.first_params()[10]);
    assert(row.params()[11] == row.first_params()[11]);
    assert(row.params()[12] == row.first_params()[12]);
    assert(row.params()[13] == row.first_params()[13]);
    assert(row.params()[14] == row.first_params()[14]);
    assert(row.params()[15] == row.first_params()[15]);
    assert(row.params()[16] == row.first_params()[16]);
    assert(row.params()[17] == row.aggregate_params()[0]);
    assert(row.params()[18] == row.aggregate_params()[1]);
    assert(row.params()[19] == row.aggregate_params()[2]);
    assert(row.params()[20] == row.aggregate_params()[3]);
    assert(row.params()[21] == row.aggregate_params()[4]);
    assert(row.params()[22] == row.aggregate_params()[5]);
    assert(row.params()[23] == row.aggregate_params()[6]);
    assert(row.params()[24] == row.aggregate_params()[7]);
    assert(row.params()[25] == row.aggregate_params()[8]);
    assert(row.params()[26] == row.aggregate_params()[9]);
    assert(row.params()[27] == row.aggregate_params()[10]);
    assert(row.params()[28] == row.aggregate_params()[11]);
    assert(row.params()[29] == row.aggregate_params()[12]);
    assert(row.params()[30] == row.aggregate_params()[13]);
    assert(row.params()[31] == row.aggregate_params()[14]);
    assert(row.params()[32] == row.aggregate_params()[15]);
    assert(row.params()[33] == row.aggregate_params()[16]);
    assert(row.params()[34] == row.later_params()[0]);
    assert(row.params()[35] == row.later_params()[1]);
    assert(row.params()[36] == row.later_params()[2]);
    assert(row.params()[37] == row.later_params()[3]);
    assert(row.params()[38] == row.later_params()[4]);
    assert(row.params()[39] == row.later_params()[5]);
    assert(row.params()[40] == row.later_params()[6]);
    assert(row.params()[41] == row.later_params()[7]);
    assert(row.params()[42] == row.later_params()[8]);
    assert(row.params()[43] == row.later_params()[9]);
    assert(row.params()[44] == row.later_params()[10]);
    assert(row.params()[45] == row.later_params()[11]);
    assert(row.params()[46] == row.later_params()[12]);
    assert(row.params()[47] == row.later_params()[13]);
    assert(row.params()[48] == row.later_params()[14]);
    assert(row.params()[49] == row.later_params()[15]);
    assert(row.params()[50] == row.later_params()[16]);
    assert(row.params()[51] == row.later_params()[17]);
    assert(row.params()[52] == row.later_params()[18]);
    assert(row.params()[53] == row.later_params()[19]);
    assert(row.params()[54] == row.later_params()[20]);
}

/// The row of a route takes each of its fields from the part of the route, or of
/// the aggregates, that it is named after; what neither has starts out NULL.
pub proof fn law_row_takes_the_route(
    r: RouteView,
    a: RouteAggregates,
    file: Seq<char>,
    encoded: EncodedBlobs,
    now: i64,
    row: RouteRow,
)
    requires
        row.params() == params_of(r, a, file, encoded, now),
    ensures
        row.file@ == file,
        row.date_dir@ == r.date,
        row.point_count == r.points.len() as i64,
        row.raw_park_count == r.raw_park_count,
        row.raw_frame_count == r.raw_frame_count,
        row.start_ts is None,
        row.end_ts is None,
        row.distance_m == a.distance_m,
        r.points.len() > 0 ==> row.first_lat == Some(r.points[0][0]),
        r.points.len() > 0 ==> row.first_lon == Some(r.points[0][1]),
        blob_of(row.points_blob) == blob_of(encoded.points),
        blob_of(row.gear_states_blob) == blob_of(encoded.gear_states),
        blob_of(row.ap_states_blob) == blob_of(encoded.ap_states),
        blob_of(row.speeds_blob) == blob_of(encoded.speeds),
        blob_of(row.accel_blob) == blob_of(encoded.accel),
        blob_of(row.gear_runs_blob) == blob_of(encoded.gear_runs),
        row.updated_at == now,
        row.max_speed_mps == Some(a.max_speed_mps),
        row.avg_speed_mps == Some(a.avg_speed_mps),
        row.speed_sample_count == Some(a.speed_sample_count),
        row.valid_point_count == Some(a.valid_point_count),
        row.fsd_engaged_ms == Some(a.fsd_engaged_ms),
        row.autosteer_engaged_ms == Some(a.autosteer_engaged_ms),
        row.tacc_engaged_ms == Some(a.tacc_engaged_ms),
        row.fsd_distance_m == Some(a.fsd_distance_m),
        row.autosteer_distance_m == Some(a.autosteer_distance_m),
        row.tacc_distance_m == Some(a.tacc_distance_m),
        row.assisted_distance_m == Some(a.assisted_distance_m),
        row.fsd_disengagements matches Some(n) && n == a.fsd_disengagements,
        row.fsd_accel_pushes matches Some(n) && n == a.fsd_accel_pushes,
        row.start_lat == a.start_lat,
        row.start_lon == a.start_lng,
        row.end_lat == a.end_lat,
        row.end_lon == a.end_lng,
        row.cloud_uploaded_at is None,
        row.cloud_route_id is None,
        text_of(row.source) == r.source,
        text_of(row.external_signature) == r.external_signature,
        row.tessie_autopilot_percent == r.tessie_autopilot_percent,
        row.battery_pct_start == r.battery_pct_start,
        row.battery_pct_end == r.battery_pct_end,
        row.battery_temp_avg is None,
        row.interior_temp_min == r.interior_temp_min,
        row.interior_temp_max == r.interior_temp_max,
        row.exterior_temp_avg == r.exterior_temp_avg,
        row.hvac_runtime_s == r.hvac_runtime_s,
        row.tire_fl_psi == r.tire_fl_psi,
        row.tire_fr_psi == r.tire_fr_psi,
        row.tire_rl_psi == r.tire_rl_psi,
        row.tire_rr_psi == r.tire_rr_psi,
        row.odometer_mi_start == r.odometer_mi_start,
        row.odometer_mi_end == r.odometer_mi_end,
        row.software_version is None,
        text_of(row.location_name_start) == r.location_name_start,
        text_of(row.location_name_end) == r.location_name_end,
        r.points.len() == 0 ==> row.first_lat is None && row.first_lon is None,
{
    let x = row.params();
    let first = first_params_of(r, a, file, encoded, now);
    let middle = aggregate_params_of(a);
    let later = later_params_of(r);
    assert(x.subrange(0, 17) =~= row.first_params());
    assert(x.subrange(0, 17) =~= first);
    assert(x.subrange(17, 34) =~= row.aggregate_params());
    assert(x.subrange(17, 34) =~= middle);
    assert(x.subrange(34, 55) =~= row.later_params());
    assert(x.subrange(34, 55) =~= later);
    assert(row.first_params()[0] == first[0]);
    assert(row.first_params()[1] == first[1]);
    assert(row.first_params()[2] == first[2]);
    assert(row.first_params()[3] == first[3]);
    assert(row.first_params()[4] == first[4]);
    assert(row.first_params()[5] == first[5]);
    assert(row.first_params()[6] == first[6]);
    assert(row.first_params()[7] == first[7]);
    assert(row.first_params()[8] == first[8]);
    assert(row.first_params()[9] == first[9]);
    assert(row.first_params()[10] == first[10]);
    assert(row.first_params()[11] == first[11]);
    assert(row.first_params()[12] == first[12]);
    assert(row.first_params()[13] == first[13]);
    assert(row.first_params()[14] == first[14]);
    assert(row.first_params()[15] == first[15]);
    assert(row.first_params()[16] == first[16]);
    assert(row.aggregate_params()[0] == middle[0]);
    assert(row.aggregate_params()[1] == middle[1]);
    assert(row.aggregate_params()[2] == middle[2]);
    assert(row.aggregate_params()[3] == middle[3]);
    assert(row.aggregate_params()[4] == middle[4]);
    assert(row.aggregate_params()[5] == middle[5]);
    assert(row.aggregate_params()[6] == middle[6]);
    assert(row.aggregate_params()[7] == middle[7]);
    assert(row.aggregate_params()[8] == middle[8]);
    assert(row.aggregate_params()[9] == middle[9]);
    assert(row.aggregate_params()[10] == middle[10]);
    assert(row.aggregate_params()[11] == middle[11]);
    assert(row.aggregate_params()[12] == middle[12]);
    assert(row.aggregate_params()[13] == middle[13]);
    assert(row.aggregate_params()[14] == middle[14]);
    assert(row.aggregate_params()[15] == middle[15]);
    assert(row.aggregate_params()[16] == middle[16]);
    assert(row.later_params()[0] == later[0]);
    assert(row.later_params()[1] == later[1]);
    assert(row.later_params()[2] == later[2]);
    assert(row.later_params()[3] == later[3]);
    assert(row.later_params()[4] == later[4]);
    assert(row.later_params()[5] == later[5]);
    assert(row.later_params()[6] == later[6]);
    assert(row.later_params()[7] == later[7]);
    assert(row.later_params()[8] == later[8]);
    assert(row.later_params()[9] == later[9]);
    assert(row.later_params()[10] == later[10]);
    assert(row.later_params()[11] == later[11]);
    assert(row.later_params()[12] == later[12]);
    assert(row.later_params()[13] == later[13]);
    assert(row.later_params()[14] == later[14]);
    assert(row.later_params()[15] == later[15]);
    assert(row.later_params()[16] == later[16]);
    assert(row.later_params()[17] == later[17]);
    assert(row.later_params()[18] == later[18]);
    assert(row.later_params()[19] == later[19]);
    assert(row.later_params()[20] == later[20]);
}

/// A route shows what the columns of its row hold, each under its own name. The
/// frame counts of a sound row are shown as they are.
pub proof fn law_route_shows_its_row(row: RouteRow, blobs: DecodedBlobs)
    ensures
        ({
            let route = route_of(row, blobs);
            &&& route.file == row.file@
            &&& route.date == row.date_dir@
            &&& 0 <= row.raw_park_count < 0x1_0000_0000 ==> route.raw_park_count
                == row.raw_park_count
            &&& 0 <= row.raw_frame_count < 0x1_0000_0000 ==> route.raw_frame_count
                == row.raw_frame_count
            &&& route.source == text_of(row.source)
            &&& route.external_signature == text_of(row.external_signature)
            &&& route.tessie_autopilot_percent == row.tessie_autopilot_percent
            &&& route.battery_pct_start == row.battery_pct_start
            &&& route.battery_pct_end == row.battery_pct_end
            &&& route.interior_temp_min == row.interior_temp_min
            &&& route.interior_temp_max == row.interior_temp_max
            &&& route.exterior_temp_avg == row.exterior_temp_avg
            &&& route.hvac_runtime_s == row.hvac_runtime_s
            &&& route.tire_fl_psi == row.tire_fl_psi
            &&& route.tire_fr_psi == row.tire_fr_psi
            &&& route.tire_rl_psi == row.tire_rl_psi
            &&& route.tire_rr_psi == row.tire_rr_psi
            &&& route.odometer_mi_start == row.odometer_mi_start
            &&& route.odometer_mi_end == row.odometer_mi_end
            &&& route.location_name_start == text_of(row.location_name_start)
            &&& route.location_name_end == text_of(row.location_name_end)
            &&& blobs.points matches Ok(Some(v)) ==> route.points == v@
            &&& blobs.gear_states matches Some(v) ==> route.gear_states == v@
            &&& blobs.ap_states matches Some(v) ==> route.autopilot_states == v@
            &&& blobs.speeds matches Ok(Some(v)) ==> route.speeds == v@
            &&& blobs.accel matches Ok(Some(v)) ==> route.accel_positions == v@
            &&& blobs.gear_runs matches Ok(Some(v)) ==> route.gear_runs == v@
            &&& blobs.points matches Ok(None) ==> route.points.len() == 0
            &&& blobs.gear_states is None ==> route.gear_states.len() == 0
            &&& blobs.ap_states is None ==> route.autopilot_states.len() == 0
            &&& blobs.speeds matches Ok(None) ==> route.speeds.len() == 0
            &&& blobs.accel matches Ok(None) ==> route.accel_positions.len() == 0
            &&& blobs.gear_runs matches Ok(None) ==> route.gear_runs.len() == 0
        }),
{
}

/// A count that does not fit is cut to its low 32 bits.
pub proof fn law_counts_are_cut(row: RouteRow, blobs: DecodedBlobs)
    ensures
        route_of(row, blobs).raw_park_count == row.raw_park_count as int % 0x1_0000_0000,
        route_of(row, blobs).raw_frame_count == row.raw_frame_count as int % 0x1_0000_0000,
{
    let (p, f) = (row.raw_park_count, row.raw_frame_count);
    assert(p as u32 == p % 0x1_0000_0000) by (bit_vector);
    assert(f as u32 == f % 0x1_0000_0000) by (bit_vector);
}

/// Decoding fails where any of the four BLOBs that can fail does, and the first
/// of them is told, in this order: points, speeds, pedal positions, gear runs.
pub proof fn law_first_bad_blob_is_told(blobs: DecodedBlobs)
    ensures
        decode_fault(blobs) is None <==> blobs.points is Ok && blobs.speeds is Ok
            && blobs.accel is Ok && blobs.gear_runs is Ok,
        blobs.points matches Err(e) ==> decode_fault(blobs) == Some(("points"@, e@)),
        blobs.points is Ok ==> (blobs.speeds matches Err(e) ==> decode_fault(blobs) == Some(
            ("speeds"@, e@),
        )),
        blobs.points is Ok && blobs.speeds is Ok ==> (blobs.accel matches Err(e) ==> decode_fault(
            blobs,
        ) == Some(("accel"@, e@))),
        blobs.points is Ok && blobs.speeds is Ok && blobs.accel is Ok ==> (
        blobs.gear_runs matches Err(e) ==> decode_fault(blobs) == Some(("gear_runs"@, e@))),
{
}

/// Which cells a column takes: NULL where the table allows it, texts where it
/// keeps texts, BLOBs where it keeps BLOBs, integers where it keeps numbers, and
/// floating-point numbers where it keeps those.
pub proof fn law_columns_take_their_kind(cells: Seq<SqlCell>, i: int)
    requires
        0 <= i < 55,
    ensures
        i >= cells.len() ==> fault_at(cells, i) == Some(RowError::MissingColumn(i as usize)),
        i < cells.len() ==> {
            let textual = 0 <= i <= 1 || 35 <= i <= 37 || 52 <= i <= 54;
            let bytes = 10 <= i <= 15;
            let floating = 7 <= i <= 9 || 17 <= i <= 18 || 24 <= i <= 27 || 30 <= i <= 33 || 38 <= i <= 44 || 46 <= i <= 51;
            let required = 0 <= i <= 4 || i == 7 || i == 16;
            let good = fault_at(cells, i) is None;
            &&& cells[i] is Null ==> (good <==> !required)
            &&& cells[i] is Text ==> (good <==> textual)
            &&& cells[i] is Blob ==> (good <==> bytes)
            &&& cells[i] is Integer ==> (good <==> !textual && !bytes)
            &&& cells[i] is Real ==> (good <==> floating)
            &&& cells[i] is BadText && textual ==> fault_at(cells, i) == Some(
                RowError::BadText(i as usize),
            )
            &&& !good && !(cells[i] is BadText && textual) ==> fault_at(cells, i) == Some(
                RowError::WrongType(i as usize),
            )
            &&& cells[i] is BadText ==> !good
        },
{
}

/// The statements name every column once, in the order of the table, with a
/// comma between each two; the insert has a numbered parameter for each.
pub proof fn law_statements_name_the_columns(i: int)
    requires
        0 <= i < 55,
    ensures
        column_names().len() == 55,
        column_names()[i] == COLUMNS@[i]@,
        placeholders(55).len() == 55,
        placeholders(55)[i] == "?"@ + text::decimal((i + 1) as nat),
        select_text() == "SELECT "@ + text::joined(column_names(), ", "@)
            + " FROM routes ORDER BY file"@,
        insert_text() == "INSERT OR REPLACE INTO routes ("@ + text::joined(column_names(), ", "@)
            + ") VALUES ("@ + text::joined(placeholders(55), ", "@) + ")"@,
{
}

/// A parameter says what it carries.
pub proof fn law_params_say_what_they_carry(param: SqlParam)
    ensures
        param is Null <==> param@ is Null,
        param matches SqlParam::Integer(n) ==> param@ == ParamView::Integer(n),
        param matches SqlParam::Real(r) ==> param@ == ParamView::Real(r),
        param matches SqlParam::Text(s) ==> param@ == ParamView::Text(s@),
        param matches SqlParam::Blob(b) ==> param@ == ParamView::Blob(b@),
{
}

/// Two routes that say the same hold the same in every field.
pub proof fn law_routes_say_what_they_hold(a: Route, b: Route)
    requires
        a@ == b@,
    ensures
        a.file@ == b.file@,
        a.date@ == b.date@,
        a.points@ == b.points@,
        a.gear_states@ == b.gear_states@,
        a.autopilot_states@ == b.autopilot_states@,
        a.speeds@ == b.speeds@,
        a.accel_positions@ == b.accel_positions@,
        a.raw_park_count == b.raw_park_count,
        a.raw_frame_count == b.raw_frame_count,
        a.gear_runs@ == b.gear_runs@,
        text_of(a.source) == text_of(b.source),
        text_of(a.external_signature) == text_of(b.external_signature),
        a.tessie_autopilot_percent == b.tessie_autopilot_percent,
        a.battery_pct_start == b.battery_pct_start,
        a.battery_pct_end == b.battery_pct_end,
        a.interior_temp_min == b.interior_temp_min,
        a.interior_temp_max == b.interior_temp_max,
        a.exterior_temp_avg == b.exterior_temp_avg,
        a.hvac_runtime_s == b.hvac_runtime_s,
        a.tire_fl_psi == b.tire_fl_psi,
        a.tire_fr_psi == b.tire_fr_psi,
        a.tire_rl_psi == b.tire_rl_psi,
        a.tire_rr_psi == b.tire_rr_psi,
        a.odometer_mi_start == b.odometer_mi_start,
        a.odometer_mi_end == b.odometer_mi_end,
        text_of(a.location_name_start) == text_of(b.location_name_start),
        text_of(a.location_name_end) == text_of(b.location_name_end),
        a@.location_name_start == text_of(a.location_name_start),
        a@.location_name_end == text_of(a.location_name_end),
        a@.file == a.file@,
        a@.date == a.date@,
{
}

/// The first column that does not fit is the one that is told.
pub proof fn law_first_bad_column_is_told(cells: Seq<SqlCell>, e: RowError, i: int)
    requires
        fails_with(cells, e),
        0 <= i < 55,
        fault_at(cells, i) is Some,
        forall|j: int| 0 <= j < i ==> (#[trigger] fault_at(cells, j)) is None,
    ensures
        fault_at(cells, i) == Some(e),
{
}

/// A row becomes a route exactly where its BLOBs decode; else the BLOB and the
/// row's file are told, with the cause.
pub proof fn law_undecodable_rows_name_their_file(
    row: RouteRow,
    blobs: DecodedBlobs,
    res: Result<Route, DecodeError>,
)
    requires
        turns_into(row, blobs, res),
    ensures
        res is Ok <==> blobs.points is Ok && blobs.speeds is Ok && blobs.accel is Ok
            && blobs.gear_runs is Ok,
        res matches Ok(route) ==> route@ == route_of(row, blobs),
        blobs.points matches Err(cause) ==> (res matches Err(e) && e.cause@ == cause@ && e.context@
            == "decode points "@ + row.file@),
        blobs.points is Ok ==> (blobs.speeds matches Err(cause) ==> (res matches Err(e) && e.cause@
            == cause@ && e.context@ == "decode speeds "@ + row.file@)),
        blobs.points is Ok && blobs.speeds is Ok ==> (blobs.accel matches Err(cause) ==> (
        res matches Err(e) && e.cause@ == cause@ && e.context@ == "decode accel "@ + row.file@)),
        blobs.points is Ok && blobs.speeds is Ok && blobs.accel is Ok ==> (
        blobs.gear_runs matches Err(cause) ==> (res matches Err(e) && e.cause@ == cause@
            && e.context@ == "decode gear_runs "@ + row.file@)),
{
    reveal_strlit("decode ");
    reveal_strlit(" ");
    reveal_strlit("points");
    reveal_strlit("speeds");
    reveal_strlit("accel");
    reveal_strlit("gear_runs");
    reveal_strlit("decode points ");
    reveal_strlit("decode speeds ");
    reveal_strlit("decode accel ");
    reveal_strlit("decode gear_runs ");
    assert("decode "@ + "points"@ + " "@ =~= "decode points "@);
    assert("decode "@ + "speeds"@ + " "@ =~= "decode speeds "@);
    assert("decode "@ + "accel"@ + " "@ =~= "decode accel "@);
    assert("decode "@ + "gear_runs"@ + " "@ =~= "decode gear_runs "@);
}

/// Optional texts, BLOBs and lists say what they hold.
pub proof fn law_optional_values_say_what_they_hold(
    t: Option<String>,
    b: Option<Vec<u8>>,
    v: Option<Vec<GearRun>>,
    encoded: EncodedBlobs,
)
    ensures
        t matches Some(s) ==> text_of(t) == Some(s@),
        t is None ==> text_of(t) is None,
        b matches Some(x) ==> blob_of(b) == Some(x@),
        b is None ==> blob_of(b) is None,
        v matches Some(x) ==> or_empty(v) == x@,
        v is None ==> or_empty(v).len() == 0,
        encoded@.points == blob_of(encoded.points),
        encoded@.gear_states == blob_of(encoded.gear_states),
        encoded@.ap_states == blob_of(encoded.ap_states),
        encoded@.speeds == blob_of(encoded.speeds),
        encoded@.accel == blob_of(encoded.accel),
        encoded@.gear_runs == blob_of(encoded.gear_runs),
{
}

/// A list of parameters has each of them, in order.
pub proof fn law_params_keep_their_order(params: Seq<SqlParam>, i: int)
    ensures
        param_views(params).len() == params.len(),
        0 <= i < params.len() ==> param_views(params)[i] == params[i]@,
{
}

} // verus!

//! Work-log records: the row shape the query boundary returns, and its
//! materialization into a date-parsed record.

use vstd::prelude::*;

verus! {

#[verifier::external_type_specification]
#[verifier::external_body]
pub struct ExChronoParseError(chrono::ParseError);

#[verifier::external_type_specification]
#[verifier::external_body]
pub struct ExMysqlError(mysql::Error);

/// The (year, month, day) that chrono reads from `s` under the "%Y-%m-%d"
/// format, or `None` where chrono rejects `s`; a function of the text alone.
pub uninterp spec fn ymd_of(s: Seq<char>) -> Option<(int, int, int)>;

/// Relies on chrono's `NaiveDate::parse_from_str` with the "%Y-%m-%d" format,
/// and on `Datelike::year`/`month`/`day`: the outcome depends on the text
/// alone, and a parsed date's month lies in 1..=12 and its day in 1..=31.
#[verifier::external_body]
fn parse_ymd(s: &str) -> (r: Result<(i32, u32, u32), chrono::ParseError>)
    ensures
        r is Ok <==> ymd_of(s@) is Some,
        r is Ok ==> Some(((r->Ok_0.0 as int, r->Ok_0.1 as int, r->Ok_0.2 as int)))
            == ymd_of(s@),
        r is Ok ==> 1 <= r->Ok_0.1 <= 12 && 1 <= r->Ok_0.2 <= 31,
{
    match chrono::NaiveDate::parse_from_str(s, "%Y-%m-%d") {
        Ok(d) => Ok((chrono::Datelike::year(&d), chrono::Datelike::month(&d),
            chrono::Datelike::day(&d))),
        Err(e) => Err(e),
    }
}

/// A calendar date held as plain year, month and day numbers.
#[derive(Clone, Copy, Debug, PartialEq, Eq, Structural)]
pub struct Date {
    pub year: i32,
    pub month: u32,
    pub day: u32,
}

impl Date {
    /// Month and day lie within calendar bounds.
    pub open spec fn wf(self) -> bool {
        1 <= self.month <= 12 && 1 <= self.day <= 31
    }
}

/// The date that a "%Y-%m-%d" text denotes, assembled from what chrono reads.
pub open spec fn date_of(s: Seq<char>) -> Date {
    let (y, m, d) = ymd_of(s)->Some_0;
    Date { year: y as i32, month: m as u32, day: d as u32 }
}

/// The flat row shape that the query boundary hands back: every date field is
/// "YYYY-MM-DD" text, formatted by the query itself.
#[derive(Debug, Clone, PartialEq, Eq)]
pub struct WorkEntriesQuery {
    pub id: u32,
    pub date: String,
    pub minutes_worked: i32,
    pub notes: String,
    pub created_at: String,
    pub updated_at: String,
    pub year_col: String,
    pub month_col: String,
}

/// One persisted work-log row, with every date field parsed.
#[derive(Debug, Clone)]
pub struct WorkEntries {
    pub id: Option<u32>,
    pub date: Date,
    pub minutes_worked: i32,
    pub notes: String,
    pub created_at: Date,
    pub updated_at: Date,
    pub year_col: Date,
    pub month_col: Date,
}

/// Configuration knobs of the tracker; no component consults them.
#[derive(Debug, Clone)]
pub struct Config {
    pub first_day_of_week: Option<i32>,
    pub weekly_target_minutes: Option<i32>,
}

/// One aggregated week of work; no lookup fills it.
#[derive(Debug, Clone)]
pub struct WorkWeeks {
    pub id: Option<u32>,
    pub year: Date,
    pub week_number: u32,
    pub total_minutes: u32,
    pub updated_at: Date,
}

/// The two failure families: the query boundary's own failure, and a date
/// field that does not parse.
#[derive(Debug)]
pub enum AppError {
    DatabaseError(mysql::Error),
    ParseError(chrono::ParseError),
}

/// All five date fields of the row parse under "%Y-%m-%d".
pub open spec fn row_dates_ok(row: WorkEntriesQuery) -> bool {
    ymd_of(row.date@) is Some && ymd_of(row.created_at@) is Some && ymd_of(row.updated_at@)
        is Some && ymd_of(row.year_col@) is Some && ymd_of(row.month_col@) is Some
}

/// The record that a fully parseable row materializes to.
pub open spec fn spec_record_of(row: WorkEntriesQuery) -> WorkEntries {
    WorkEntries {
        id: Some(row.id),
        date: date_of(row.date@),
        minutes_worked: row.minutes_worked,
        notes: row.notes,
        created_at: date_of(row.created_at@),
        updated_at: date_of(row.updated_at@),
        year_col: date_of(row.year_col@),
        month_col: date_of(row.month_col@),
    }
}

impl WorkEntries {
    /// Turns one raw query row into a record, parsing the five date fields in
    /// "%Y-%m-%d" and copying `id`, `minutes_worked` and `notes` through
    /// unchecked. Fails with the first field's parse error; succeeds exactly
    /// when every date field parses, whatever `minutes_worked` holds.
    pub fn from_query_result(query_row: WorkEntriesQuery) -> (r: Result<Self, AppError>)
        ensures
            r is Ok <==> row_dates_ok(query_row),
            r is Ok ==> r->Ok_0 == spec_record_of(query_row),
            r is Ok ==> r->Ok_0.date.wf() && r->Ok_0.created_at.wf() && r->Ok_0.updated_at.wf()
                && r->Ok_0.year_col.wf() && r->Ok_0.month_col.wf(),
            r is Err ==> r->Err_0 is ParseError,
    {
        let date = match parse_ymd(query_row.date.as_str()) {
            Ok((y, m, d)) => Date { year: y, month: m, day: d },
            Err(e) => {
                return Err(AppError::ParseError(e));
            },
        };
        let created_at = match parse_ymd(query_row.created_at.as_str()) {
            Ok((y, m, d)) => Date { year: y, month: m, day: d },
            Err(e) => {
                return Err(AppError::ParseError(e));
            },
        };
        let updated_at = match parse_ymd(query_row.updated_at.as_str()) {
            Ok((y, m, d)) => Date { year: y, month: m, day: d },
            Err(e) => {
                return Err(AppError::ParseError(e));
            },
        };
        let year_col = match parse_ymd(query_row.year_col.as_str()) {
            Ok((y, m, d)) => Date { year: y, month: m, day: d },
            Err(e) => {
                return Err(AppError::ParseError(e));
            },
        };
        let month_col = match parse_ymd(query_row.month_col.as_str()) {
            Ok((y, m, d)) => Date { year: y, month: m, day: d },
            Err(e) => {
                return Err(AppError::ParseError(e));
            },
        };
        Ok(
            WorkEntries {
                id: Some(query_row.id),
                date,
                minutes_worked: query_row.minutes_worked,
                notes: query_row.notes,
                created_at,
                updated_at,
                year_col,
                month_col,
            },
        )
    }
}

/// The pure tail of a lookup by id: what `find_by_id` does with the outcome
/// of the query. A query failure wraps as a database error, no matching row
/// stays an absent result, and a matching row materializes as
/// `from_query_result` does.
pub fn materialize_lookup(outcome: Result<Option<WorkEntriesQuery>, mysql::Error>) -> (r: Result<
    Option<WorkEntries>,
    AppError,
>)
    ensures
        outcome matches Err(e) ==> r matches Err(AppError::DatabaseError(e2)) && e2 == e,
        outcome matches Ok(None) ==> r matches Ok(None),
        outcome matches Ok(Some(row)) ==> {
            &&& r is Ok <==> row_dates_ok(row)
            &&& r is Ok ==> (r->Ok_0 matches Some(rec) && rec == spec_record_of(row))
            &&& r is Err ==> r->Err_0 is ParseError
        },
{
    match outcome {
        Err(e) => Err(AppError::DatabaseError(e)),
        Ok(None) => Ok(None),
        Ok(Some(row)) => match WorkEntries::from_query_result(row) {
            Ok(rec) => Ok(Some(rec)),
            Err(e) => Err(e),
        },
    }
}

} // verus!

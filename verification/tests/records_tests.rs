use time_calculator::records::{
    materialize_lookup, AppError, Date, WorkEntries, WorkEntriesQuery,
};

fn valid_row() -> WorkEntriesQuery {
    WorkEntriesQuery {
        id: 7,
        date: String::from("2024-05-17"),
        minutes_worked: 480,
        notes: String::from("desk work"),
        created_at: String::from("2024-05-17"),
        updated_at: String::from("2024-05-18"),
        year_col: String::from("2024-01-01"),
        month_col: String::from("2024-05-01"),
    }
}

#[test]
fn invalid_calendar_text_fails_with_date_format_error() {
    let mut row = valid_row();
    row.date = String::from("2024-13-40");
    let result = WorkEntries::from_query_result(row);
    assert!(matches!(result, Err(AppError::ParseError(_))));
}

#[test]
fn valid_dates_succeed_with_unchecked_minutes() {
    let mut row = valid_row();
    row.minutes_worked = -50;
    let record = WorkEntries::from_query_result(row).expect("all five dates are valid");
    assert_eq!(record.id, Some(7));
    assert_eq!(record.minutes_worked, -50);
    assert_eq!(record.notes, "desk work");
    assert_eq!(record.date, Date { year: 2024, month: 5, day: 17 });
    assert_eq!(record.created_at, Date { year: 2024, month: 5, day: 17 });
    assert_eq!(record.updated_at, Date { year: 2024, month: 5, day: 18 });
    assert_eq!(record.year_col, Date { year: 2024, month: 1, day: 1 });
    assert_eq!(record.month_col, Date { year: 2024, month: 5, day: 1 });
}

#[test]
fn each_date_field_is_checked() {
    for field in 0..5 {
        let mut row = valid_row();
        let bad = String::from("17-05-2024");
        match field {
            0 => row.date = bad,
            1 => row.created_at = bad,
            2 => row.updated_at = bad,
            3 => row.year_col = bad,
            _ => row.month_col = bad,
        }
        assert!(matches!(
            WorkEntries::from_query_result(row),
            Err(AppError::ParseError(_))
        ));
    }
}

#[test]
fn leap_years_follow_the_calendar() {
    let mut row = valid_row();
    row.date = String::from("2024-02-29");
    assert!(WorkEntries::from_query_result(row).is_ok());

    let mut row = valid_row();
    row.date = String::from("2023-02-29");
    assert!(matches!(
        WorkEntries::from_query_result(row),
        Err(AppError::ParseError(_))
    ));
}

#[test]
fn lookup_without_a_match_is_absent_not_an_error() {
    let result = materialize_lookup(Ok(None));
    assert!(matches!(result, Ok(None)));
}

#[test]
fn lookup_with_a_match_materializes_the_row() {
    let result = materialize_lookup(Ok(Some(valid_row())));
    match result {
        Ok(Some(record)) => {
            assert_eq!(record.id, Some(7));
            assert_eq!(record.date, Date { year: 2024, month: 5, day: 17 });
        }
        _ => panic!("a matching row must materialize"),
    }
}

#[test]
fn lookup_failure_surfaces_as_database_error() {
    let failure = mysql::Error::DriverError(mysql::DriverError::ConnectTimeout);
    let result = materialize_lookup(Err(failure));
    assert!(matches!(result, Err(AppError::DatabaseError(_))));
}

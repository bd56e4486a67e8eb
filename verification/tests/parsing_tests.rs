use time_calculator::parsing::parse_time;

#[test]
fn check_parse_time() {
    let string = "23:32";
    assert_eq!(parse_time(string), Some(23 * 60 + 32));

    let string = "23:32:45";
    assert_eq!(parse_time(string), None);

    let string = "23:32:45:67";
    assert_eq!(parse_time(string), None);

    let string = "23";
    assert_eq!(parse_time(string), None);

    let string = "25:32:";
    assert_eq!(parse_time(string), None);

    let string = "23:60:";
    assert_eq!(parse_time(string), None);

    let string = "23:32:";
    assert_eq!(parse_time(string), None);

    let string = "2132";
    assert_eq!(parse_time(string), None);
}

#[test]
fn parse_time_in_bounds() {
    assert_eq!(parse_time("8:30"), Some(510));
    assert_eq!(parse_time("0:0"), Some(0));
    assert_eq!(parse_time("24:59"), Some(24 * 60 + 59));
    assert_eq!(parse_time("08:05"), Some(485));
}

#[test]
fn parse_time_out_of_bounds() {
    assert_eq!(parse_time("25:00"), None);
    assert_eq!(parse_time("23:60"), None);
    assert_eq!(parse_time("-1:30"), None);
    assert_eq!(parse_time("8:-5"), None);
    assert_eq!(parse_time("99999999999999999999:30"), None);
}

#[test]
fn parse_time_non_numeric() {
    assert_eq!(parse_time("ab:12"), None);
    assert_eq!(parse_time("12:cd"), None);
    assert_eq!(parse_time(" 8:30"), None);
    assert_eq!(parse_time("8:30 "), None);
    assert_eq!(parse_time(""), None);
    assert_eq!(parse_time(":"), None);
    assert_eq!(parse_time("8:"), None);
    assert_eq!(parse_time(":30"), None);
}

#[test]
fn parse_time_signed_integer_syntax() {
    // each side goes through Rust's base-10 integer syntax, sign included
    assert_eq!(parse_time("+8:30"), Some(510));
    assert_eq!(parse_time("-0:30"), Some(30));
    assert_eq!(parse_time("+-8:30"), None);
}

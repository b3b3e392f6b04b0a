use flick_sync::names::{format_duration, percent, push_padded, safe, uniform_title};

#[test]
fn unsafe_characters_become_underscores() {
    assert_eq!(safe("AC/DC: Live? <2020>"), "AC_DC_ Live_ _2020_");
    assert_eq!(safe(&safe("a#b")), safe("a#b"));
    assert_eq!(safe("plain"), "plain");
}

#[test]
fn uniform_titles_drop_articles() {
    assert_eq!(uniform_title("  The Matrix "), "matrix");
    assert_eq!(uniform_title("A Beautiful Mind"), "beautiful mind");
    assert_eq!(uniform_title("a the a thing"), "a thing");
    assert_eq!(uniform_title("Theory"), "theory");
}

#[test]
fn durations() {
    assert_eq!(format_duration(0), "0:00:00");
    assert_eq!(format_duration(3725), "1:02:05");
    assert_eq!(format_duration(90061), "1 days, 1:01:01");
}

#[test]
fn percentages() {
    assert_eq!(percent(1, 3), "33%");
    assert_eq!(percent(5, 5), "100%");
    assert_eq!(percent(7, 5), "100%");
    assert_eq!(percent(0, 0), "100%");
}

#[test]
fn padded_columns() {
    let mut s = String::new();
    push_padded(&mut s, "ab", 4);
    push_padded(&mut s, "long text", 3);
    assert_eq!(s, "ab  long text");
}

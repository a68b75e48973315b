use line_history::dates::Date;
use line_history::history::{Chat, Day, History};
use line_history::parse::{parse_history, skip_header, is_chat_start, ParseError};

const CONTENT: &str = "2020/02/29(土)\r\n13:00\tC\t衛生面に気をつけよう\r\n13:00\tA\tおはよう\r\n13:01\tB\tOK\r\n\r\n2023/07/21(金)\r\n01:00\tD\t夏だね\r\n01:01\tA\t\"過去の会話でも見ようか\n2017/01/01(日)\n00:00\tA\tあけおめ\n000:01\tB\tおめでとう\n\n2020/02/29(土)\n13:00\tC\t同じ日付\n13:00\tA\tおなじ\n13:01\tB\tOK\"\r\n01:02\tB\tUnit Test はクリアできたかな？\r\n\r\n2023/07/31(月)\r\n00:00\tname\t\"\r\n\r\n\"\r\n00:01\tname\ta\r\n\r\n2023/08/01(火)\r\n06:00\tA\t夏だね2\r\n06:11\tD\tおはよう\r\n";

fn date(y: u16, m: u8, d: u8) -> Date {
    Date::new(y, m, d).unwrap()
}

fn chats_eq(a: &Chat<'_>, b: &Chat<'_>) -> bool {
    a.time == b.time && a.speaker == b.speaker && a.message_lines == b.message_lines
}

fn days_eq(a: &Day<'_>, b: &Day<'_>) -> bool {
    a.date == b.date && a.chats.len() == b.chats.len()
        && a.chats.iter().zip(b.chats.iter()).all(|(x, y)| chats_eq(x, y))
}

fn histories_eq(a: &History<'_>, b: &History<'_>) -> bool {
    a.days.len() == b.days.len()
        && a.days.iter().zip(b.days.iter()).all(|(x, y)| days_eq(x, y))
}

#[test]
fn test_parse() {
    let history = parse_history(CONTENT).unwrap();
    assert_eq!(history.days.len(), 4);
    let mut summary: Vec<(Date, usize)> = history
        .days
        .iter()
        .map(|day| (day.date, day.chats.len()))
        .collect();
    summary.sort();
    assert_eq!(
        summary,
        vec![
            (date(2020, 2, 29), 3),
            (date(2023, 7, 21), 3),
            (date(2023, 7, 31), 2),
            (date(2023, 8, 1), 2),
        ],
    );
}

#[test]
fn parse_is_idempotent() {
    let first = parse_history(CONTENT).unwrap();
    let second = parse_history(CONTENT).unwrap();
    assert!(histories_eq(&first, &second));
}

#[test]
fn header_banner_is_skipped() {
    let content = "[LINE]Group talk history\r\nSaved at: 2020/02/29 13:05\r\n\r\n2020/02/29(Sat)\r\n13:00\tC\ttext1\r\n13:00\tA\ttext2\r\n13:01\tB\tOK";
    let history = parse_history(content).unwrap();
    assert_eq!(history.days.len(), 1);
    let day = &history.days[0];
    assert_eq!(day.date, date(2020, 2, 29));
    assert_eq!(day.chats.len(), 3);
    let third = &day.chats[2];
    assert_eq!(third.message_lines, vec!["OK"]);
    assert_eq!(third.speaker, Some("B"));
    assert_eq!(third.time.hour, 13);
    assert_eq!(third.time.minute, 1);
}

#[test]
fn header_only_input_is_empty_history() {
    let content = "[LINE]Group talk history\r\nSaved at: 2020/02/29 13:05\r\n\r\n";
    let history = parse_history(content).unwrap();
    assert_eq!(history.days.len(), 0);
}

#[test]
fn empty_input_reports_empty_file() {
    let result = parse_history("");
    let (history, errors) = result.err().unwrap();
    assert_eq!(history.days.len(), 0);
    assert_eq!(errors.len(), 1);
    assert!(matches!(errors[0], ParseError::EmptyFile));
}

#[test]
fn missing_body_field_reports_invalid_entry() {
    let content = "2020/02/29(Sat)\r\n13:00\tC\ttext1\r\n13:05\tonly-two-fields\r\n13:01\tB\tOK";
    let (history, errors) = parse_history(content).err().unwrap();
    assert_eq!(errors.len(), 1);
    assert!(matches!(errors[0], ParseError::InvalidEntry("13:05\tonly-two-fields")));
    assert_eq!(history.days.len(), 1);
    let day = &history.days[0];
    assert_eq!(day.chats.len(), 2);
    assert_eq!(day.chats[0].message_lines, vec!["text1"]);
    assert_eq!(day.chats[1].message_lines, vec!["OK"]);
}

#[test]
fn bad_time_reports_invalid_time() {
    let content = "2020/02/29(Sat)\r\n25:00\tA\thello\r\n";
    let (history, errors) = parse_history(content).err().unwrap();
    assert_eq!(errors.len(), 1);
    assert!(matches!(errors[0], ParseError::InvalidTime("25:00")));
    assert_eq!(history.days[0].chats.len(), 0);
}

#[test]
fn stray_line_reports_continuation_before_entry() {
    let content = "2020/02/29(Sat)\r\nstray text\r\n13:00\tA\thello\r\n";
    let (history, errors) = parse_history(content).err().unwrap();
    assert_eq!(errors.len(), 1);
    assert!(matches!(errors[0], ParseError::ContinuationBeforeEntry("stray text")));
    assert_eq!(history.days[0].chats.len(), 1);
}

#[test]
fn stray_blank_line_is_tolerated() {
    let content = "2020/02/29(Sat)\r\n \r\n13:00\tA\thello\r\n";
    let history = parse_history(content).unwrap();
    assert_eq!(history.days[0].chats.len(), 1);
}

#[test]
fn quoted_day_header_does_not_open_a_day() {
    // The quoted body embeds a full day-header-shaped line; it must
    // stay a body line of the enclosing message, and the section's
    // messages stay on the declared date.
    let content = "2020/02/29(Sat)\r\n13:00\tA\t\"quote begins\n2019/01/01(Tue)\n00:00\tX\tinner\nquote ends\"\r\n13:01\tB\tOK\r\n";
    let history = parse_history(content).unwrap();
    assert_eq!(history.days.len(), 1);
    let day = &history.days[0];
    assert_eq!(day.date, date(2020, 2, 29));
    assert_eq!(day.chats.len(), 2);
    assert_eq!(
        day.chats[0].message_lines,
        vec!["\"quote begins\n2019/01/01(Tue)\n00:00\tX\tinner\nquote ends\""],
    );
}

#[test]
fn undated_section_merges_into_previous_day() {
    // A quoted message whose body carries real blank lines splits the
    // section; the date-less continuation merges back into the last
    // dated day rather than being dropped.
    let content = "2020/02/29(Sat)\r\n13:00\tA\t\"before\r\n\r\nafter\"\r\n13:01\tB\tOK";
    let history = parse_history(content).unwrap();
    assert_eq!(history.days.len(), 1);
    let day = &history.days[0];
    assert_eq!(day.date, date(2020, 2, 29));
    assert_eq!(day.chats.len(), 2);
    assert_eq!(day.chats[0].message_lines, vec!["\"before"]);
    assert_eq!(day.chats[1].message_lines, vec!["OK"]);
}

#[test]
fn blank_sender_means_no_sender() {
    let content = "2020/02/29(Sat)\r\n13:00\t \tsystem message\r\n";
    let history = parse_history(content).unwrap();
    assert_eq!(history.days[0].chats[0].speaker, None);
}

#[test]
fn invalid_calendar_date_is_not_a_day_header() {
    // A date-shaped header that fails strict calendar validation must
    // not open a day; with no prior day the content is dropped and
    // the event reported.
    let content = "banner line\r\nsaved at line\r\n\r\n2024/13/40(Xxx)\r\n13:00\tA\thello";
    let (history, errors) = parse_history(content).err().unwrap();
    assert_eq!(history.days.len(), 0);
    assert_eq!(errors.len(), 1);
    assert!(matches!(
        errors[0],
        ParseError::InternalError { line: "2024/13/40(Xxx)", error: "Failed to parse date" }
    ));
}

#[test]
fn leap_day_parses_only_in_leap_years() {
    let leap = parse_history("2020/02/29(Sat)\r\n13:00\tA\thi").unwrap();
    assert_eq!(leap.days[0].date, date(2020, 2, 29));
    let content = "banner line\r\nsaved at line\r\n\r\n2021/02/29(Mon)\r\n13:00\tA\thi";
    let (no_leap, errors) = parse_history(content).err().unwrap();
    assert_eq!(no_leap.days.len(), 0);
    assert_eq!(errors.len(), 1);
}

#[test]
fn repeated_date_section_replaces_the_day() {
    // One day per date: a later section carrying an already-seen date
    // replaces that day's content, as a keyed insert does.
    let content = "2020/02/29(Sat)\r\n13:00\tA\tfirst\r\n\r\n2020/02/29(Sat)\r\n14:00\tB\tsecond";
    let history = parse_history(content).unwrap();
    assert_eq!(history.days.len(), 1);
    let day = &history.days[0];
    assert_eq!(day.date, date(2020, 2, 29));
    assert_eq!(day.chats.len(), 1);
    assert_eq!(day.chats[0].message_lines, vec!["second"]);
    assert_eq!(day.chats[0].time.hour, 14);
}

#[test]
fn skip_header_needs_three_line_breaks() {
    assert_eq!(skip_header("a\r\nb\r\nc\r\nrest"), Some("rest"));
    assert_eq!(skip_header("a\r\nb\r\n"), None);
}

#[test]
fn chat_start_shape() {
    assert!(is_chat_start("13:00\tA\thello"));
    assert!(is_chat_start("99:99\tanything"));
    assert!(!is_chat_start("13:00 A hello"));
    assert!(!is_chat_start("1:00\tA\thello"));
    assert!(!is_chat_start("13:0"));
}

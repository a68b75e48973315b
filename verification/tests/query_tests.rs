use line_history::dates::Date;
use line_history::history::{ignore_errors, History, OwnedHistory};
use line_history::parse::parse_history;
use line_history::traits::{
    ChatData, DayData, HistoryData, SearchByDate, SearchByKeyword, SearchByRandom,
};

const CONTENT: &str = "2020/02/29(Sat)\r\n13:00\tC\ttext1\r\n13:00\tA\ttext2\r\n13:01\tB\tOK\r\n\r\n2023/07/21(Fri)\r\n01:00\tD\tsummer\r\n01:02\tB\tdone\r\n\r\n2023/08/01(Tue)\r\n06:00\tA\tmorning\r\n";

fn date(y: u16, m: u8, d: u8) -> Date {
    Date::new(y, m, d).unwrap()
}

#[test]
fn lookup_finds_every_present_date_and_no_other() {
    let history = parse_history(CONTENT).unwrap();
    for day in &history.days {
        let found = history.search_by_date(&day.date).unwrap();
        assert_eq!(found.date, day.date);
        assert_eq!(found.chats.len(), day.chats.len());
    }
    assert!(history.search_by_date(&date(2020, 3, 1)).is_none());
    assert!(history.search_by_date(&date(1999, 12, 31)).is_none());
}

#[test]
fn keyword_search_finds_the_single_match() {
    let history = parse_history(CONTENT).unwrap();
    let found = history.search_by_keyword("OK");
    assert_eq!(found.len(), 1);
    let (d, chat) = &found[0];
    assert_eq!(*d, date(2020, 2, 29));
    assert_eq!(chat.message_lines, vec!["OK"]);
    assert_eq!(chat.speaker, Some("B"));
}

#[test]
fn keyword_search_on_owned_matches_borrowed() {
    let history = parse_history(CONTENT).unwrap();
    let owned: OwnedHistory = ignore_errors(parse_history(CONTENT)).into_owned();
    let b = history.search_by_keyword("text");
    let o = owned.search_by_keyword("text");
    assert_eq!(b.len(), 2);
    assert_eq!(o.len(), b.len());
    for (pair_b, pair_o) in b.iter().zip(o.iter()) {
        assert_eq!(pair_b.0, pair_o.0);
        assert_eq!(pair_b.1.message_lines, pair_o.1.message_lines);
    }
}

#[test]
fn random_day_is_always_present_and_covers_all_days() {
    let history = parse_history(CONTENT).unwrap();
    let dates: Vec<Date> = history.days.iter().map(|d| d.date).collect();
    let mut hits = vec![0usize; dates.len()];
    for _ in 0..3000 {
        let day = history.search_by_random();
        let pos = dates.iter().position(|d| *d == day.date).unwrap();
        hits[pos] += 1;
    }
    // A uniform draw over three days makes each count cluster near
    // 1000; demanding at least 500 leaves enormous slack.
    for h in hits {
        assert!(h > 500);
    }
}

#[test]
fn round_trip_preserves_everything() {
    let history = parse_history(CONTENT).unwrap();
    let owned = ignore_errors(parse_history(CONTENT)).into_owned();
    let back: History<'_> = owned.as_ref_history();
    assert_eq!(back.days.len(), history.days.len());
    for (a, b) in history.days.iter().zip(back.days.iter()) {
        assert_eq!(a.date, b.date);
        assert_eq!(a.chats.len(), b.chats.len());
        for (x, y) in a.chats.iter().zip(b.chats.iter()) {
            assert_eq!(x.time, y.time);
            assert_eq!(x.speaker, y.speaker);
            assert_eq!(x.message_lines, y.message_lines);
        }
    }
}

#[test]
fn owned_accessors_match_borrowed() {
    let owned = OwnedHistory::from_text(CONTENT);
    assert_eq!(owned.len(), 3);
    assert!(!owned.is_empty());
    let day = owned.search_by_date(&date(2023, 7, 21)).unwrap();
    assert_eq!(day.chats()[0].sender(), Some("D"));
    assert_eq!(day.chats()[0].message_lines()[0], "summer");
    assert_eq!(day.chats()[0].time().hour, 1);
    let random = owned.search_by_random();
    assert!(owned.search_by_date(&random.date).is_some());
}

#[test]
fn dates_in_filters_by_year_and_month() {
    let history = History::from_text(CONTENT);
    assert_eq!(history.dates_in(2023, None), vec![date(2023, 7, 21), date(2023, 8, 1)]);
    assert_eq!(history.dates_in(2023, Some(7)), vec![date(2023, 7, 21)]);
    assert_eq!(history.dates_in(2020, Some(2)), vec![date(2020, 2, 29)]);
    assert_eq!(history.dates_in(1999, None), vec![]);
}

#[test]
fn contains_looks_at_every_body_line() {
    let content = "2020/02/29(Sat)\r\n13:00\tA\tfirst line\r\nsecond line\r\nthird line";
    let history = History::from_text(content);
    let chat = &history.days[0].chats[0];
    assert_eq!(chat.message_lines.len(), 3);
    assert!(chat.contains("third"));
    assert!(chat.contains("line"));
    assert!(!chat.contains("fourth"));
}

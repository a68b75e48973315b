//! The parser: turns the plain-text export of a conversation into a
//! `History`, collecting recoverable diagnostics instead of aborting.
//!
//! The grammar, per physical line (lines are separated by `"\r\n"`,
//! day sections by a blank line):
//! - a *day-header line* starts with ten characters `YYYY/MM/DD` that
//!   form a real calendar date;
//! - a *message-start line* starts with six characters `HH:MM` and a
//!   tab, and carries tab-separated sender and first-body-line fields;
//! - every other line continues the message being assembled.
//!
//! A stray blank line before any open message is tolerated silently
//! (the lenient default); a non-blank one is reported.

use vstd::prelude::*;

use crate::dates::{valid_date, valid_time, Date, Time};
use crate::history::{ChatView, Chat, Day, DayView, History, find_day_from, unique_dates};
use crate::text::{
    crlf, crlf_crlf, find_from, find_from_str, is_blank, is_blank_str, lemma_find_from_props,
    lemma_separator_literals, spec_split, split_str,
};

verus! {

/// A recoverable defect found while parsing; each carries the slice of
/// the source text it was found in.
#[derive(Debug)]
pub enum ParseError<'src> {
    /// The input has no lines at all.
    EmptyFile,
    /// A message-start line lacks the required tab-delimited fields.
    InvalidEntry(&'src str),
    /// A non-blank line appeared before any message was opened.
    ContinuationBeforeEntry(&'src str),
    /// Reserved: a date field that looks plausible but fails strict
    /// calendar validation.
    InvalidDate(&'src str),
    /// A message-start line's leading `HH:MM` is not a real time.
    InvalidTime(&'src str),
    /// A section without a parseable date could not be merged into any
    /// prior day.
    InternalError { line: &'src str, error: &'src str },
}

/// The mathematical content of a `ParseError`.
pub ghost enum ParseErrorView {
    EmptyFile,
    InvalidEntry(Seq<char>),
    ContinuationBeforeEntry(Seq<char>),
    InvalidDate(Seq<char>),
    InvalidTime(Seq<char>),
    InternalError { line: Seq<char>, error: Seq<char> },
}

impl<'src> View for ParseError<'src> {
    type V = ParseErrorView;

    open spec fn view(&self) -> ParseErrorView {
        match *self {
            ParseError::EmptyFile => ParseErrorView::EmptyFile,
            ParseError::InvalidEntry(s) => ParseErrorView::InvalidEntry(s@),
            ParseError::ContinuationBeforeEntry(s) => ParseErrorView::ContinuationBeforeEntry(s@),
            ParseError::InvalidDate(s) => ParseErrorView::InvalidDate(s@),
            ParseError::InvalidTime(s) => ParseErrorView::InvalidTime(s@),
            ParseError::InternalError { line, error } => ParseErrorView::InternalError {
                line: line@,
                error: error@,
            },
        }
    }
}

impl<'src> DeepView for ParseError<'src> {
    type V = ParseErrorView;

    open spec fn deep_view(&self) -> ParseErrorView {
        self.view()
    }
}

/// The character is an ASCII decimal digit.
pub open spec fn is_digit(c: char) -> bool {
    48 <= c as int <= 57
}

/// The numeric value of an ASCII decimal digit.
pub open spec fn digit_val(c: char) -> int {
    c as int - 48
}

/// The line's first ten characters have the shape `YYYY/MM/DD`.
pub open spec fn is_date_shaped(line: Seq<char>) -> bool {
    &&& line.len() >= 10
    &&& is_digit(line[0])
    &&& is_digit(line[1])
    &&& is_digit(line[2])
    &&& is_digit(line[3])
    &&& line[4] == '/'
    &&& is_digit(line[5])
    &&& is_digit(line[6])
    &&& line[7] == '/'
    &&& is_digit(line[8])
    &&& is_digit(line[9])
}

/// The date written in the line's first ten characters, provided they
/// are date-shaped and form a real calendar date; `None` otherwise.
pub open spec fn date_of_line(line: Seq<char>) -> Option<Date> {
    if is_date_shaped(line) {
        let y = digit_val(line[0]) * 1000 + digit_val(line[1]) * 100 + digit_val(line[2]) * 10
            + digit_val(line[3]);
        let m = digit_val(line[5]) * 10 + digit_val(line[6]);
        let d = digit_val(line[8]) * 10 + digit_val(line[9]);
        if valid_date(y, m, d) {
            Some(Date { year: y as u16, month: m as u8, day: d as u8 })
        } else {
            None
        }
    } else {
        None
    }
}

/// The line's first six characters have the shape `HH:MM` plus a tab —
/// the heuristic that opens a new message, whether or not the digits
/// form a real time.
pub open spec fn is_chat_start_spec(line: Seq<char>) -> bool {
    &&& line.len() >= 6
    &&& is_digit(line[0])
    &&& is_digit(line[1])
    &&& line[2] == ':'
    &&& is_digit(line[3])
    &&& is_digit(line[4])
    &&& line[5] == '\t'
}

/// What parsing a message-start line yields: the assembled message, or
/// the defect found.  The time must be a real 24-hour time
/// (`InvalidTime`), and a second tab must separate the sender field
/// from the first body line (`InvalidEntry`); a blank sender field
/// means no sender.
pub open spec fn chat_entry_of(line: Seq<char>) -> Result<ChatView, ParseErrorView> {
    let hh = digit_val(line[0]) * 10 + digit_val(line[1]);
    let mm = digit_val(line[3]) * 10 + digit_val(line[4]);
    if !valid_time(hh, mm) {
        Err(ParseErrorView::InvalidTime(line.take(5)))
    } else {
        let rest = line.skip(6);
        match find_from(rest, seq!['\t'], 0) {
            Option::None => Err(ParseErrorView::InvalidEntry(line)),
            Option::Some(t) => {
                let speaker = rest.take(t);
                let body = rest.skip(t + 1);
                Ok(
                    ChatView {
                        time: Time { hour: hh as u8, minute: mm as u8 },
                        speaker: if is_blank(speaker) {
                            Option::None
                        } else {
                            Option::Some(speaker)
                        },
                        lines: seq![body],
                    },
                )
            },
        }
    }
}

/// The message assembler's running state within one day section: the
/// finished messages, the message still being assembled, and the
/// diagnostics so far.
pub ghost struct ChatsState {
    pub chats: Seq<ChatView>,
    pub cur: Option<ChatView>,
    pub errs: Seq<ParseErrorView>,
}

/// One step of the message assembler.  A message-start line finalizes
/// any open message and opens a new one (or records the line's
/// defect); any other line joins the open message's body; without an
/// open message, a blank line is tolerated and a non-blank one
/// reported.
pub open spec fn chats_step(st: ChatsState, line: Seq<char>) -> ChatsState {
    if is_chat_start_spec(line) {
        let chats = match st.cur {
            Option::Some(c) => st.chats.push(c),
            Option::None => st.chats,
        };
        match chat_entry_of(line) {
            Result::Ok(c) => ChatsState { chats, cur: Option::Some(c), errs: st.errs },
            Result::Err(e) => ChatsState { chats, cur: Option::None, errs: st.errs.push(e) },
        }
    } else {
        match st.cur {
            Option::Some(c) => ChatsState {
                chats: st.chats,
                cur: Option::Some(
                    ChatView { time: c.time, speaker: c.speaker, lines: c.lines.push(line) },
                ),
                errs: st.errs,
            },
            Option::None => if is_blank(line) {
                st
            } else {
                ChatsState {
                    chats: st.chats,
                    cur: Option::None,
                    errs: st.errs.push(ParseErrorView::ContinuationBeforeEntry(line)),
                }
            },
        }
    }
}

/// The assembler's state after consuming the given lines in order,
/// starting from nothing.
pub open spec fn chats_fold(lines: Seq<Seq<char>>) -> ChatsState
    decreases lines.len(),
{
    if lines.len() == 0 {
        ChatsState { chats: seq![], cur: Option::None, errs: seq![] }
    } else {
        chats_step(chats_fold(lines.drop_last()), lines.last())
    }
}

/// The messages of one day section's message lines: the fold's
/// finished messages, plus the still-open one, finalized.
pub open spec fn section_messages(lines: Seq<Seq<char>>) -> Seq<ChatView> {
    let st = chats_fold(lines);
    match st.cur {
        Option::Some(c) => st.chats.push(c),
        Option::None => st.chats,
    }
}

/// The diagnostics of one day section's message lines.
pub open spec fn section_errors(lines: Seq<Seq<char>>) -> Seq<ParseErrorView> {
    chats_fold(lines).errs
}

/// Groups the lines from position `start` on into messages, exactly as
/// `section_messages` and `section_errors` describe.
fn parse_chats<'src>(lines: &Vec<&'src str>, start: usize) -> (r: (
    Vec<Chat<'src>>,
    Vec<ParseError<'src>>,
))
    requires
        start <= lines@.len(),
    ensures
        r.0.deep_view() == section_messages(lines.deep_view().skip(start as int)),
        r.1.deep_view() == section_errors(lines.deep_view().skip(start as int)),
{
    let ghost tail = lines.deep_view().skip(start as int);
    let mut chats: Vec<Chat<'src>> = Vec::new();
    let mut errors: Vec<ParseError<'src>> = Vec::new();
    let mut current: Option<Chat<'src>> = None;
    let mut i: usize = start;
    while i < lines.len()
        invariant
            start <= i <= lines@.len(),
            tail == lines.deep_view().skip(start as int),
            chats.deep_view() == chats_fold(tail.take(i as int - start as int)).chats,
            current.deep_view() == chats_fold(tail.take(i as int - start as int)).cur,
            errors.deep_view() == chats_fold(tail.take(i as int - start as int)).errs,
        decreases lines@.len() - i,
    {
        let ghost st_pre = chats_fold(tail.take(i as int - start as int));
        let ghost prefix = tail.take(i as int - start as int + 1);
        proof {
            assert(prefix.drop_last() =~= tail.take(i as int - start as int));
            assert(prefix.last() == tail[i as int - start as int]);
            assert(tail[i as int - start as int] == lines.deep_view()[i as int]);
            assert(lines.deep_view()[i as int] == lines@[i as int]@);
        }
        let line: &'src str = lines[i];
        if is_chat_start(line) {
            let taken = current.take();
            match taken {
                Option::Some(c) => {
                    let ghost pre = chats.deep_view();
                    chats.push(c);
                    proof {
                        assert(chats.deep_view() =~= pre.push(c@));
                    }
                },
                Option::None => {},
            }
            match parse_chat_entry(line) {
                Result::Ok(c) => {
                    current = Some(c);
                },
                Result::Err(e) => {
                    let ghost pre = errors.deep_view();
                    let ghost ev = e@;
                    errors.push(e);
                    proof {
                        assert(errors.deep_view() =~= pre.push(ev));
                    }
                },
            }
        } else {
            let taken = current.take();
            match taken {
                Option::Some(mut c) => {
                    let ghost lines_pre = c.message_lines.deep_view();
                    c.message_lines.push(line);
                    proof {
                        assert(c.message_lines.deep_view() =~= lines_pre.push(line@));
                    }
                    current = Some(c);
                },
                Option::None => {
                    if !is_blank_str(line) {
                        let ghost pre = errors.deep_view();
                        errors.push(ParseError::ContinuationBeforeEntry(line));
                        proof {
                            assert(errors.deep_view() =~= pre.push(
                                ParseErrorView::ContinuationBeforeEntry(line@),
                            ));
                        }
                    }
                },
            }
        }
        proof {
            let st_post = chats_step(st_pre, prefix.last());
            assert(chats_fold(prefix) == st_post);
            assert(chats.deep_view() == st_post.chats);
            assert(current.deep_view() == st_post.cur);
            assert(errors.deep_view() == st_post.errs);
        }
        i += 1;
    }
    proof {
        assert(tail.take(lines@.len() - start as int) =~= tail);
    }
    let taken = current.take();
    match taken {
        Option::Some(c) => {
            let ghost pre = chats.deep_view();
            chats.push(c);
            proof {
                assert(chats.deep_view() =~= pre.push(c@));
            }
        },
        Option::None => {},
    }
    (chats, errors)
}

/// Parses the first ten characters of a day-header candidate into a
/// date, exactly as `date_of_line` describes.
pub fn parse_date_line(date_line: &str) -> (r: Option<Date>)
    ensures
        r == date_of_line(date_line@),
{
    let len = date_line.unicode_len();
    if len < 10 {
        return None;
    }
    let c0 = date_line.get_char(0) as u32;
    let c1 = date_line.get_char(1) as u32;
    let c2 = date_line.get_char(2) as u32;
    let c3 = date_line.get_char(3) as u32;
    let s4 = date_line.get_char(4);
    let c5 = date_line.get_char(5) as u32;
    let c6 = date_line.get_char(6) as u32;
    let s7 = date_line.get_char(7);
    let c8 = date_line.get_char(8) as u32;
    let c9 = date_line.get_char(9) as u32;
    let digits_ok = 48 <= c0 && c0 <= 57 && 48 <= c1 && c1 <= 57 && 48 <= c2 && c2 <= 57 && 48
        <= c3 && c3 <= 57 && 48 <= c5 && c5 <= 57 && 48 <= c6 && c6 <= 57 && 48 <= c8 && c8 <= 57
        && 48 <= c9 && c9 <= 57;
    if !(digits_ok && s4 == '/' && s7 == '/') {
        return None;
    }
    let y = ((c0 - 48) * 1000 + (c1 - 48) * 100 + (c2 - 48) * 10 + (c3 - 48)) as u16;
    let m = ((c5 - 48) * 10 + (c6 - 48)) as u8;
    let d = ((c8 - 48) * 10 + (c9 - 48)) as u8;
    Date::new(y, m, d)
}

/// Whether the line opens a new message: its first six characters have
/// the shape `HH:MM` plus a tab.
pub fn is_chat_start(line: &str) -> (r: bool)
    ensures
        r == is_chat_start_spec(line@),
{
    let len = line.unicode_len();
    if len < 6 {
        return false;
    }
    let c0 = line.get_char(0) as u32;
    let c1 = line.get_char(1) as u32;
    let s2 = line.get_char(2);
    let c3 = line.get_char(3) as u32;
    let c4 = line.get_char(4) as u32;
    let s5 = line.get_char(5);
    48 <= c0 && c0 <= 57 && 48 <= c1 && c1 <= 57 && s2 == ':' && 48 <= c3 && c3 <= 57 && 48 <= c4
        && c4 <= 57 && s5 == '\t'
}

/// Parses a message-start line into a `Chat`, exactly as
/// `chat_entry_of` describes.
fn parse_chat_entry<'src>(line: &'src str) -> (r: Result<Chat<'src>, ParseError<'src>>)
    requires
        is_chat_start_spec(line@),
    ensures
        match r {
            Result::Ok(c) => chat_entry_of(line@) == Result::<ChatView, ParseErrorView>::Ok(c@),
            Result::Err(e) => chat_entry_of(line@) == Result::<ChatView, ParseErrorView>::Err(e@),
        },
{
    proof {
        lemma_separator_literals();
    }
    let len = line.unicode_len();
    let c0 = line.get_char(0) as u32;
    let c1 = line.get_char(1) as u32;
    let c3 = line.get_char(3) as u32;
    let c4 = line.get_char(4) as u32;
    let hh = (c0 - 48) * 10 + (c1 - 48);
    let mm = (c3 - 48) * 10 + (c4 - 48);
    if !(hh < 24 && mm < 60) {
        let time_str = line.substring_char(0, 5);
        proof {
            assert(time_str@ =~= line@.take(5));
        }
        return Err(ParseError::InvalidTime(time_str));
    }
    let rest = line.substring_char(6, len);
    proof {
        assert(rest@ =~= line@.skip(6));
    }
    match find_from_str(rest, "\t", 0) {
        Option::None => Err(ParseError::InvalidEntry(line)),
        Option::Some(t) => {
            proof {
                lemma_find_from_props(rest@, "\t"@, 0);
            }
            let rest_len = rest.unicode_len();
            let speaker_str = rest.substring_char(0, t);
            let body = rest.substring_char(t + 1, rest_len);
            proof {
                assert(speaker_str@ =~= line@.skip(6).take(t as int));
                assert(body@ =~= line@.skip(6).skip(t as int + 1));
            }
            let speaker = if is_blank_str(speaker_str) {
                None
            } else {
                Some(speaker_str)
            };
            let c = Chat {
                time: Time { hour: hh as u8, minute: mm as u8 },
                speaker,
                message_lines: vec![body],
            };
            proof {
                assert(c@.lines =~= seq![line@.skip(6).skip(t as int + 1)]);
            }
            Ok(c)
        },
    }
}

/// The builder's running state: the days so far, the date of the most
/// recent successfully dated section, and the diagnostics so far.
pub ghost struct BuildState {
    pub days: Seq<DayView>,
    pub cur_date: Option<Date>,
    pub errs: Seq<ParseErrorView>,
}

/// Stores `day` under its date: replaces the existing day carrying the
/// same date, or appends a new one.
pub open spec fn upsert_day(days: Seq<DayView>, day: DayView) -> Seq<DayView> {
    match find_day_from(days, day.date, 0) {
        Option::Some(i) => days.update(i, day),
        Option::None => days.push(day),
    }
}

/// A section whose header date did not parse: its messages join the
/// most recently dated day — the defense against quoted text shaped
/// like a day header — and when no such day exists the event is
/// reported and the content dropped.
pub open spec fn merge_or_report(
    st: BuildState,
    date_line: Seq<char>,
    msgs: Seq<ChatView>,
) -> BuildState {
    match st.cur_date {
        Option::None => BuildState {
            days: st.days,
            cur_date: st.cur_date,
            errs: st.errs.push(
                ParseErrorView::InternalError { line: date_line, error: "Failed to parse date"@ },
            ),
        },
        Option::Some(d) => match find_day_from(st.days, d, 0) {
            Option::None => BuildState {
                days: st.days,
                cur_date: st.cur_date,
                errs: st.errs.push(
                    ParseErrorView::InternalError { line: date_line, error: "Day not found"@ },
                ),
            },
            Option::Some(i) => BuildState {
                days: st.days.update(
                    i,
                    DayView { date: st.days[i].date, chats: st.days[i].chats + msgs },
                ),
                cur_date: st.cur_date,
                errs: st.errs,
            },
        },
    }
}

/// One step of the history builder on one day section.  An empty
/// section is skipped; otherwise the section's first line is the
/// day-header candidate and the rest are message lines.
pub open spec fn build_step(st: BuildState, section: Seq<char>) -> BuildState {
    if section.len() == 0 {
        st
    } else {
        let lines = spec_split(section, crlf());
        let date_line = lines[0];
        let msgs = section_messages(lines.skip(1));
        let errs = st.errs + section_errors(lines.skip(1));
        match date_of_line(date_line) {
            Option::Some(date) => BuildState {
                days: upsert_day(st.days, DayView { date, chats: msgs }),
                cur_date: Option::Some(date),
                errs,
            },
            Option::None => merge_or_report(
                BuildState { days: st.days, cur_date: st.cur_date, errs },
                date_line,
                msgs,
            ),
        }
    }
}

/// The builder's state after consuming the given sections in order,
/// starting from nothing.
pub open spec fn build_fold(sections: Seq<Seq<char>>) -> BuildState
    decreases sections.len(),
{
    if sections.len() == 0 {
        BuildState { days: seq![], cur_date: Option::None, errs: seq![] }
    } else {
        build_step(build_fold(sections.drop_last()), sections.last())
    }
}

/// The first line of the input, as `str::lines` yields it: everything
/// before the first `'\n'`, with one trailing `'\r'` stripped.
pub open spec fn first_line_of(s: Seq<char>) -> Seq<char> {
    let upto = match find_from(s, seq!['\n'], 0) {
        Option::Some(i) => s.take(i),
        Option::None => s,
    };
    if upto.len() > 0 && upto.last() == '\r' {
        upto.drop_last()
    } else {
        upto
    }
}

/// Everything after the third `"\r\n"` of the input, when the input
/// has three; the file header that this skips is not parsed.
pub open spec fn skip_header_spec(s: Seq<char>) -> Option<Seq<char>> {
    match find_from(s, crlf(), 0) {
        Option::None => Option::None,
        Option::Some(i1) => match find_from(s, crlf(), i1 + 2) {
            Option::None => Option::None,
            Option::Some(i2) => match find_from(s, crlf(), i2 + 2) {
                Option::None => Option::None,
                Option::Some(i3) => Option::Some(s.skip(i3 + 2)),
            },
        },
    }
}

/// The transcript body: the whole input when its first line is already
/// a day header, everything after the skipped header otherwise (and
/// nothing, when the header never ends).
pub open spec fn parse_body_of(input: Seq<char>) -> Seq<char> {
    if date_of_line(first_line_of(input)) is Some {
        input
    } else {
        match skip_header_spec(input) {
            Option::Some(b) => b,
            Option::None => Seq::empty(),
        }
    }
}

/// What parsing the whole input yields: the days, and the diagnostics
/// in the order they were found.  An empty input yields no days and
/// the single diagnostic `EmptyFile`.
pub open spec fn spec_parse(input: Seq<char>) -> (Seq<DayView>, Seq<ParseErrorView>) {
    if input.len() == 0 {
        (seq![], seq![ParseErrorView::EmptyFile])
    } else {
        let st = build_fold(spec_split(parse_body_of(input), crlf_crlf()));
        (st.days, st.errs)
    }
}

/// A day section whose header line carries `date` contributes its
/// messages to the day dated `date` and to no other day: the lines
/// after the first — even ones shaped like a day header — never open
/// a day of their own.
pub proof fn lemma_dated_section_attribution(st: BuildState, section: Seq<char>, date: Date)
    requires
        section.len() > 0,
        date_of_line(spec_split(section, crlf())[0]) == Some(date),
    ensures
        build_step(st, section).days == upsert_day(
            st.days,
            DayView { date, chats: section_messages(spec_split(section, crlf()).skip(1)) },
        ),
        build_step(st, section).cur_date == Some(date),
{
}

/// A line that does not open a message, while one is being assembled,
/// becomes one more body line of that message — even when it is
/// shaped like a day header or carries an embedded blank line.
pub proof fn lemma_continuation_joins_open_message(st: ChatsState, line: Seq<char>, c: ChatView)
    requires
        !is_chat_start_spec(line),
        st.cur == Some(c),
    ensures
        chats_step(st, line) == (ChatsState {
            chats: st.chats,
            cur: Some(ChatView { time: c.time, speaker: c.speaker, lines: c.lines.push(line) }),
            errs: st.errs,
        }),
{
}

/// A section whose header date does not parse — as when quoted text
/// shaped like a day header caused a spurious split — merges its
/// messages into the most recently dated day: no day is added, no day
/// is dropped, and every other day is untouched.
pub proof fn lemma_merge_forward(st: BuildState, section: Seq<char>, d: Date, i: int)
    requires
        section.len() > 0,
        date_of_line(spec_split(section, crlf())[0]) is None,
        st.cur_date == Some(d),
        find_day_from(st.days, d, 0) == Some(i),
    ensures
        0 <= i < st.days.len(),
        build_step(st, section).days == st.days.update(
            i,
            DayView {
                date: st.days[i].date,
                chats: st.days[i].chats + section_messages(spec_split(section, crlf()).skip(1)),
            },
        ),
        build_step(st, section).cur_date == st.cur_date,
        build_step(st, section).days.len() == st.days.len(),
        forall|j: int| 0 <= j < st.days.len() && j != i ==> build_step(st, section).days[j]
            == st.days[j],
{
    crate::history::lemma_find_day_from_props(st.days, d, 0);
}

/// An input that holds only a header — nothing follows the header's
/// end — parses to an empty history with no diagnostics: an empty
/// transcript is not a format violation.
pub proof fn lemma_header_only_empty(input: Seq<char>)
    requires
        input.len() > 0,
        parse_body_of(input).len() == 0,
    ensures
        spec_parse(input).0 =~= Seq::<DayView>::empty(),
        spec_parse(input).1 =~= Seq::<ParseErrorView>::empty(),
{
    let body = parse_body_of(input);
    assert(spec_split(body, crlf_crlf()) =~= seq![body]);
    let secs = seq![body];
    assert(secs.drop_last() =~= Seq::<Seq<char>>::empty());
    assert(build_fold(secs) == build_step(build_fold(secs.drop_last()), body));
}

/// Parsing is a function of the text alone: two parses of the same
/// input yield the same days, and so the same date-to-day mapping.
pub proof fn lemma_parse_deterministic(
    input: Seq<char>,
    days1: Seq<DayView>,
    days2: Seq<DayView>,
)
    requires
        days1 == spec_parse(input).0,
        days2 == spec_parse(input).0,
    ensures
        days1 == days2,
        forall|d: Date| find_day_from(days1, d, 0) == find_day_from(days2, d, 0),
{
}

/// Messages and the open message produced by the assembler are
/// well-formed: a real time, at least one body line, no blank sender.
pub open spec fn chats_state_wf(st: ChatsState) -> bool {
    &&& forall|i: int| 0 <= i < st.chats.len() ==> st.chats[i].wf()
    &&& st.cur matches Some(c) ==> c.wf()
}

pub proof fn lemma_chats_fold_wf(lines: Seq<Seq<char>>)
    ensures
        chats_state_wf(chats_fold(lines)),
        forall|i: int| 0 <= i < section_messages(lines).len() ==> section_messages(lines)[i].wf(),
    decreases lines.len(),
{
    if lines.len() > 0 {
        lemma_chats_fold_wf(lines.drop_last());
        let st = chats_fold(lines.drop_last());
        let line = lines.last();
        if is_chat_start_spec(line) {
            match chat_entry_of(line) {
                Result::Ok(c) => {
                    assert(c.wf());
                },
                Result::Err(_) => {},
            }
        }
    }
}

/// Days accumulated by the builder are well-formed and carry pairwise
/// distinct dates.
pub open spec fn build_state_wf(st: BuildState) -> bool {
    &&& unique_dates(st.days)
    &&& forall|i: int| 0 <= i < st.days.len() ==> st.days[i].wf()
}

proof fn lemma_upsert_wf(days: Seq<DayView>, day: DayView)
    requires
        unique_dates(days),
        forall|i: int| 0 <= i < days.len() ==> days[i].wf(),
        day.wf(),
    ensures
        unique_dates(upsert_day(days, day)),
        forall|i: int| 0 <= i < upsert_day(days, day).len() ==> upsert_day(days, day)[i].wf(),
{
    crate::history::lemma_find_day_from_props(days, day.date, 0);
    match find_day_from(days, day.date, 0) {
        Option::Some(i) => {
            assert(days[i].date == day.date);
        },
        Option::None => {
            assert(forall|j: int| 0 <= j < days.len() ==> days[j].date != day.date);
        },
    }
}

pub proof fn lemma_build_fold_wf(sections: Seq<Seq<char>>)
    ensures
        build_state_wf(build_fold(sections)),
    decreases sections.len(),
{
    if sections.len() > 0 {
        lemma_build_fold_wf(sections.drop_last());
        let st = build_fold(sections.drop_last());
        let section = sections.last();
        if section.len() > 0 {
            let lines = spec_split(section, crlf());
            let date_line = lines[0];
            let msgs = section_messages(lines.skip(1));
            lemma_chats_fold_wf(lines.skip(1));
            match date_of_line(date_line) {
                Option::Some(date) => {
                    assert(date.wf());
                    lemma_upsert_wf(st.days, DayView { date, chats: msgs });
                },
                Option::None => {
                    match st.cur_date {
                        Option::Some(d) => {
                            match find_day_from(st.days, d, 0) {
                                Option::Some(i) => {
                                    crate::history::lemma_find_day_from_props(st.days, d, 0);
                                    let merged = DayView {
                                        date: st.days[i].date,
                                        chats: st.days[i].chats + msgs,
                                    };
                                    assert(merged.wf());
                                },
                                Option::None => {},
                            }
                        },
                        Option::None => {},
                    }
                },
            }
        }
    }
}

/// The first line of the input, as `first_line_of` describes.
fn first_line(s: &str) -> (r: &str)
    ensures
        r@ == first_line_of(s@),
{
    proof {
        lemma_separator_literals();
    }
    let upto = match find_from_str(s, "\n", 0) {
        Option::Some(i) => {
            proof {
                lemma_find_from_props(s@, "\n"@, 0);
            }
            s.substring_char(0, i)
        },
        Option::None => s,
    };
    let ul = upto.unicode_len();
    if ul > 0 && upto.get_char(ul - 1) == '\r' {
        let r = upto.substring_char(0, ul - 1);
        proof {
            assert(r@ =~= first_line_of(s@));
        }
        r
    } else {
        proof {
            assert(upto@ =~= first_line_of(s@));
        }
        upto
    }
}

/// Skips the file header: hands back everything after the input's
/// third `"\r\n"`, or nothing when there are fewer than three.
pub fn skip_header<'a>(src: &'a str) -> (r: Option<&'a str>)
    ensures
        r.deep_view() == skip_header_spec(src@),
{
    proof {
        lemma_separator_literals();
    }
    let len = src.unicode_len();
    match find_from_str(src, "\r\n", 0) {
        Option::None => None,
        Option::Some(i1) => {
            proof {
                lemma_find_from_props(src@, "\r\n"@, 0);
                assert(i1 + 2 <= len);
            }
            match find_from_str(src, "\r\n", i1 + 2) {
                Option::None => None,
                Option::Some(i2) => {
                    proof {
                        lemma_find_from_props(src@, "\r\n"@, i1 as int + 2);
                        assert(i2 + 2 <= len);
                    }
                    match find_from_str(src, "\r\n", i2 + 2) {
                        Option::None => None,
                        Option::Some(i3) => {
                            proof {
                                lemma_find_from_props(src@, "\r\n"@, i2 as int + 2);
                                assert(i3 + 2 <= len);
                            }
                            let b = src.substring_char(i3 + 2, len);
                            proof {
                                assert(b@ =~= src@.skip(i3 as int + 2));
                            }
                            Some(b)
                        },
                    }
                },
            }
        },
    }
}

/// Index of the first day carrying `date`, as `find_day_from`
/// describes.
fn find_day_index(days: &Vec<Day<'_>>, date: Date) -> (r: Option<usize>)
    ensures
        (match r {
            Option::Some(i) => Option::Some(i as int),
            Option::None => Option::None,
        }) == find_day_from(days.deep_view(), date, 0),
{
    let mut i: usize = 0;
    while i < days.len()
        invariant
            i <= days@.len(),
            find_day_from(days.deep_view(), date, 0) == find_day_from(
                days.deep_view(),
                date,
                i as int,
            ),
        decreases days@.len() - i,
    {
        if days[i].date == date {
            assert(days.deep_view()[i as int].date == date);
            return Some(i);
        }
        assert(days.deep_view()[i as int].date == days@[i as int]@.date);
        i += 1;
    }
    None
}

/// Stores a freshly dated day, as `upsert_day` describes: replaces the
/// existing day carrying the same date, or appends a new one.
fn upsert_exec<'src>(days: &mut Vec<Day<'src>>, day: Day<'src>)
    ensures
        final(days).deep_view() == upsert_day(old(days).deep_view(), day@),
{
    let date = day.date;
    proof {
        crate::history::lemma_find_day_from_props(days.deep_view(), date, 0);
    }
    match find_day_index(days, date) {
        Option::Some(ix) => {
            let ghost pre_seq = days@;
            let ghost pre_dv = days.deep_view();
            let _ = days.remove(ix);
            days.insert(ix, day);
            proof {
                assert(days@ =~= pre_seq.update(ix as int, day));
                assert(days.deep_view() =~= pre_dv.update(ix as int, day@));
            }
        },
        Option::None => {
            let ghost pre_dv = days.deep_view();
            days.push(day);
            proof {
                assert(days.deep_view() =~= pre_dv.push(day@));
            }
        },
    }
}

/// Handles one non-empty day section: parses its header candidate and
/// its message lines, and folds the outcome into the builder's state,
/// exactly as `build_step` describes.
fn process_section<'src>(
    days: &mut Vec<Day<'src>>,
    current_date: &mut Option<Date>,
    errors: &mut Vec<ParseError<'src>>,
    section: &'src str,
)
    requires
        section@.len() > 0,
    ensures
        ({
            let st_post = build_step(
                BuildState {
                    days: old(days).deep_view(),
                    cur_date: *old(current_date),
                    errs: old(errors).deep_view(),
                },
                section@,
            );
            final(days).deep_view() == st_post.days && *final(current_date) == st_post.cur_date
                && final(errors).deep_view() == st_post.errs
        }),
{
    proof {
        lemma_separator_literals();
    }
    let lines = split_str(section, "\r\n");
    let date_line: &'src str = lines[0];
    proof {
        assert(date_line@ == lines.deep_view()[0]);
        assert(lines.deep_view().skip(1) =~= spec_split(section@, crlf()).skip(1));
    }
    let date_parsed = parse_date_line(date_line);
    let (mut chats, mut section_errors) = parse_chats(&lines, 1);
    let ghost chats_dv = chats.deep_view();
    let ghost serrs_dv = section_errors.deep_view();
    let ghost errs_pre = errors.deep_view();
    errors.append(&mut section_errors);
    proof {
        assert(errors.deep_view() =~= errs_pre + serrs_dv);
    }
    match date_parsed {
        Option::Some(date) => {
            let day = Day { date, chats };
            proof {
                assert(day@ == (DayView { date, chats: chats_dv }));
            }
            upsert_exec(days, day);
            *current_date = Some(date);
        },
        Option::None => {
            let cur = *current_date;
            match cur {
                Option::None => {
                    let ghost pre = errors.deep_view();
                    errors.push(
                        ParseError::InternalError { line: date_line, error: "Failed to parse date" },
                    );
                    proof {
                        assert(errors.deep_view() =~= pre.push(
                            ParseErrorView::InternalError {
                                line: date_line@,
                                error: "Failed to parse date"@,
                            },
                        ));
                    }
                },
                Option::Some(d) => {
                    proof {
                        crate::history::lemma_find_day_from_props(days.deep_view(), d, 0);
                    }
                    match find_day_index(days, d) {
                        Option::None => {
                            let ghost pre = errors.deep_view();
                            errors.push(
                                ParseError::InternalError {
                                    line: date_line,
                                    error: "Day not found",
                                },
                            );
                            proof {
                                assert(errors.deep_view() =~= pre.push(
                                    ParseErrorView::InternalError {
                                        line: date_line@,
                                        error: "Day not found"@,
                                    },
                                ));
                            }
                        },
                        Option::Some(ix) => {
                            let ghost pre_seq = days@;
                            let ghost pre_dv = days.deep_view();
                            let mut day = days.remove(ix);
                            let ghost day_chats_pre = day.chats.deep_view();
                            proof {
                                assert(pre_dv[ix as int] == pre_seq[ix as int]@);
                            }
                            day.chats.append(&mut chats);
                            proof {
                                assert(day.chats.deep_view() =~= day_chats_pre + chats_dv);
                                assert(day@ == (DayView {
                                    date: pre_dv[ix as int].date,
                                    chats: pre_dv[ix as int].chats + chats_dv,
                                }));
                            }
                            days.insert(ix, day);
                            proof {
                                assert(days@ =~= pre_seq.update(ix as int, day));
                                assert(days.deep_view() =~= pre_dv.update(ix as int, day@));
                            }
                        },
                    }
                },
            }
        },
    }
}

/// Parses the entire transcript into a `History`, exactly as
/// `spec_parse` describes.  Every text fragment of the result is a
/// slice of `input`, so no copying occurs.  The accumulated history is
/// always returned: alone when no defect was found, beside the full
/// list of diagnostics otherwise.
pub fn parse_history<'src>(input: &'src str) -> (r: Result<
    History<'src>,
    (History<'src>, Vec<ParseError<'src>>),
>)
    ensures
        ({
            let (days, errs) = spec_parse(input@);
            match r {
                Result::Ok(h) => h@ == days && errs.len() == 0 && h.wf(),
                Result::Err((h, es)) => h@ == days && es.deep_view() == errs && errs.len() > 0
                    && h.wf(),
            }
        }),
{
    proof {
        lemma_separator_literals();
    }
    if input.is_empty() {
        let mut errs: Vec<ParseError<'src>> = Vec::new();
        errs.push(ParseError::EmptyFile);
        let h = History { days: Vec::new() };
        proof {
            assert(h@ =~= spec_parse(input@).0);
            assert(errs.deep_view() =~= spec_parse(input@).1);
        }
        return Err((h, errs));
    }
    let fl = first_line(input);
    let body: &'src str = if parse_date_line(fl).is_some() {
        input
    } else {
        match skip_header(input) {
            Option::Some(b) => b,
            Option::None => "",
        }
    };
    assert(body@ == parse_body_of(input@));
    let sections = split_str(body, "\r\n\r\n");
    let ghost secs = sections.deep_view();
    let mut days: Vec<Day<'src>> = Vec::new();
    let mut current_date: Option<Date> = None;
    let mut errors: Vec<ParseError<'src>> = Vec::new();
    let mut i: usize = 0;
    while i < sections.len()
        invariant
            i <= sections@.len(),
            secs == sections.deep_view(),
            days.deep_view() == build_fold(secs.take(i as int)).days,
            current_date == build_fold(secs.take(i as int)).cur_date,
            errors.deep_view() == build_fold(secs.take(i as int)).errs,
        decreases sections@.len() - i,
    {
        let ghost st_pre = build_fold(secs.take(i as int));
        let ghost prefix = secs.take(i as int + 1);
        proof {
            assert(prefix.drop_last() =~= secs.take(i as int));
            assert(prefix.last() == secs[i as int]);
            assert(secs[i as int] == sections@[i as int]@);
        }
        let section: &'src str = sections[i];
        if !section.is_empty() {
            process_section(&mut days, &mut current_date, &mut errors, section);
        }
        proof {
            let st_post = build_step(st_pre, prefix.last());
            assert(build_fold(prefix) == st_post);
            assert(days.deep_view() == st_post.days);
            assert(current_date == st_post.cur_date);
            assert(errors.deep_view() == st_post.errs);
        }
        i += 1;
    }
    proof {
        assert(secs.take(sections@.len() as int) =~= secs);
        lemma_build_fold_wf(secs);
    }
    if errors.len() == 0 {
        let h = History { days };
        proof {
            assert(spec_parse(input@).1.len() == 0);
        }
        Ok(h)
    } else {
        let h = History { days };
        proof {
            assert(spec_parse(input@).1.len() > 0);
        }
        Err((h, errors))
    }
}

} // verus!

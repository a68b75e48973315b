//! The data model: a whole conversation (`History`), one calendar day of
//! it (`Day`), and a single message (`Chat`), each in a borrowed form
//! whose text fields are slices of the source buffer and in an owned
//! form (`OwnedHistory`, `OwnedDay`, `OwnedChat`) that has no lifetime
//! tie.  Conversions both ways preserve the mathematical content.

use vstd::prelude::*;

use crate::dates::{Date, Time};
use crate::text::{contains_sub, is_blank};

verus! {

/// The mathematical content of one message: a time of day, an optional
/// sender, and the ordered body lines.
pub ghost struct ChatView {
    pub time: Time,
    pub speaker: Option<Seq<char>>,
    pub lines: Seq<Seq<char>>,
}

impl ChatView {
    /// A message carries a real time, at least one body line, and its
    /// sender, when present, is not blank.
    pub open spec fn wf(self) -> bool {
        &&& self.time.wf()
        &&& self.lines.len() >= 1
        &&& self.speaker matches Some(s) ==> !is_blank(s)
    }
}

/// The mathematical content of one day: its date and its messages in
/// source order.
pub ghost struct DayView {
    pub date: Date,
    pub chats: Seq<ChatView>,
}

impl DayView {
    pub open spec fn wf(self) -> bool {
        &&& self.date.wf()
        &&& forall|i: int| 0 <= i < self.chats.len() ==> self.chats[i].wf()
    }
}

/// Dates of the days are pairwise distinct: at most one `Day` per date.
pub open spec fn unique_dates(days: Seq<DayView>) -> bool {
    forall|i: int, j: int|
        0 <= i < days.len() && 0 <= j < days.len() && i != j ==> days[i].date != days[j].date
}

/// One message, borrowed: the sender and every body line are slices of
/// the parsed source text.
#[derive(Debug, Clone)]
pub struct Chat<'src> {
    pub time: Time,
    pub speaker: Option<&'src str>,
    pub message_lines: Vec<&'src str>,
}

impl<'src> View for Chat<'src> {
    type V = ChatView;

    open spec fn view(&self) -> ChatView {
        ChatView {
            time: self.time,
            speaker: match self.speaker {
                Option::Some(s) => Option::Some(s@),
                Option::None => Option::None,
            },
            lines: self.message_lines.deep_view(),
        }
    }
}

impl<'src> DeepView for Chat<'src> {
    type V = ChatView;

    open spec fn deep_view(&self) -> ChatView {
        self.view()
    }
}

/// One day of conversation, borrowed.
#[derive(Debug, Clone)]
pub struct Day<'src> {
    pub date: Date,
    pub chats: Vec<Chat<'src>>,
}

impl<'src> View for Day<'src> {
    type V = DayView;

    open spec fn view(&self) -> DayView {
        DayView { date: self.date, chats: self.chats.deep_view() }
    }
}

impl<'src> DeepView for Day<'src> {
    type V = DayView;

    open spec fn deep_view(&self) -> DayView {
        self.view()
    }
}

/// The whole conversation, borrowed: days in the order the parser
/// produced them, with pairwise distinct dates.
#[derive(Debug, Clone)]
pub struct History<'src> {
    pub days: Vec<Day<'src>>,
}

impl<'src> View for History<'src> {
    type V = Seq<DayView>;

    open spec fn view(&self) -> Seq<DayView> {
        self.days.deep_view()
    }
}

impl<'src> History<'src> {
    /// The days hold pairwise distinct dates and well-formed content.
    pub open spec fn wf(self) -> bool {
        &&& unique_dates(self@)
        &&& forall|i: int| 0 <= i < self@.len() ==> self@[i].wf()
    }

    /// Wraps an already-built list of days as a `History`.
    pub fn new(days: Vec<Day<'src>>) -> (r: History<'src>)
        ensures
            r@ == days.deep_view(),
    {
        History { days }
    }
}

/// One message, owned: independent copies of every text fragment.
#[derive(Debug, Clone)]
pub struct OwnedChat {
    pub time: Time,
    pub speaker: Option<String>,
    pub message_lines: Vec<String>,
}

impl View for OwnedChat {
    type V = ChatView;

    open spec fn view(&self) -> ChatView {
        ChatView {
            time: self.time,
            speaker: match self.speaker {
                Option::Some(ref s) => Option::Some(s@),
                Option::None => Option::None,
            },
            lines: self.message_lines.deep_view(),
        }
    }
}

impl DeepView for OwnedChat {
    type V = ChatView;

    open spec fn deep_view(&self) -> ChatView {
        self.view()
    }
}

/// One day of conversation, owned.
#[derive(Debug, Clone)]
pub struct OwnedDay {
    pub date: Date,
    pub chats: Vec<OwnedChat>,
}

impl View for OwnedDay {
    type V = DayView;

    open spec fn view(&self) -> DayView {
        DayView { date: self.date, chats: self.chats.deep_view() }
    }
}

impl DeepView for OwnedDay {
    type V = DayView;

    open spec fn deep_view(&self) -> DayView {
        self.view()
    }
}

/// The whole conversation, owned.
#[derive(Debug, Clone)]
pub struct OwnedHistory {
    pub days: Vec<OwnedDay>,
}

impl View for OwnedHistory {
    type V = Seq<DayView>;

    open spec fn view(&self) -> Seq<DayView> {
        self.days.deep_view()
    }
}

impl OwnedHistory {
    /// The days hold pairwise distinct dates and well-formed content.
    pub open spec fn wf(self) -> bool {
        &&& unique_dates(self@)
        &&& forall|i: int| 0 <= i < self@.len() ==> self@[i].wf()
    }
}

/// Copies one borrowed message into an owned one with the same content.
fn owned_chat(c: &Chat<'_>) -> (r: OwnedChat)
    ensures
        r@ == c@,
{
    let speaker: Option<String> = match c.speaker {
        Option::Some(s) => Option::Some(s.to_owned()),
        Option::None => Option::None,
    };
    let mut message_lines: Vec<String> = Vec::new();
    let mut i: usize = 0;
    while i < c.message_lines.len()
        invariant
            i <= c.message_lines.len(),
            message_lines.deep_view() == c.message_lines.deep_view().take(i as int),
        decreases c.message_lines.len() - i,
    {
        let line = c.message_lines[i];
        let ghost pre = message_lines.deep_view();
        message_lines.push(line.to_owned());
        proof {
            assert(message_lines.deep_view() =~= pre.push(line@));
            assert(c.message_lines.deep_view()[i as int] == c.message_lines@[i as int]@);
            assert(pre.push(line@) =~= c.message_lines.deep_view().take(i as int + 1));
        }
        i += 1;
    }
    proof {
        assert(message_lines.deep_view() =~= c.message_lines.deep_view());
    }
    OwnedChat { time: c.time, speaker, message_lines }
}

/// Copies one borrowed day into an owned one with the same content.
fn owned_day(d: &Day<'_>) -> (r: OwnedDay)
    ensures
        r@ == d@,
{
    let mut chats: Vec<OwnedChat> = Vec::new();
    let mut i: usize = 0;
    while i < d.chats.len()
        invariant
            i <= d.chats.len(),
            chats.deep_view() == d.chats.deep_view().take(i as int),
        decreases d.chats.len() - i,
    {
        let oc = owned_chat(&d.chats[i]);
        let ghost pre = chats.deep_view();
        chats.push(oc);
        proof {
            assert(chats.deep_view() =~= pre.push(oc@));
            assert(d.chats.deep_view()[i as int] == d.chats@[i as int]@);
            assert(pre.push(oc@) =~= d.chats.deep_view().take(i as int + 1));
        }
        i += 1;
    }
    proof {
        assert(chats.deep_view() =~= d.chats.deep_view());
    }
    OwnedDay { date: d.date, chats }
}

impl<'src> Chat<'src> {
    /// Copies every borrowed fragment into an owned message with the
    /// same content.
    pub fn into_owned(self) -> (r: OwnedChat)
        ensures
            r@ == self@,
    {
        owned_chat(&self)
    }
}

impl OwnedChat {
    /// Re-exposes the owned message as a borrowed one pointing into its
    /// own storage, with the same content.
    pub fn as_ref_chat(&self) -> (r: Chat<'_>)
        ensures
            r@ == self@,
    {
        let speaker: Option<&str> = match self.speaker {
            Option::Some(ref s) => Option::Some(s.as_str()),
            Option::None => Option::None,
        };
        let mut message_lines: Vec<&str> = Vec::new();
        let mut i: usize = 0;
        while i < self.message_lines.len()
            invariant
                i <= self.message_lines.len(),
                message_lines.deep_view() == self.message_lines.deep_view().take(i as int),
            decreases self.message_lines.len() - i,
        {
            let line = self.message_lines[i].as_str();
            let ghost pre = message_lines.deep_view();
            message_lines.push(line);
            proof {
                assert(message_lines.deep_view() =~= pre.push(line@));
                assert(self.message_lines.deep_view()[i as int] == self.message_lines@[
                    i as int
                ]@);
                assert(pre.push(line@) =~= self.message_lines.deep_view().take(i as int + 1));
            }
            i += 1;
        }
        proof {
            assert(message_lines.deep_view() =~= self.message_lines.deep_view());
        }
        Chat { time: self.time, speaker, message_lines }
    }
}

impl<'src> Day<'src> {
    /// Copies the whole day into an owned one with the same content.
    pub fn into_owned(self) -> (r: OwnedDay)
        ensures
            r@ == self@,
    {
        owned_day(&self)
    }
}

impl OwnedDay {
    /// Re-exposes the owned day as a borrowed one with the same content.
    pub fn as_ref_day(&self) -> (r: Day<'_>)
        ensures
            r@ == self@,
    {
        let mut chats: Vec<Chat<'_>> = Vec::new();
        let mut i: usize = 0;
        while i < self.chats.len()
            invariant
                i <= self.chats.len(),
                chats.deep_view() == self.chats.deep_view().take(i as int),
            decreases self.chats.len() - i,
        {
            let c = self.chats[i].as_ref_chat();
            let ghost pre = chats.deep_view();
            chats.push(c);
            proof {
                assert(chats.deep_view() =~= pre.push(c@));
                assert(self.chats.deep_view()[i as int] == self.chats@[i as int]@);
                assert(pre.push(c@) =~= self.chats.deep_view().take(i as int + 1));
            }
            i += 1;
        }
        proof {
            assert(chats.deep_view() =~= self.chats.deep_view());
        }
        Day { date: self.date, chats }
    }
}

impl<'src> History<'src> {
    /// Copies the whole history into an owned one with the same content.
    /// Together with `OwnedHistory::as_ref_history`, whose contract also
    /// preserves the view, a parse followed by `into_owned` and the
    /// borrowed-back view keeps every date, time, sender and body line.
    pub fn into_owned(self) -> (r: OwnedHistory)
        ensures
            r@ == self@,
    {
        let mut days: Vec<OwnedDay> = Vec::new();
        let mut i: usize = 0;
        while i < self.days.len()
            invariant
                i <= self.days.len(),
                days.deep_view() == self.days.deep_view().take(i as int),
            decreases self.days.len() - i,
        {
            let od = owned_day(&self.days[i]);
            let ghost pre = days.deep_view();
            days.push(od);
            proof {
                assert(days.deep_view() =~= pre.push(od@));
                assert(self.days.deep_view()[i as int] == self.days@[i as int]@);
                assert(pre.push(od@) =~= self.days.deep_view().take(i as int + 1));
            }
            i += 1;
        }
        proof {
            assert(days.deep_view() =~= self.days.deep_view());
        }
        OwnedHistory { days }
    }
}

impl OwnedHistory {
    /// Re-exposes the owned history as a borrowed one pointing into its
    /// own storage, with the same content.
    pub fn as_ref_history(&self) -> (r: History<'_>)
        ensures
            r@ == self@,
    {
        let mut days: Vec<Day<'_>> = Vec::new();
        let mut i: usize = 0;
        while i < self.days.len()
            invariant
                i <= self.days.len(),
                days.deep_view() == self.days.deep_view().take(i as int),
            decreases self.days.len() - i,
        {
            let d = self.days[i].as_ref_day();
            let ghost pre = days.deep_view();
            days.push(d);
            proof {
                assert(days.deep_view() =~= pre.push(d@));
                assert(self.days.deep_view()[i as int] == self.days@[i as int]@);
                assert(pre.push(d@) =~= self.days.deep_view().take(i as int + 1));
            }
            i += 1;
        }
        proof {
            assert(days.deep_view() =~= self.days.deep_view());
        }
        History { days }
    }
}

/// Index of the first day carrying `date`, looking at positions `from`
/// and onwards.
pub open spec fn find_day_from(days: Seq<DayView>, date: Date, from: int) -> Option<int>
    decreases days.len() - from,
{
    if from < 0 || from >= days.len() {
        None
    } else if days[from].date == date {
        Some(from)
    } else {
        find_day_from(days, date, from + 1)
    }
}

pub proof fn lemma_find_day_from_props(days: Seq<DayView>, date: Date, from: int)
    requires
        from >= 0,
    ensures
        find_day_from(days, date, from) matches Some(i) ==> from <= i < days.len()
            && days[i].date == date && (forall|j: int| from <= j < i ==> days[j].date != date),
        find_day_from(days, date, from) is None ==> forall|j: int|
            from <= j < days.len() ==> days[j].date != date,
    decreases days.len() - from,
{
    if 0 <= from < days.len() && days[from].date != date {
        lemma_find_day_from_props(days, date, from + 1);
    }
}

/// Under unique dates, lookup by date finds exactly the one day that
/// carries the date: `Some` of its position when it is present, `None`
/// when no day carries it.
pub proof fn lemma_find_day_exact(days: Seq<DayView>, date: Date, k: int)
    requires
        unique_dates(days),
        0 <= k < days.len(),
        days[k].date == date,
    ensures
        find_day_from(days, date, 0) == Some(k),
{
    lemma_find_day_from_props(days, date, 0);
    match find_day_from(days, date, 0) {
        Some(i) => {
            assert(days[i].date == days[k].date);
        },
        None => {
            assert(days[k].date != date);
        },
    }
}

/// One message contains the keyword as a literal substring of some
/// body line.
pub open spec fn chat_contains(c: ChatView, kw: Seq<char>) -> bool {
    exists|i: int| 0 <= i < c.lines.len() && contains_sub(c.lines[i], kw)
}

/// The matches of a keyword within one day, in message order: a
/// `(date, message)` pair for every message containing the keyword.
pub open spec fn day_search(date: Date, chats: Seq<ChatView>, kw: Seq<char>) -> Seq<
    (Date, ChatView),
>
    decreases chats.len(),
{
    if chats.len() == 0 {
        seq![]
    } else {
        day_search(date, chats.drop_last(), kw) + if chat_contains(chats.last(), kw) {
            seq![(date, chats.last())]
        } else {
            seq![]
        }
    }
}

/// The matches of a keyword across a whole history, day by day in
/// storage order.
pub open spec fn history_search(days: Seq<DayView>, kw: Seq<char>) -> Seq<(Date, ChatView)>
    decreases days.len(),
{
    if days.len() == 0 {
        seq![]
    } else {
        history_search(days.drop_last(), kw) + day_search(
            days.last().date,
            days.last().chats,
            kw,
        )
    }
}

/// A keyword search within one day returns exactly the pairs that
/// couple the day's date with a message of that day containing the
/// keyword.
pub proof fn lemma_day_search_members(
    date: Date,
    chats: Seq<ChatView>,
    kw: Seq<char>,
    p: (Date, ChatView),
)
    ensures
        day_search(date, chats, kw).contains(p) <==> (p.0 == date && chats.contains(p.1)
            && chat_contains(p.1, kw)),
    decreases chats.len(),
{
    if chats.len() > 0 {
        lemma_day_search_members(date, chats.drop_last(), kw, p);
        let pre = day_search(date, chats.drop_last(), kw);
        let whole = day_search(date, chats, kw);
        if whole.contains(p) {
            let i = choose|i: int| 0 <= i < whole.len() && whole[i] == p;
            if i < pre.len() {
                assert(pre[i] == p);
                assert(pre.contains(p));
                let j = choose|j: int|
                    0 <= j < chats.drop_last().len() && chats.drop_last()[j] == p.1;
                assert(chats[j] == p.1);
                assert(chats.contains(p.1));
            } else {
                assert(whole[i] == (date, chats.last()));
                assert(chats[chats.len() - 1] == p.1);
                assert(chats.contains(p.1));
            }
        }
        if p.0 == date && chats.contains(p.1) && chat_contains(p.1, kw) {
            let j = choose|j: int| 0 <= j < chats.len() && chats[j] == p.1;
            if j < chats.len() - 1 {
                assert(chats.drop_last()[j] == p.1);
                assert(chats.drop_last().contains(p.1));
                let i = choose|i: int| 0 <= i < pre.len() && pre[i] == p;
                assert(whole[i] == p);
                assert(whole.contains(p));
            } else {
                assert(chats.last() == p.1);
                assert(whole[pre.len() as int] == p);
                assert(whole.contains(p));
            }
        }
    }
}

/// A keyword search across a history returns exactly the pairs that
/// couple some day's date with a message of that day containing the
/// keyword.
pub proof fn lemma_history_search_members(days: Seq<DayView>, kw: Seq<char>, p: (Date, ChatView))
    ensures
        history_search(days, kw).contains(p) <==> exists|i: int|
            0 <= i < days.len() && days[i].date == p.0 && days[i].chats.contains(p.1)
                && chat_contains(p.1, kw),
    decreases days.len(),
{
    if days.len() > 0 {
        lemma_history_search_members(days.drop_last(), kw, p);
        lemma_day_search_members(days.last().date, days.last().chats, kw, p);
        let pre = history_search(days.drop_last(), kw);
        let tail = day_search(days.last().date, days.last().chats, kw);
        let whole = history_search(days, kw);
        if whole.contains(p) {
            let i = choose|i: int| 0 <= i < whole.len() && whole[i] == p;
            if i < pre.len() {
                assert(pre[i] == p);
                assert(pre.contains(p));
                let j = choose|j: int|
                    0 <= j < days.drop_last().len() && days.drop_last()[j].date == p.0
                        && days.drop_last()[j].chats.contains(p.1) && chat_contains(p.1, kw);
                assert(days[j].date == p.0 && days[j].chats.contains(p.1));
            } else {
                assert(tail[i - pre.len()] == p);
                assert(tail.contains(p));
                assert(days[days.len() - 1].date == p.0 && days[days.len() - 1].chats.contains(
                    p.1,
                ));
            }
        }
        if exists|i: int|
            0 <= i < days.len() && days[i].date == p.0 && days[i].chats.contains(p.1)
                && chat_contains(p.1, kw) {
            let j = choose|j: int|
                0 <= j < days.len() && days[j].date == p.0 && days[j].chats.contains(p.1)
                    && chat_contains(p.1, kw);
            if j < days.len() - 1 {
                assert(days.drop_last()[j] == days[j]);
                let i = choose|i: int| 0 <= i < pre.len() && pre[i] == p;
                assert(whole[i] == p);
                assert(whole.contains(p));
            } else {
                assert(days.last() == days[j]);
                assert(tail.contains(p));
                let i = choose|i: int| 0 <= i < tail.len() && tail[i] == p;
                assert(whole[pre.len() + i] == p);
                assert(whole.contains(p));
            }
        }
    }
}

/// The date lies in year `y`, and in month `m` when one is given.
pub open spec fn date_matches(d: Date, y: u16, m: Option<u8>) -> bool {
    d.year == y && (m matches Some(mm) ==> d.month == mm)
}

/// The dates of the days that fall in year `y` (and month `m`, when
/// given), in storage order.
pub open spec fn spec_dates_in(days: Seq<DayView>, y: u16, m: Option<u8>) -> Seq<Date>
    decreases days.len(),
{
    if days.len() == 0 {
        seq![]
    } else {
        spec_dates_in(days.drop_last(), y, m) + if date_matches(days.last().date, y, m) {
            seq![days.last().date]
        } else {
            seq![]
        }
    }
}

impl<'src> History<'src> {
    /// The dates of the days falling in year `year` (and in `month`,
    /// when one is given), in storage order — the boundary handed to
    /// calendar rendering.
    pub fn dates_in(&self, year: u16, month: Option<u8>) -> (r: Vec<Date>)
        ensures
            r@ == spec_dates_in(self@, year, month),
    {
        let mut r: Vec<Date> = Vec::new();
        let mut i: usize = 0;
        while i < self.days.len()
            invariant
                i <= self.days.len(),
                r@ == spec_dates_in(self@.take(i as int), year, month),
            decreases self.days.len() - i,
        {
            let ghost prefix = self@.take(i as int + 1);
            proof {
                assert(prefix.drop_last() =~= self@.take(i as int));
                assert(prefix.last() == self.days@[i as int]@);
            }
            let d = self.days[i].date;
            let keep = match month {
                Option::Some(mm) => d.year == year && d.month == mm,
                Option::None => d.year == year,
            };
            if keep {
                r.push(d);
            }
            proof {
                assert(r@ =~= spec_dates_in(prefix, year, month));
            }
            i += 1;
        }
        proof {
            assert(self@.take(self.days.len() as int) =~= self@);
        }
        r
    }
}

impl OwnedHistory {
    /// The dates of the days falling in year `year` (and in `month`,
    /// when one is given), in storage order — the boundary handed to
    /// calendar rendering.
    pub fn dates_in(&self, year: u16, month: Option<u8>) -> (r: Vec<Date>)
        ensures
            r@ == spec_dates_in(self@, year, month),
    {
        let mut r: Vec<Date> = Vec::new();
        let mut i: usize = 0;
        while i < self.days.len()
            invariant
                i <= self.days.len(),
                r@ == spec_dates_in(self@.take(i as int), year, month),
            decreases self.days.len() - i,
        {
            let ghost prefix = self@.take(i as int + 1);
            proof {
                assert(prefix.drop_last() =~= self@.take(i as int));
                assert(prefix.last() == self.days@[i as int]@);
            }
            let d = self.days[i].date;
            let keep = match month {
                Option::Some(mm) => d.year == year && d.month == mm,
                Option::None => d.year == year,
            };
            if keep {
                r.push(d);
            }
            proof {
                assert(r@ =~= spec_dates_in(prefix, year, month));
            }
            i += 1;
        }
        proof {
            assert(self@.take(self.days.len() as int) =~= self@);
        }
        r
    }
}

/// Converting a history to its owned form and viewing that owned form
/// back as borrowed is lossless: the borrowed-back view carries the
/// same days — dates, times, senders and body lines — and so the same
/// date-to-day mapping as the history first converted.  The two
/// premises are exactly the contracts of `History::into_owned` and
/// `OwnedHistory::as_ref_history`.
pub proof fn lemma_owned_round_trip(h: History<'_>, owned: OwnedHistory, back: History<'_>)
    requires
        owned@ == h@,
        back@ == owned@,
    ensures
        back@ == h@,
        forall|d: Date| find_day_from(back@, d, 0) == find_day_from(h@, d, 0),
{
}

/// Keeps the best-effort history of a parse result and drops the
/// diagnostics, whichever case was returned.
pub fn ignore_errors<'src, E>(
    result: Result<History<'src>, (History<'src>, Vec<E>)>,
) -> (r: History<'src>)
    ensures
        match result {
            Result::Ok(h) => r == h,
            Result::Err((h, _)) => r == h,
        },
{
    match result {
        Result::Ok(history) => history,
        Result::Err((history_incomplete, _)) => history_incomplete,
    }
}

} // verus!

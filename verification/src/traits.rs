//! The query capabilities, as traits implemented by both the borrowed
//! and the owned representations: lookup by date, keyword search, and
//! random selection.

use vstd::prelude::*;

use crate::dates::{Date, Time};
use crate::history::{
    chat_contains, day_search, find_day_from, history_search, ignore_errors, unique_dates, Chat,
    ChatView, Day, DayView, History, OwnedChat, OwnedDay, OwnedHistory,
};
use crate::parse::{parse_history, spec_parse};
use crate::text::{contains_sub, str_contains};

verus! {

/// Lookup of one day by its exact calendar date.
pub trait SearchByDate: View<V = Seq<DayView>> {
    type Day: View<V = DayView>;

    /// The day carrying exactly `date`: `Some` of the first such day,
    /// `None` when no day carries it.
    fn search_by_date(&self, date: &Date) -> (r: Option<&Self::Day>)
        ensures
            r matches Some(day) ==> find_day_from(self@, *date, 0) matches Some(i) && day@
                == self@[i] && day@.date == *date,
            r is None <==> find_day_from(self@, *date, 0) is None,
    ;
}

/// Keyword search over every message in scope.
pub trait SearchByKeyword {
    type Chat: DeepView<V = ChatView>;

    /// The `(date, message)` pairs the search must return, in order.
    spec fn keyword_matches(&self, kw: Seq<char>) -> Seq<(Date, ChatView)>;

    /// Every `(date, message)` pair whose message contains the
    /// keyword as a literal substring of some body line.
    fn search_by_keyword<'a>(&'a self, keyword: &str) -> (r: Vec<(Date, &'a Self::Chat)>)
        ensures
            r.deep_view() == self.keyword_matches(keyword@),
    ;
}

/// Uniform random selection of one day.
pub trait SearchByRandom: View<V = Seq<DayView>> {
    type Day: View<V = DayView>;

    /// One day drawn at random; the draw is uniform over the days,
    /// and the result is always a day of this history.  Disallowed on
    /// an empty history.
    fn search_by_random(&self) -> (r: &Self::Day)
        requires
            self@.len() > 0,
        ensures
            exists|i: int| 0 <= i < self@.len() && r@ == self@[i],
    ;
}

/// The full query surface over a history.
pub trait Search: SearchByDate + SearchByKeyword + SearchByRandom {
}

impl<'src> SearchByDate for History<'src> {
    type Day = Day<'src>;

    fn search_by_date(&self, date: &Date) -> (r: Option<&Day<'src>>) {
        let mut i: usize = 0;
        while i < self.days.len()
            invariant
                i <= self.days.len(),
                find_day_from(self@, *date, 0) == find_day_from(self@, *date, i as int),
            decreases self.days.len() - i,
        {
            if self.days[i].date == *date {
                assert(self@[i as int].date == *date);
                return Some(&self.days[i]);
            }
            assert(self@[i as int].date != *date);
            i += 1;
        }
        None
    }
}

impl SearchByDate for OwnedHistory {
    type Day = OwnedDay;

    fn search_by_date(&self, date: &Date) -> (r: Option<&OwnedDay>) {
        let mut i: usize = 0;
        while i < self.days.len()
            invariant
                i <= self.days.len(),
                find_day_from(self@, *date, 0) == find_day_from(self@, *date, i as int),
            decreases self.days.len() - i,
        {
            if self.days[i].date == *date {
                assert(self@[i as int].date == *date);
                return Some(&self.days[i]);
            }
            assert(self@[i as int].date != *date);
            i += 1;
        }
        None
    }
}

impl<'src> SearchByKeyword for Day<'src> {
    type Chat = Chat<'src>;

    open spec fn keyword_matches(&self, kw: Seq<char>) -> Seq<(Date, ChatView)> {
        day_search(self@.date, self@.chats, kw)
    }

    fn search_by_keyword<'a>(&'a self, keyword: &str) -> (r: Vec<(Date, &'a Chat<'src>)>) {
        let mut r: Vec<(Date, &'a Chat<'src>)> = Vec::new();
        let mut i: usize = 0;
        while i < self.chats.len()
            invariant
                i <= self.chats.len(),
                r.deep_view() == day_search(self@.date, self@.chats.take(i as int), keyword@),
            decreases self.chats.len() - i,
        {
            let ghost pre = r.deep_view();
            let ghost prefix = self@.chats.take(i as int + 1);
            proof {
                assert(prefix.drop_last() =~= self@.chats.take(i as int));
                assert(prefix.last() == self.chats@[i as int]@);
            }
            let c: &'a Chat<'src> = &self.chats[i];
            if c.contains(keyword) {
                r.push((self.date, c));
                proof {
                    assert(r.deep_view() =~= pre.push((self.date, c@)));
                    assert(r.deep_view() =~= day_search(self@.date, prefix, keyword@));
                }
            } else {
                proof {
                    assert(r.deep_view() =~= day_search(self@.date, prefix, keyword@));
                }
            }
            i += 1;
        }
        proof {
            assert(self@.chats.take(self.chats.len() as int) =~= self@.chats);
        }
        r
    }
}

impl SearchByKeyword for OwnedDay {
    type Chat = OwnedChat;

    open spec fn keyword_matches(&self, kw: Seq<char>) -> Seq<(Date, ChatView)> {
        day_search(self@.date, self@.chats, kw)
    }

    fn search_by_keyword<'a>(&'a self, keyword: &str) -> (r: Vec<(Date, &'a OwnedChat)>) {
        let mut r: Vec<(Date, &'a OwnedChat)> = Vec::new();
        let mut i: usize = 0;
        while i < self.chats.len()
            invariant
                i <= self.chats.len(),
                r.deep_view() == day_search(self@.date, self@.chats.take(i as int), keyword@),
            decreases self.chats.len() - i,
        {
            let ghost pre = r.deep_view();
            let ghost prefix = self@.chats.take(i as int + 1);
            proof {
                assert(prefix.drop_last() =~= self@.chats.take(i as int));
                assert(prefix.last() == self.chats@[i as int]@);
            }
            let c: &'a OwnedChat = &self.chats[i];
            if c.contains(keyword) {
                r.push((self.date, c));
                proof {
                    assert(r.deep_view() =~= pre.push((self.date, c@)));
                    assert(r.deep_view() =~= day_search(self@.date, prefix, keyword@));
                }
            } else {
                proof {
                    assert(r.deep_view() =~= day_search(self@.date, prefix, keyword@));
                }
            }
            i += 1;
        }
        proof {
            assert(self@.chats.take(self.chats.len() as int) =~= self@.chats);
        }
        r
    }
}

impl<'src> SearchByKeyword for History<'src> {
    type Chat = Chat<'src>;

    open spec fn keyword_matches(&self, kw: Seq<char>) -> Seq<(Date, ChatView)> {
        history_search(self@, kw)
    }

    fn search_by_keyword<'a>(&'a self, keyword: &str) -> (r: Vec<(Date, &'a Chat<'src>)>) {
        let mut r: Vec<(Date, &'a Chat<'src>)> = Vec::new();
        let mut i: usize = 0;
        while i < self.days.len()
            invariant
                i <= self.days.len(),
                r.deep_view() == history_search(self@.take(i as int), keyword@),
            decreases self.days.len() - i,
        {
            let ghost pre = r.deep_view();
            let ghost prefix = self@.take(i as int + 1);
            proof {
                assert(prefix.drop_last() =~= self@.take(i as int));
                assert(prefix.last() == self.days@[i as int]@);
            }
            let mut found = self.days[i].search_by_keyword(keyword);
            let ghost found_dv = found.deep_view();
            r.append(&mut found);
            proof {
                assert(r.deep_view() =~= pre + found_dv);
                assert(r.deep_view() =~= history_search(prefix, keyword@));
            }
            i += 1;
        }
        proof {
            assert(self@.take(self.days.len() as int) =~= self@);
        }
        r
    }
}

impl SearchByKeyword for OwnedHistory {
    type Chat = OwnedChat;

    open spec fn keyword_matches(&self, kw: Seq<char>) -> Seq<(Date, ChatView)> {
        history_search(self@, kw)
    }

    fn search_by_keyword<'a>(&'a self, keyword: &str) -> (r: Vec<(Date, &'a OwnedChat)>) {
        let mut r: Vec<(Date, &'a OwnedChat)> = Vec::new();
        let mut i: usize = 0;
        while i < self.days.len()
            invariant
                i <= self.days.len(),
                r.deep_view() == history_search(self@.take(i as int), keyword@),
            decreases self.days.len() - i,
        {
            let ghost pre = r.deep_view();
            let ghost prefix = self@.take(i as int + 1);
            proof {
                assert(prefix.drop_last() =~= self@.take(i as int));
                assert(prefix.last() == self.days@[i as int]@);
            }
            let mut found = self.days[i].search_by_keyword(keyword);
            let ghost found_dv = found.deep_view();
            r.append(&mut found);
            proof {
                assert(r.deep_view() =~= pre + found_dv);
                assert(r.deep_view() =~= history_search(prefix, keyword@));
            }
            i += 1;
        }
        proof {
            assert(self@.take(self.days.len() as int) =~= self@);
        }
        r
    }
}

impl<'src> SearchByRandom for History<'src> {
    type Day = Day<'src>;

    fn search_by_random(&self) -> (r: &Day<'src>) {
        let index = crate::random::random_below(self.days.len());
        let day = &self.days[index];
        assert(day@ == self@[index as int]);
        day
    }
}

impl SearchByRandom for OwnedHistory {
    type Day = OwnedDay;

    fn search_by_random(&self) -> (r: &OwnedDay) {
        let index = crate::random::random_below(self.days.len());
        let day = &self.days[index];
        assert(day@ == self@[index as int]);
        day
    }
}

impl<'src> Search for History<'src> {
}

impl Search for OwnedHistory {
}


/// The read surface of one message.
pub trait ChatData: View<V = ChatView> {
    type Line: DeepView<V = Seq<char>>;

    /// The message's time of day.
    fn time(&self) -> (r: Time)
        ensures
            r == self@.time,
    ;

    /// The sender's name, absent when the export line had a blank one.
    fn sender(&self) -> (r: Option<&str>)
        ensures
            r matches Some(s) ==> self@.speaker == Some(s@),
            r is None <==> self@.speaker is None,
    ;

    /// The body lines, in order; never empty for a parsed message.
    fn message_lines(&self) -> (r: &Vec<Self::Line>)
        ensures
            r.deep_view() == self@.lines,
    ;

    /// The keyword occurs as a literal substring of some body line.
    fn contains(&self, keyword: &str) -> (r: bool)
        ensures
            r == chat_contains(self@, keyword@),
    ;
}

/// The read surface of one day.
pub trait DayData<C: DeepView<V = ChatView>>: SearchByKeyword + View<V = DayView> {
    /// The day's calendar date.
    fn date(&self) -> (r: Date)
        ensures
            r == self@.date,
    ;

    /// The day's messages in source order.
    fn chats(&self) -> (r: &Vec<C>)
        ensures
            r.deep_view() == self@.chats,
    ;
}

/// The read surface of a whole history.
pub trait HistoryData<'src, D: DeepView<V = DayView>, C: DeepView<V = ChatView>>: Search + Sized {
    /// Parses `text` and keeps the best-effort history, dropping any
    /// diagnostics; its days carry pairwise distinct dates and
    /// well-formed content.
    fn from_text(text: &'src str) -> (r: Self)
        ensures
            r@ == spec_parse(text@).0,
            unique_dates(r@),
            forall|i: int| 0 <= i < r@.len() ==> r@[i].wf(),
    ;

    /// The days in storage order.
    fn days(&self) -> (r: &Vec<D>)
        ensures
            r.deep_view() == self@,
    ;

    /// How many distinct days the history holds.
    fn len(&self) -> (r: usize)
        ensures
            r == self@.len(),
    ;

    /// The history holds no day at all.
    fn is_empty(&self) -> (r: bool)
        ensures
            r == (self@.len() == 0),
    ;
}

impl<'src> ChatData for Chat<'src> {
    type Line = &'src str;

    fn time(&self) -> (r: Time) {
        self.time
    }

    fn sender(&self) -> (r: Option<&str>) {
        self.speaker
    }

    fn message_lines(&self) -> (r: &Vec<&'src str>) {
        &self.message_lines
    }

    fn contains(&self, keyword: &str) -> (r: bool) {
        let mut i: usize = 0;
        while i < self.message_lines.len()
            invariant
                i <= self.message_lines.len(),
                forall|j: int| 0 <= j < i ==> !contains_sub(self@.lines[j], keyword@),
            decreases self.message_lines.len() - i,
        {
            if str_contains(self.message_lines[i], keyword) {
                assert(contains_sub(self@.lines[i as int], keyword@));
                return true;
            }
            assert(self@.lines[i as int] == self.message_lines@[i as int]@);
            i += 1;
        }
        false
    }
}

impl ChatData for OwnedChat {
    type Line = String;

    fn time(&self) -> (r: Time) {
        self.time
    }

    fn sender(&self) -> (r: Option<&str>) {
        match self.speaker {
            Option::Some(ref s) => Option::Some(s.as_str()),
            Option::None => Option::None,
        }
    }

    fn message_lines(&self) -> (r: &Vec<String>) {
        &self.message_lines
    }

    fn contains(&self, keyword: &str) -> (r: bool) {
        let mut i: usize = 0;
        while i < self.message_lines.len()
            invariant
                i <= self.message_lines.len(),
                forall|j: int| 0 <= j < i ==> !contains_sub(self@.lines[j], keyword@),
            decreases self.message_lines.len() - i,
        {
            if str_contains(self.message_lines[i].as_str(), keyword) {
                assert(contains_sub(self@.lines[i as int], keyword@));
                return true;
            }
            assert(self@.lines[i as int] == self.message_lines@[i as int]@);
            i += 1;
        }
        false
    }
}

impl<'src> DayData<Chat<'src>> for Day<'src> {
    fn date(&self) -> (r: Date) {
        self.date
    }

    fn chats(&self) -> (r: &Vec<Chat<'src>>) {
        &self.chats
    }
}

impl DayData<OwnedChat> for OwnedDay {
    fn date(&self) -> (r: Date) {
        self.date
    }

    fn chats(&self) -> (r: &Vec<OwnedChat>) {
        &self.chats
    }
}

impl<'src> HistoryData<'src, Day<'src>, Chat<'src>> for History<'src> {
    fn from_text(text: &'src str) -> (r: History<'src>) {
        ignore_errors(parse_history(text))
    }

    fn days(&self) -> (r: &Vec<Day<'src>>) {
        &self.days
    }

    fn len(&self) -> (r: usize) {
        self.days.len()
    }

    fn is_empty(&self) -> (r: bool) {
        self.days.is_empty()
    }
}

impl<'src> HistoryData<'src, OwnedDay, OwnedChat> for OwnedHistory {
    fn from_text(text: &'src str) -> (r: OwnedHistory) {
        ignore_errors(parse_history(text)).into_owned()
    }

    fn days(&self) -> (r: &Vec<OwnedDay>) {
        &self.days
    }

    fn len(&self) -> (r: usize) {
        self.days.len()
    }

    fn is_empty(&self) -> (r: bool) {
        self.days.is_empty()
    }
}

} // verus!

//! Runs of consecutive days.

use crate::calendar::{lemma_order_is_day_order, lemma_succ_day_number, CalendarDate};
use vstd::prelude::*;

verus! {

/// The `count` days that start with `first`, in order.
pub open spec fn days_from(first: CalendarDate, count: nat) -> Seq<CalendarDate> {
    Seq::new(count, |k: int| first.plus_days(k as nat))
}

/// How many days there are from `first` to `last`, both counted; none where
/// `last` comes before `first`.
pub open spec fn span_days(first: CalendarDate, last: CalendarDate) -> nat {
    if first.day_number() <= last.day_number() {
        (last.day_number() - first.day_number() + 1) as nat
    } else {
        0
    }
}

/// Every day from `first` to `last`, both included, in order.
pub open spec fn dates_between(first: CalendarDate, last: CalendarDate) -> Seq<CalendarDate> {
    days_from(first, span_days(first, last))
}

/// Walking on day by day from a date changes the Julian day number by the
/// number of steps and never leaves the calendar before `last`.
pub proof fn lemma_plus_days(first: CalendarDate, last: CalendarDate, days: nat)
    requires
        first.wf(),
        last.wf(),
        first.day_number() + days <= last.day_number(),
    ensures
        first.plus_days(days).wf(),
        first.plus_days(days).day_number() == first.day_number() + days,
        days > 0 ==> first.plus_days(days) == first.succ().plus_days((days - 1) as nat),
        first.day_number() + days == last.day_number() ==> first.plus_days(days) == last,
    decreases days,
{
    if days > 0 {
        lemma_order_is_day_order(first, last);
        lemma_succ_day_number(first);
        lemma_plus_days(first.succ(), last, (days - 1) as nat);
    } else {
        lemma_order_is_day_order(first, last);
    }
}

/// The days from a first to a last day, handed out one at a time. A copy of
/// a range starts where the range stood when the copy was made.
#[derive(Clone, Copy, Debug)]
pub struct DateRange {
    cursor: CalendarDate,
    last: CalendarDate,
    exhausted: bool,
}

impl DateRange {
    /// Both ends are days that exist, and the cursor has not passed the end.
    pub closed spec fn wf(self) -> bool {
        &&& self.cursor.wf()
        &&& self.last.wf()
        &&& !self.exhausted ==> !self.last.is_before(self.cursor)
    }

    /// The days that are still to come, in the order in which they come.
    pub closed spec fn remaining(self) -> Seq<CalendarDate> {
        if self.exhausted {
            Seq::empty()
        } else {
            dates_between(self.cursor, self.last)
        }
    }

    /// The range of all days from `first` to `last`; empty where `last` comes
    /// before `first`.
    pub fn new(first: CalendarDate, last: CalendarDate) -> (range: DateRange)
        requires
            first.wf(),
            last.wf(),
        ensures
            range.wf(),
            range.remaining() == dates_between(first, last),
    {
        let exhausted = last.precedes(&first);
        DateRange { cursor: first, last, exhausted }
    }

    /// Hands out the next day, or `None` once the last day has been handed out.
    pub fn next(&mut self) -> (date: Option<CalendarDate>)
        requires
            old(self).wf(),
        ensures
            final(self).wf(),
            old(self).remaining().len() == 0 ==> date is None && final(self).remaining() == old(
                self,
            ).remaining(),
            old(self).remaining().len() > 0 ==> date == Some(old(self).remaining()[0])
                && final(self).remaining() == old(self).remaining().drop_first(),
            date matches Some(day) ==> day.wf(),
    {
        if self.exhausted {
            return None;
        }
        let today = self.cursor;
        proof {
            lemma_order_is_day_order(today, self.last);
        }
        if today.precedes(&self.last) {
            let ghost before = *self;
            self.cursor = today.next_day();
            proof {
                let rest = before.remaining().drop_first();
                assert(rest.len() == self.remaining().len());
                assert forall|k: int| 0 <= k < rest.len() implies rest[k]
                    == self.remaining()[k] by {
                    lemma_plus_days(today, before.last, (k + 1) as nat);
                }
                assert(rest =~= self.remaining());
            }
        } else {
            self.exhausted = true;
            assert(old(self).remaining().drop_first() =~= self.remaining());
        }
        Some(today)
    }
}

} // verus!

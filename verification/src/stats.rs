//! Writing-streak statistics over the entries' date strings.

use crate::dates::{
    date_before, is_next_day, parse_date, prev_day, spec_is_next_day, spec_parse_date,
    spec_prev_day, Date,
};
use vstd::prelude::*;

verus! {

/// The current streak over date strings sorted ascending: walk them from the
/// most recent backward with an expected date. A date equal to the expected
/// one extends the streak and moves the expectation one day back; a strictly
/// earlier date is a gap and stops the walk; a later (future-dated) one and
/// an unparseable one are passed over.
pub open spec fn spec_current_streak(dates: Seq<Seq<char>>, today: Date) -> int
    decreases dates.len(),
{
    if dates.len() == 0 {
        0
    } else {
        match spec_parse_date(dates.last()) {
            None => spec_current_streak(dates.drop_last(), today),
            Some(d) => {
                if d == today {
                    1 + spec_current_streak(dates.drop_last(), spec_prev_day(today))
                } else if d.spec_before(today) {
                    0
                } else {
                    spec_current_streak(dates.drop_last(), today)
                }
            },
        }
    }
}

/// The longest-streak fold over date strings sorted ascending: the last
/// parsed date, the length of the run it closes, and the best closed run.
pub open spec fn spec_longest_state(dates: Seq<Seq<char>>) -> (Option<Date>, int, int)
    decreases dates.len(),
{
    if dates.len() == 0 {
        (None, 0, 0)
    } else {
        let st = spec_longest_state(dates.drop_last());
        match spec_parse_date(dates.last()) {
            None => st,
            Some(d) => match st.0 {
                None => (Some(d), 1, st.2),
                Some(p) => {
                    if spec_is_next_day(p, d) {
                        (Some(d), st.1 + 1, st.2)
                    } else {
                        (Some(d), 1, if st.2 >= st.1 { st.2 } else { st.1 })
                    }
                },
            },
        }
    }
}

/// The longest streak: the best run, counting the one still open.
pub open spec fn spec_longest_streak(dates: Seq<Seq<char>>) -> int {
    let st = spec_longest_state(dates);
    if st.2 >= st.1 {
        st.2
    } else {
        st.1
    }
}

/// Compute the current streak of consecutive days ending at `today`.
/// Unparseable dates are ignored, not fatal.
pub fn calculate_current_streak(dates: &Vec<String>, today: Date) -> (r: usize)
    requires
        today.valid(),
    ensures
        r as int == spec_current_streak(dates.deep_view(), today),
{
    let ghost dv = dates.deep_view();
    let mut count: usize = 0;
    let mut expected = today;
    let mut i: usize = dates.len();
    proof {
        assert(dv.take(dates.len() as int) =~= dv);
    }
    while i > 0
        invariant
            i <= dates.len(),
            dv == dates.deep_view(),
            dv.len() == dates.len(),
            expected.valid(),
            count <= dates.len() - i,
            spec_current_streak(dv, today) == count + spec_current_streak(
                dv.take(i as int),
                expected,
            ),
        decreases i,
    {
        proof {
            assert(dv.take(i as int).last() == dv[i - 1]);
            assert(dv.take(i as int).drop_last() =~= dv.take(i - 1));
        }
        match parse_date(dates[i - 1].as_str()) {
            None => {
                i = i - 1;
            },
            Some(d) => {
                if d == expected {
                    count = count + 1;
                    expected = prev_day(expected);
                    i = i - 1;
                } else if date_before(d, expected) {
                    proof {
                        assert(spec_current_streak(dv.take(i as int), expected) == 0);
                    }
                    return count;
                } else {
                    i = i - 1;
                }
            },
        }
    }
    proof {
        assert(dv.take(0) =~= Seq::<Seq<char>>::empty());
    }
    count
}

/// Compute the longest streak of consecutive days. Unparseable dates are
/// ignored, not fatal.
pub fn calculate_longest_streak(dates: &Vec<String>) -> (r: usize)
    ensures
        r as int == spec_longest_streak(dates.deep_view()),
{
    let ghost dv = dates.deep_view();
    let mut prev: Option<Date> = None;
    let mut run: usize = 0;
    let mut best: usize = 0;
    let mut i: usize = 0;
    proof {
        assert(dv.take(0) =~= Seq::<Seq<char>>::empty());
    }
    while i < dates.len()
        invariant
            i <= dates.len(),
            dv == dates.deep_view(),
            dv.len() == dates.len(),
            run <= i,
            best <= i,
            (match prev {
                Some(p) => p.valid(),
                None => true,
            }),
            spec_longest_state(dv.take(i as int)) == (prev, run as int, best as int),
        decreases dates.len() - i,
    {
        proof {
            assert(dv.take(i + 1).last() == dv[i as int]);
            assert(dv.take(i + 1).drop_last() =~= dv.take(i as int));
        }
        match parse_date(dates[i].as_str()) {
            None => {},
            Some(d) => {
                match prev {
                    None => {
                        prev = Some(d);
                        run = 1;
                    },
                    Some(p) => {
                        if is_next_day(p, d) {
                            run = run + 1;
                        } else {
                            if run > best {
                                best = run;
                            }
                            run = 1;
                        }
                        prev = Some(d);
                    },
                }
            },
        }
        i = i + 1;
    }
    proof {
        assert(dv.take(dates.len() as int) =~= dv);
    }
    if run > best {
        best = run;
    }
    best
}

} // verus!

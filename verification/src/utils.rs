//! The pipe-delimited text form of tide records.
//!
//! One record per line: `H:MM AM/PM|level|low-or-high`. The time of day
//! is a 12-hour clock string; records carry no date, so the caller
//! supplies the reference day (the day of parsing). A malformed line is
//! skipped by the batch parser; it never aborts the batch.

use crate::errors::ParseError;
use crate::tides::{level_milli_of, parse_level, Tide, TidePoint, LEVEL_CAP_MILLI};
use crate::text::{all_digits, digits_val, split_on_char, split_spec, tokens_spec, trimmed_end};
use crate::timestamp::Timestamp;
use vstd::prelude::*;

verus! {

/// The 12-hour-clock fold: hour token 12 stands for the zeroth hour of
/// its half-day, every other token for itself, and the PM half-day
/// starts 12 hours in.
pub open spec fn folded_hour(h: int, pm: bool) -> int {
    (if h == 12 {
        0
    } else {
        h
    }) + (if pm {
        12int
    } else {
        0int
    })
}

/// The hour and minute denoted by a 12-hour clock string `H:MM AM/PM`,
/// if the string has that shape and the folded hour and the minute are
/// in range. Any second token other than `PM` counts as `AM`.
pub open spec fn time_of(s: Seq<char>) -> Option<(int, int)> {
    let toks = tokens_spec(s);
    if toks.len() == 2 {
        let hm = split_spec(toks[0], ':');
        if hm.len() == 2 && hm[0].len() > 0 && all_digits(hm[0]) && hm[1].len() > 0 && all_digits(
            hm[1],
        ) {
            let fh = folded_hour(digits_val(hm[0]), toks[1] == "PM"@);
            let m = digits_val(hm[1]);
            if 0 <= fh <= 23 && 0 <= m <= 59 {
                Some((fh, m))
            } else {
                None
            }
        } else {
            None
        }
    } else {
        None
    }
}

/// The 12-hour-clock fold, spelled out: `12:mm AM` denotes hour 0 and
/// `12:mm PM` hour 12, while any other hour h denotes itself for AM and
/// h + 12 for PM.
pub proof fn lemma_twelve_hour_fold(h: int, pm: bool)
    requires
        1 <= h <= 12,
    ensures
        h == 12 && !pm ==> folded_hour(h, pm) == 0,
        h != 12 && !pm ==> folded_hour(h, pm) == h,
        h == 12 && pm ==> folded_hour(h, pm) == 12,
        h != 12 && pm ==> folded_hour(h, pm) == h + 12,
        0 <= folded_hour(h, pm) <= 23,
{
}

/// Normalize a 12-hour clock string against a reference day: the
/// result keeps the day's date and carries the folded hour and the
/// minute; seconds do not exist at this precision. Fails with a
/// malformed-time error when the string does not denote a time of day.
pub fn parse_time_string(today: &Timestamp, s: &str) -> (r: Result<Timestamp, ParseError>)
    requires
        today.wf(),
    ensures
        match r {
            Ok(ts) => {
                &&& time_of(s@) matches Some(hm) && ts == (Timestamp {
                    year: today.year,
                    month: today.month,
                    day: today.day,
                    hour: hm.0 as u32,
                    minute: hm.1 as u32,
                })
                &&& ts.wf()
            },
            Err(e) => time_of(s@) is None && e == ParseError::MalformedTime,
        },
{
    proof {
        reveal_strlit("PM");
    }
    let toks = crate::text::tokenize(s);
    if toks.len() != 2 {
        return Err(ParseError::MalformedTime);
    }
    let hm = split_on_char(toks[0].as_str(), ':');
    proof {
        assert(hm@.map_values(|p: String| p@)[0] == hm@[0]@);
        assert(hm@.map_values(|p: String| p@).len() == hm@.len());
        assert(toks@.map_values(|p: String| p@)[0] == toks@[0]@);
        assert(toks@.map_values(|p: String| p@)[1] == toks@[1]@);
    }
    if hm.len() != 2 {
        return Err(ParseError::MalformedTime);
    }
    proof {
        assert(hm@.map_values(|p: String| p@)[1] == hm@[1]@);
    }
    let h = match crate::text::parse_uint(hm[0].as_str(), 9999) {
        Some(v) => v,
        None => {
            return Err(ParseError::MalformedTime);
        },
    };
    let m = match crate::text::parse_uint(hm[1].as_str(), 9999) {
        Some(v) => v,
        None => {
            return Err(ParseError::MalformedTime);
        },
    };
    let pm_tok = String::from_str("PM");
    let pm = toks[1].eq(&pm_tok);
    let folded = (if h == 12 {
        0
    } else {
        h
    }) + (if pm {
        12u64
    } else {
        0u64
    });
    if !(folded <= 23 && m <= 59) {
        return Err(ParseError::MalformedTime);
    }
    let ts = Timestamp {
        year: today.year,
        month: today.month,
        day: today.day,
        hour: folded as u32,
        minute: m as u32,
    };
    Ok(ts)
}

/// The tide kind denoted by a text-form kind token: exactly `low` or
/// `high`; anything else fails the record.
pub open spec fn record_kind_of(s: Seq<char>) -> Option<Tide> {
    if s == "low"@ {
        Some(Tide::Low)
    } else if s == "high"@ {
        Some(Tide::High)
    } else {
        None
    }
}

/// What a pipe-delimited record denotes: a tide point whose timestamp
/// carries `today`'s date, or the error of the first bad part. A wrong
/// field count, a bad kind token and an unrepresentable level are
/// malformed records; a bad clock string is a malformed time.
pub open spec fn tide_tuple_of(s: Seq<char>, today: Timestamp) -> Result<TidePoint, ParseError> {
    let fields = split_spec(s, '|');
    if fields.len() != 3 {
        Err(ParseError::MalformedRecord)
    } else {
        match time_of(fields[0]) {
            None => Err(ParseError::MalformedTime),
            Some(hm) => match level_milli_of(fields[1]) {
                None => Err(ParseError::MalformedRecord),
                Some(m) => if -LEVEL_CAP_MILLI <= m <= LEVEL_CAP_MILLI {
                    match record_kind_of(fields[2]) {
                        None => Err(ParseError::MalformedRecord),
                        Some(kind) => Ok(
                            TidePoint {
                                dt: Timestamp {
                                    year: today.year,
                                    month: today.month,
                                    day: today.day,
                                    hour: hm.0 as u32,
                                    minute: hm.1 as u32,
                                },
                                level: m as i64,
                                tide: kind,
                            },
                        ),
                    }
                } else {
                    Err(ParseError::MalformedRecord)
                },
            },
        }
    }
}

/// Parse one pipe-delimited record against the given reference day.
pub fn parse_tide_tuple(s: &str, today: &Timestamp) -> (r: Result<TidePoint, ParseError>)
    requires
        today.wf(),
    ensures
        r == tide_tuple_of(s@, *today),
        r matches Ok(p) ==> p.wf(),
{
    proof {
        reveal_strlit("low");
        reveal_strlit("high");
    }
    let fields = split_on_char(s, '|');
    let ghost fview = fields@.map_values(|p: String| p@);
    proof {
        assert(fview.len() == fields@.len());
        assert(forall|i: int| 0 <= i < fields@.len() ==> fview[i] == fields@[i]@);
    }
    if fields.len() != 3 {
        return Err(ParseError::MalformedRecord);
    }
    let ts = match parse_time_string(today, fields[0].as_str()) {
        Ok(ts) => ts,
        Err(_) => {
            return Err(ParseError::MalformedTime);
        },
    };
    let level = match parse_level(fields[1].as_str()) {
        Ok(v) => v,
        Err(_) => {
            return Err(ParseError::MalformedRecord);
        },
    };
    let low_tok = String::from_str("low");
    let high_tok = String::from_str("high");
    let tide = if fields[2].eq(&low_tok) {
        Tide::Low
    } else if fields[2].eq(&high_tok) {
        Tide::High
    } else {
        return Err(ParseError::MalformedRecord);
    };
    Ok(TidePoint { dt: ts, level, tide })
}

/// The points of a text batch: each line trimmed of trailing
/// whitespace and parsed, the well-formed records kept in source order
/// and the malformed lines skipped.
pub open spec fn batch_points(lines: Seq<Seq<char>>, today: Timestamp) -> Seq<TidePoint>
    decreases lines.len(),
{
    if lines.len() == 0 {
        Seq::<TidePoint>::empty()
    } else {
        let rest = batch_points(lines.drop_last(), today);
        match tide_tuple_of(trimmed_end(lines.last()), today) {
            Ok(p) => rest.push(p),
            Err(_) => rest,
        }
    }
}

/// How many lines of a batch are malformed.
pub open spec fn bad_line_count(lines: Seq<Seq<char>>, today: Timestamp) -> int
    decreases lines.len(),
{
    if lines.len() == 0 {
        0
    } else {
        bad_line_count(lines.drop_last(), today) + (match tide_tuple_of(
            trimmed_end(lines.last()),
            today,
        ) {
            Ok(_) => 0int,
            Err(_) => 1int,
        })
    }
}

/// Every line is either kept or skipped: the parsed points and the
/// malformed lines together account for the whole batch.
pub proof fn lemma_batch_len(lines: Seq<Seq<char>>, today: Timestamp)
    ensures
        batch_points(lines, today).len() + bad_line_count(lines, today) == lines.len(),
        0 <= bad_line_count(lines, today) <= lines.len(),
    decreases lines.len(),
{
    if lines.len() > 0 {
        lemma_batch_len(lines.drop_last(), today);
    }
}

/// A batch with exactly one malformed line among its lines yields
/// exactly one point fewer than it has lines: the malformed line is
/// skipped, every other line is kept.
pub proof fn lemma_one_malformed_line(lines: Seq<Seq<char>>, today: Timestamp, b: int)
    requires
        0 <= b < lines.len(),
        tide_tuple_of(trimmed_end(lines[b]), today) is Err,
        forall|j: int|
            0 <= j < lines.len() && j != b ==> #[trigger] tide_tuple_of(
                trimmed_end(lines[j]),
                today,
            ) is Ok,
    ensures
        batch_points(lines, today).len() == lines.len() - 1,
    decreases lines.len(),
{
    lemma_batch_len(lines, today);
    if b == lines.len() - 1 {
        lemma_bad_count_zero(lines.drop_last(), today);
        lemma_batch_len(lines.drop_last(), today);
    } else {
        assert(lines.drop_last()[b] == lines[b]);
        lemma_one_malformed_line(lines.drop_last(), today, b);
    }
}

/// A batch with no malformed line loses nothing.
proof fn lemma_bad_count_zero(lines: Seq<Seq<char>>, today: Timestamp)
    requires
        forall|j: int|
            0 <= j < lines.len() ==> #[trigger] tide_tuple_of(trimmed_end(lines[j]), today) is Ok,
    ensures
        bad_line_count(lines, today) == 0,
    decreases lines.len(),
{
    if lines.len() > 0 {
        assert(tide_tuple_of(trimmed_end(lines[lines.len() - 1]), today) is Ok);
        lemma_bad_count_zero(lines.drop_last(), today);
    }
}

/// Parse a whole text batch against the given reference day: one
/// record per line, trailing whitespace tolerated, malformed lines
/// skipped without aborting the batch.
pub fn parse_tide_lines(s: &str, today: &Timestamp) -> (r: Vec<TidePoint>)
    requires
        today.wf(),
    ensures
        r@ == batch_points(split_spec(s@, '\n'), *today),
        forall|i: int| 0 <= i < r@.len() ==> (#[trigger] r@[i]).wf(),
{
    let lines = split_on_char(s, '\n');
    let ghost lview = lines@.map_values(|p: String| p@);
    proof {
        assert(lview.len() == lines@.len());
        assert(forall|i: int| 0 <= i < lines@.len() ==> lview[i] == lines@[i]@);
        assert(lview.take(0) =~= Seq::<Seq<char>>::empty());
    }
    let mut out: Vec<TidePoint> = Vec::new();
    let mut i: usize = 0;
    while i < lines.len()
        invariant
            0 <= i <= lines@.len(),
            today.wf(),
            lview == lines@.map_values(|p: String| p@),
            out@ == batch_points(lview.take(i as int), *today),
            forall|j: int| 0 <= j < out@.len() ==> (#[trigger] out@[j]).wf(),
        decreases lines@.len() - i,
    {
        let line = crate::text::trim_end(lines[i].as_str());
        proof {
            assert(lview.take(i + 1).drop_last() =~= lview.take(i as int));
            assert(lview.take(i + 1).last() == lview[i as int]);
        }
        match parse_tide_tuple(line.as_str(), today) {
            Ok(p) => {
                out.push(p);
            },
            Err(_) => {},
        }
        i = i + 1;
    }
    proof {
        assert(lview.take(lines@.len() as int) =~= lview);
    }
    out
}

} // verus!

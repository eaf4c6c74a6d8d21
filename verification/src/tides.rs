//! The tide point model and the JSON-shaped record form.
//!
//! A tide event is a timestamp, a sea level and a kind (high or low
//! water). Levels are decimal numbers in the source data; they are held
//! in thousandths of a unit, so every stage of the pipeline is exact
//! integer arithmetic.

use crate::errors::ParseError;
use crate::text::{all_digits, digits_val, split_on_char, split_spec};
use crate::timestamp::{datetime_of, Timestamp};
use vstd::prelude::*;
use vstd::string::StringExecFns;

verus! {

/// Largest representable sea level, in thousandths of a unit. The
/// fixed-point arithmetic of the interpolator stays inside `i64` for
/// levels within this range.
pub const LEVEL_CAP_MILLI: i64 = 100_000_000_000_000;

/// Kind of a tide extremum. `Unknown` arises only from the JSON form,
/// whose type code may be something other than `"H"` or `"L"`.
#[derive(Clone, Copy, Debug, PartialEq, Eq, Structural)]
pub enum Tide {
    High,
    Low,
    Unknown,
}

/// One tide event: when, how high, and which extremum.
#[derive(Clone, Copy, Debug, PartialEq, Eq, Structural)]
pub struct TidePoint {
    /// Moment of the extremum.
    pub dt: Timestamp,
    /// Sea level in thousandths of a unit; may be negative.
    pub level: i64,
    /// High or low water.
    pub tide: Tide,
}

impl TidePoint {
    /// A usable tide point: a real calendar moment and a level the
    /// fixed-point pipeline can carry.
    pub open spec fn wf(self) -> bool {
        &&& self.dt.wf()
        &&& -LEVEL_CAP_MILLI <= self.level <= LEVEL_CAP_MILLI
    }

    /// Construct a tide point from its parts.
    pub fn new(dt: Timestamp, level: i64, tide: Tide) -> (r: TidePoint)
        requires
            dt.wf(),
            -LEVEL_CAP_MILLI <= level <= LEVEL_CAP_MILLI,
        ensures
            r == (TidePoint { dt, level, tide }),
            r.wf(),
    {
        TidePoint { dt, level, tide }
    }

    /// One line describing the point: kind, moment and level, the
    /// level with exactly three fractional digits.
    pub fn to_string(&self) -> (r: String)
        requires
            self.wf(),
        ensures
            r@ == tide_point_chars(*self),
    {
        let mut out = String::new();
        match self.tide {
            Tide::High => out.append("High"),
            Tide::Low => out.append("Low"),
            Tide::Unknown => out.append("Unknown"),
        }
        out.append("::");
        push_timestamp(&mut out, &self.dt);
        out.append(":");
        push_level(&mut out, self.level);
        proof {
            assert(out@ =~= tide_point_chars(*self));
        }
        out
    }

    /// Chart coordinates of the point within its own day: x is the
    /// minute of the day, y the level in thousandths.
    pub fn to_xy(&self) -> (r: (i64, i64))
        requires
            self.wf(),
        ensures
            r.0 == self.dt.minute_of_day(),
            r.1 == self.level,
    {
        ((self.dt.hour * 60 + self.dt.minute) as i64, self.level)
    }
}

/// Two right-aligned decimal digits.
pub open spec fn two_digit_chars(n: int) -> Seq<char> {
    seq![crate::text::digit_char(n / 10 % 10), crate::text::digit_char(n % 10)]
}

/// Four right-aligned decimal digits: the upper and the lower pair.
pub open spec fn four_digit_chars(n: int) -> Seq<char> {
    two_digit_chars(n / 100) + two_digit_chars(n % 100)
}

/// A timestamp rendered in the `YYYY-MM-DD HH:MM` shape of the JSON
/// input form.
pub open spec fn timestamp_chars(t: Timestamp) -> Seq<char> {
    four_digit_chars(t.year as int) + "-"@ + two_digit_chars(t.month as int) + "-"@
        + two_digit_chars(t.day as int) + " "@ + two_digit_chars(t.hour as int) + ":"@
        + two_digit_chars(t.minute as int)
}

/// A tide kind's name.
pub open spec fn tide_chars(t: Tide) -> Seq<char> {
    match t {
        Tide::High => "High"@,
        Tide::Low => "Low"@,
        Tide::Unknown => "Unknown"@,
    }
}

/// A level in thousandths rendered as a decimal number with exactly
/// three fractional digits.
pub open spec fn level_chars(m: int) -> Seq<char> {
    let a = if m < 0 {
        -m
    } else {
        m
    };
    let f = a % 1000;
    (if m < 0 {
        "-"@
    } else {
        Seq::<char>::empty()
    }) + crate::text::dec_digits((a / 1000) as nat) + "."@ + seq![
        crate::text::digit_char(f / 100),
        crate::text::digit_char(f / 10 % 10),
        crate::text::digit_char(f % 10),
    ]
}

/// A tide point's one-line rendering: kind, moment, level.
pub open spec fn tide_point_chars(p: TidePoint) -> Seq<char> {
    tide_chars(p.tide) + "::"@ + timestamp_chars(p.dt) + ":"@ + level_chars(p.level as int)
}

/// Append two right-aligned decimal digits of `n`.
fn push_two_digits(out: &mut String, n: u32)
    requires
        n < 100,
    ensures
        final (out)@ == old(out)@ + two_digit_chars(n as int),
{
    out.append(crate::text::digit_str((n / 10) as u64));
    out.append(crate::text::digit_str((n % 10) as u64));
    proof {
        assert(out@ =~= old(out)@ + two_digit_chars(n as int));
    }
}

/// Append the `YYYY-MM-DD HH:MM` rendering of a timestamp.
fn push_timestamp(out: &mut String, t: &Timestamp)
    requires
        t.wf(),
    ensures
        final (out)@ == old(out)@ + timestamp_chars(*t),
{
    push_two_digits(out, t.year / 100);
    push_two_digits(out, t.year % 100);
    out.append("-");
    push_two_digits(out, t.month);
    out.append("-");
    push_two_digits(out, t.day);
    out.append(" ");
    push_two_digits(out, t.hour);
    out.append(":");
    push_two_digits(out, t.minute);
    proof {
        assert(out@ =~= old(out)@ + timestamp_chars(*t));
    }
}

/// Append the decimal rendering of a level in thousandths.
#[verifier::rlimit(50)]
fn push_level(out: &mut String, m: i64)
    requires
        -LEVEL_CAP_MILLI <= m <= LEVEL_CAP_MILLI,
    ensures
        final (out)@ == old(out)@ + level_chars(m as int),
{
    let ghost sign: Seq<char> = if m < 0 {
        "-"@
    } else {
        Seq::<char>::empty()
    };
    let a: u64 = if m < 0 {
        out.append("-");
        (-m) as u64
    } else {
        m as u64
    };
    crate::text::push_dec(out, a / 1000);
    out.append(".");
    proof {
        assert(out@ =~= old(out)@ + sign + crate::text::dec_digits((a / 1000) as nat) + "."@);
    }
    let frac = a % 1000;
    out.append(crate::text::digit_str(frac / 100));
    out.append(crate::text::digit_str(frac / 10 % 10));
    out.append(crate::text::digit_str(frac % 10));
    proof {
        let tail = seq![
            crate::text::digit_char((frac / 100) as int),
            crate::text::digit_char((frac / 10 % 10) as int),
            crate::text::digit_char((frac % 10) as int),
        ];
        assert(out@ =~= old(out)@ + sign + crate::text::dec_digits((a / 1000) as nat) + "."@
            + tail);
        assert(level_chars(m as int) =~= sign + crate::text::dec_digits((a / 1000) as nat) + "."@
            + tail);
        assert(out@ =~= old(out)@ + level_chars(m as int));
    }
}

/// The millithousandth value denoted by a plain decimal string: an
/// optional minus sign, an integer part, and an optional fractional part
/// after one dot. Fractional digits beyond the third are ignored.
pub open spec fn frac_milli(f: Seq<char>) -> int {
    if f.len() >= 3 {
        digits_val(f.take(3))
    } else if f.len() == 2 {
        digits_val(f) * 10
    } else {
        digits_val(f) * 100
    }
}

/// Value of a decimal level string in thousandths, if it is one.
pub open spec fn level_milli_of(s: Seq<char>) -> Option<int> {
    let neg = s.len() > 0 && s[0] == '-';
    let body = if neg {
        s.skip(1)
    } else {
        s
    };
    let parts = split_spec(body, '.');
    if parts.len() == 1 && parts[0].len() > 0 && all_digits(parts[0]) {
        let v = digits_val(parts[0]) * 1000;
        Some(
            if neg {
                -v
            } else {
                v
            },
        )
    } else if parts.len() == 2 && parts[0].len() > 0 && all_digits(parts[0]) && parts[1].len() > 0
        && all_digits(parts[1]) {
        let v = digits_val(parts[0]) * 1000 + frac_milli(parts[1]);
        Some(
            if neg {
                -v
            } else {
                v
            },
        )
    } else {
        None
    }
}

/// Does every character of `s` stand for a digit, and is there one?
fn check_digits(s: &str) -> (b: bool)
    ensures
        b == (s@.len() > 0 && all_digits(s@)),
{
    let n = s.unicode_len();
    if n == 0 {
        return false;
    }
    let mut i: usize = 0;
    while i < n
        invariant
            0 <= i <= n,
            n == s@.len(),
            forall|j: int| 0 <= j < i ==> crate::text::is_digit(s@[j]),
        decreases n - i,
    {
        let cu = s.get_char(i) as u32;
        if cu < 48 || cu > 57 {
            return false;
        }
        i = i + 1;
    }
    true
}

/// Parse a decimal sea level into thousandths of a unit. Rejects
/// anything that is not a plain decimal number, and values beyond the
/// representable range.
pub fn parse_level(s: &str) -> (r: Result<i64, ParseError>)
    ensures
        match r {
            Ok(v) => {
                &&& level_milli_of(s@) == Some(v as int)
                &&& -LEVEL_CAP_MILLI <= v <= LEVEL_CAP_MILLI
            },
            Err(e) => {
                &&& e == ParseError::MalformedLevel
                &&& match level_milli_of(s@) {
                    Some(m) => m < -LEVEL_CAP_MILLI || m > LEVEL_CAP_MILLI,
                    None => true,
                }
            },
        },
{
    let n = s.unicode_len();
    let neg = n > 0 && s.get_char(0) == '-';
    let body: &str = if neg {
        s.substring_char(1, n)
    } else {
        s
    };
    proof {
        if neg {
            assert(body@ =~= s@.skip(1));
        }
    }
    let parts = split_on_char(body, '.');
    let ghost pview = parts@.map_values(|p: String| p@);
    proof {
        assert(pview.len() == parts@.len());
        assert(forall|i: int| 0 <= i < parts@.len() ==> pview[i] == parts@[i]@);
    }
    if parts.len() == 1 {
        let iv = match crate::text::parse_uint(parts[0].as_str(), INT_CAP) {
            Some(v) => v,
            None => {
                return Err(ParseError::MalformedLevel);
            },
        };
        let m = iv * 1000;
        if m > CAP_U64 {
            return Err(ParseError::MalformedLevel);
        }
        if neg {
            Ok(-(m as i64))
        } else {
            Ok(m as i64)
        }
    } else if parts.len() == 2 {
        proof {
            if pview[1].len() > 0 && all_digits(pview[1]) {
                crate::text::lemma_digits_val_nonneg(pview[1]);
                if pview[1].len() >= 3 {
                    assert(all_digits(pview[1].take(3)));
                    crate::text::lemma_digits_val_nonneg(pview[1].take(3));
                }
            }
        }
        let iv = match crate::text::parse_uint(parts[0].as_str(), INT_CAP) {
            Some(v) => v,
            None => {
                return Err(ParseError::MalformedLevel);
            },
        };
        let frac = parts[1].as_str();
        if !check_digits(frac) {
            return Err(ParseError::MalformedLevel);
        }
        let flen = frac.unicode_len();
        let fv: u64 = if flen >= 3 {
            let head = frac.substring_char(0, 3);
            proof {
                assert(all_digits(head@));
                crate::timestamp::lemma_digits_val_small(head@);
            }
            match crate::text::parse_uint(head, 999) {
                Some(v) => v,
                None => {
                    proof {
                        assert(false);
                    }
                    return Err(ParseError::MalformedLevel);
                },
            }
        } else {
            proof {
                crate::timestamp::lemma_digits_val_small(frac@);
            }
            let raw = match crate::text::parse_uint(frac, 999) {
                Some(v) => v,
                None => {
                    proof {
                        assert(false);
                    }
                    return Err(ParseError::MalformedLevel);
                },
            };
            if flen == 2 {
                raw * 10
            } else {
                raw * 100
            }
        };
        let m = iv * 1000 + fv;
        if m > CAP_U64 {
            return Err(ParseError::MalformedLevel);
        }
        if neg {
            Ok(-(m as i64))
        } else {
            Ok(m as i64)
        }
    } else {
        Err(ParseError::MalformedLevel)
    }
}

/// Integer parts above this bound always overflow the level range.
const INT_CAP: u64 = 100_000_000_000;

/// `LEVEL_CAP_MILLI` as the unsigned intermediate of the parser.
const CAP_U64: u64 = 100_000_000_000_000;

/// The tide kind denoted by a JSON type code: `"H"` and `"L"` mean high
/// and low water; every other code is unknown.
pub open spec fn json_kind_of(s: Seq<char>) -> Tide {
    if s == "H"@ {
        Tide::High
    } else if s == "L"@ {
        Tide::Low
    } else {
        Tide::Unknown
    }
}

/// Map a one-letter JSON type code to a tide kind.
pub fn json_kind(s: &str) -> (t: Tide)
    ensures
        t == json_kind_of(s@),
{
    proof {
        reveal_strlit("H");
        reveal_strlit("L");
    }
    if s.unicode_len() == 1 {
        let c = s.get_char(0);
        if c == 'H' {
            proof {
                assert(s@ =~= "H"@);
            }
            Tide::High
        } else if c == 'L' {
            proof {
                assert(s@ =~= "L"@);
            }
            Tide::Low
        } else {
            Tide::Unknown
        }
    } else {
        Tide::Unknown
    }
}

/// One raw prediction record of the JSON form: a date-qualified time
/// string, a decimal level string, and a one-letter type code.
#[derive(Clone, Debug)]
pub struct JsonTide {
    pub t: String,
    pub v: String,
    pub tide: String,
}

/// What a raw JSON record converts to: the parsed tide point, or the
/// error of its first bad field (date before level).
pub open spec fn json_record_of(t: Seq<char>, v: Seq<char>, k: Seq<char>) -> Result<
    TidePoint,
    ParseError,
> {
    match datetime_of(t) {
        None => Err(ParseError::MalformedDate),
        Some(ts) => match level_milli_of(v) {
            Some(m) => if -LEVEL_CAP_MILLI <= m <= LEVEL_CAP_MILLI {
                Ok(TidePoint { dt: ts, level: m as i64, tide: json_kind_of(k) })
            } else {
                Err(ParseError::MalformedLevel)
            },
            None => Err(ParseError::MalformedLevel),
        },
    }
}

impl JsonTide {
    /// Convert this raw record into a validated tide point.
    pub fn to_tide_point(&self) -> (r: Result<TidePoint, ParseError>)
        ensures
            r == json_record_of(self.t@, self.v@, self.tide@),
            r matches Ok(p) ==> p.wf(),
    {
        let ts = match crate::timestamp::parse_datetime(self.t.as_str()) {
            Ok(ts) => ts,
            Err(_) => {
                return Err(ParseError::MalformedDate);
            },
        };
        let level = match parse_level(self.v.as_str()) {
            Ok(v) => v,
            Err(e) => {
                return Err(e);
            },
        };
        let tide = json_kind(self.tide.as_str());
        Ok(TidePoint { dt: ts, level, tide })
    }
}

/// A batch of raw JSON-form prediction records.
#[derive(Clone, Debug)]
pub struct Predictions {
    pub predictions: Vec<JsonTide>,
}

/// A batch rendered one record per line, fields separated by spaces.
pub open spec fn predictions_chars(rs: Seq<JsonTide>) -> Seq<char>
    decreases rs.len(),
{
    if rs.len() == 0 {
        Seq::<char>::empty()
    } else {
        predictions_chars(rs.drop_last()) + rs.last().t@ + " "@ + rs.last().v@ + " "@
            + rs.last().tide@ + "\n"@
    }
}

/// The conversion result of one raw record.
#[verifier::opaque]
pub open spec fn record_result(jt: JsonTide) -> Result<TidePoint, ParseError> {
    json_record_of(jt.t@, jt.v@, jt.tide@)
}

impl Predictions {
    /// The raw batch rendered one record per line.
    pub fn to_string(&self) -> (r: String)
        ensures
            r@ == predictions_chars(self.predictions@),
    {
        let mut out = String::new();
        let n = self.predictions.len();
        let mut i: usize = 0;
        proof {
            assert(self.predictions@.take(0) =~= Seq::<JsonTide>::empty());
        }
        while i < n
            invariant
                0 <= i <= n,
                n == self.predictions@.len(),
                out@ == predictions_chars(self.predictions@.take(i as int)),
            decreases n - i,
        {
            let rec = &self.predictions[i];
            out.append(rec.t.as_str());
            out.append(" ");
            out.append(rec.v.as_str());
            out.append(" ");
            out.append(rec.tide.as_str());
            out.append("\n");
            proof {
                let taken = self.predictions@.take(i + 1);
                assert(taken.drop_last() =~= self.predictions@.take(i as int));
                assert(taken.last() == self.predictions@[i as int]);
                assert(out@ =~= predictions_chars(taken));
            }
            i = i + 1;
        }
        proof {
            assert(self.predictions@.take(n as int) =~= self.predictions@);
        }
        out
    }

    /// Convert every record of the batch. One malformed record fails the
    /// whole batch with the error of the first failing record: the JSON
    /// form has no skip-and-continue policy.
    #[verifier::rlimit(50)]
    pub fn tide_points(&self) -> (r: Result<Vec<TidePoint>, ParseError>)
        ensures
            match r {
                Ok(ps) => {
                    &&& ps@.len() == self.predictions@.len()
                    &&& forall|i: int|
                        0 <= i < ps@.len() ==> #[trigger] record_result(self.predictions@[i])
                            == Ok::<TidePoint, ParseError>(ps@[i])
                    &&& forall|i: int| 0 <= i < ps@.len() ==> ps@[i].wf()
                },
                Err(e) => exists|i: int|
                    {
                        &&& 0 <= i < self.predictions@.len()
                        &&& record_result(self.predictions@[i]) == Err::<TidePoint, ParseError>(e)
                        &&& forall|j: int|
                            0 <= j < i ==> #[trigger] record_result(self.predictions@[j]) is Ok
                    },
            },
    {
        let mut out: Vec<TidePoint> = Vec::new();
        let n = self.predictions.len();
        let mut i: usize = 0;
        while i < n
            invariant
                0 <= i <= n,
                n == self.predictions@.len(),
                out@.len() == i,
                forall|j: int|
                    0 <= j < i ==> #[trigger] record_result(self.predictions@[j]) == Ok::<
                        TidePoint,
                        ParseError,
                    >(out@[j]),
                forall|j: int| 0 <= j < i ==> out@[j].wf(),
            decreases n - i,
        {
            match self.predictions[i].to_tide_point() {
                Ok(p) => {
                    proof {
                        assert(record_result(self.predictions@[i as int]) == Ok::<
                            TidePoint,
                            ParseError,
                        >(p)) by {
                            reveal(crate::tides::record_result);
                        }
                    }
                    out.push(p);
                },
                Err(e) => {
                    proof {
                        assert(record_result(self.predictions@[i as int]) == Err::<
                            TidePoint,
                            ParseError,
                        >(e)) by {
                            reveal(crate::tides::record_result);
                        }
                        assert(forall|j: int|
                            0 <= j < i as int ==> #[trigger] record_result(self.predictions@[j])
                                is Ok);
                        assert(exists|k: int|
                            {
                                &&& 0 <= k < self.predictions@.len()
                                &&& record_result(self.predictions@[k]) == Err::<
                                    TidePoint,
                                    ParseError,
                                >(e)
                                &&& forall|j: int|
                                    0 <= j < k ==> #[trigger] record_result(self.predictions@[j])
                                        is Ok
                            });
                    }
                    return Err(e);
                },
            }
            i = i + 1;
        }
        Ok(out)
    }
}

} // verus!

//! Fixed-width rendering of timestamps: ISO-8601 with UTC offset for the
//! transport boundary, and the naive `YYYY-MM-DD HH:MM:SS` form the store
//! expects as a bind value.

use vstd::prelude::*;
use vstd::string::StringExecFns;
use crate::model::Timestamp;

verus! {

/// The decimal digit character for `d` in `0..=9`.
pub open spec fn digit(d: int) -> char {
    if d == 0 {
        '0'
    } else if d == 1 {
        '1'
    } else if d == 2 {
        '2'
    } else if d == 3 {
        '3'
    } else if d == 4 {
        '4'
    } else if d == 5 {
        '5'
    } else if d == 6 {
        '6'
    } else if d == 7 {
        '7'
    } else if d == 8 {
        '8'
    } else {
        '9'
    }
}

/// `v` in `0..=99` as two decimal digits.
pub open spec fn two_digits(v: int) -> Seq<char> {
    seq![digit(v / 10), digit(v % 10)]
}

/// `v` in `0..=9999` as four decimal digits.
pub open spec fn four_digits(v: int) -> Seq<char> {
    seq![digit(v / 1000), digit((v / 100) % 10), digit((v / 10) % 10), digit(v % 10)]
}

/// `YYYY-MM-DD` for a well-formed timestamp.
pub open spec fn spec_date(t: Timestamp) -> Seq<char> {
    four_digits(t.year as int) + seq!['-'] + two_digits(t.month as int) + seq!['-'] + two_digits(
        t.day as int,
    )
}

/// `HH:MM:SS` for a well-formed timestamp.
pub open spec fn spec_time(t: Timestamp) -> Seq<char> {
    two_digits(t.hour as int) + seq![':'] + two_digits(t.minute as int) + seq![':'] + two_digits(
        t.second as int,
    )
}

/// ISO-8601 with explicit UTC offset: `YYYY-MM-DDTHH:MM:SS+00:00`.
pub open spec fn spec_rfc3339(t: Timestamp) -> Seq<char> {
    spec_date(t) + seq!['T'] + spec_time(t) + seq!['+', '0', '0', ':', '0', '0']
}

/// The naive form the store compares against: `YYYY-MM-DD HH:MM:SS`.
pub open spec fn spec_sql_timestamp(t: Timestamp) -> Seq<char> {
    spec_date(t) + seq![' '] + spec_time(t)
}

/// The one-character string for a decimal digit.
fn digit_str(d: u16) -> (r: &'static str)
    requires
        d <= 9,
    ensures
        r@ == seq![digit(d as int)],
{
    proof {
        reveal_strlit("0");
        reveal_strlit("1");
        reveal_strlit("2");
        reveal_strlit("3");
        reveal_strlit("4");
        reveal_strlit("5");
        reveal_strlit("6");
        reveal_strlit("7");
        reveal_strlit("8");
        reveal_strlit("9");
    }
    let r = if d == 0 {
        "0"
    } else if d == 1 {
        "1"
    } else if d == 2 {
        "2"
    } else if d == 3 {
        "3"
    } else if d == 4 {
        "4"
    } else if d == 5 {
        "5"
    } else if d == 6 {
        "6"
    } else if d == 7 {
        "7"
    } else if d == 8 {
        "8"
    } else {
        "9"
    };
    proof {
        assert(r@ =~= seq![digit(d as int)]);
    }
    r
}

/// Appends `v` as two decimal digits.
fn push_two_digits(s: &mut String, v: u8)
    requires
        v <= 99,
    ensures
        final(s)@ == old(s)@ + two_digits(v as int),
{
    s.append(digit_str((v / 10) as u16));
    s.append(digit_str((v % 10) as u16));
    proof {
        assert(s@ =~= old(s)@ + two_digits(v as int));
    }
}

/// Appends `v` as four decimal digits.
fn push_four_digits(s: &mut String, v: u16)
    requires
        v <= 9999,
    ensures
        final(s)@ == old(s)@ + four_digits(v as int),
{
    s.append(digit_str(v / 1000));
    s.append(digit_str((v / 100) % 10));
    s.append(digit_str((v / 10) % 10));
    s.append(digit_str(v % 10));
    proof {
        assert(s@ =~= old(s)@ + four_digits(v as int));
    }
}

/// Appends `YYYY-MM-DD HH:MM:SS` (a space between date and time when
/// `iso` is false, `T` and a `+00:00` suffix when it is true).
fn push_timestamp(s: &mut String, t: &Timestamp, iso: bool)
    requires
        t.wf(),
    ensures
        iso ==> final(s)@ == old(s)@ + spec_rfc3339(*t),
        !iso ==> final(s)@ == old(s)@ + spec_sql_timestamp(*t),
{
    proof {
        reveal_strlit("-");
        reveal_strlit("T");
        reveal_strlit(" ");
        reveal_strlit(":");
        reveal_strlit("+00:00");
    }
    push_four_digits(s, t.year);
    s.append("-");
    push_two_digits(s, t.month);
    s.append("-");
    push_two_digits(s, t.day);
    if iso {
        s.append("T");
    } else {
        s.append(" ");
    }
    push_two_digits(s, t.hour);
    s.append(":");
    push_two_digits(s, t.minute);
    s.append(":");
    push_two_digits(s, t.second);
    if iso {
        s.append("+00:00");
        proof {
            assert(s@ =~= old(s)@ + spec_rfc3339(*t));
        }
    } else {
        proof {
            assert(s@ =~= old(s)@ + spec_sql_timestamp(*t));
        }
    }
}

/// Renders a timestamp as ISO-8601 with UTC offset, the transport form.
pub fn rfc3339_string(t: &Timestamp) -> (r: String)
    requires
        t.wf(),
    ensures
        r@ == spec_rfc3339(*t),
{
    let mut s = String::new();
    push_timestamp(&mut s, t, true);
    proof {
        assert(s@ =~= spec_rfc3339(*t));
    }
    s
}

/// Renders a timestamp in the naive form bound into the store's query.
pub fn sql_timestamp_string(t: &Timestamp) -> (r: String)
    requires
        t.wf(),
    ensures
        r@ == spec_sql_timestamp(*t),
{
    let mut s = String::new();
    push_timestamp(&mut s, t, false);
    proof {
        assert(s@ =~= spec_sql_timestamp(*t));
    }
    s
}

} // verus!

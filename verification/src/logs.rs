use vstd::prelude::*;

use crate::text::{
    all_digits, char_pos, chars_to_string, check_all_digits, digits_val, find_char,
    lemma_char_pos_shift, parse_decimal, str_chars, str_eq, sub_chars,
};

verus! {

/// Largest value a date component of a log name may take; anything larger is
/// not a name this program wrote.
pub const MAX_DATE_PART: u64 = 1000000;

/// A usable date component: decimal digits only, not empty, not oversized.
pub open spec fn valid_date_part(p: Seq<char>) -> bool {
    p.len() > 0 && all_digits(p) && digits_val(p) <= MAX_DATE_PART
}

/// The date of a daily log file name `baerbot_log.yyyy-mm-dd`: exactly one
/// dot, our own stem before it, and exactly three usable components joined by
/// dashes after it.
pub open spec fn log_name_parse(s: Seq<char>) -> Option<(nat, nat, nat)> {
    let dot = char_pos(s, '.', 0);
    if dot >= s.len() {
        None
    } else {
        let fname = s.take(dot);
        let rest = s.skip(dot + 1);
        if char_pos(rest, '.', 0) < rest.len() || fname != "baerbot_log"@ {
            None
        } else {
            let d1 = char_pos(rest, '-', 0);
            if d1 >= rest.len() {
                None
            } else {
                let year = rest.take(d1);
                let rest2 = rest.skip(d1 + 1);
                let d2 = char_pos(rest2, '-', 0);
                if d2 >= rest2.len() {
                    None
                } else {
                    let month = rest2.take(d2);
                    let day = rest2.skip(d2 + 1);
                    if char_pos(day, '-', 0) < day.len() {
                        None
                    } else if !(valid_date_part(year) && valid_date_part(month) && valid_date_part(
                        day,
                    )) {
                        None
                    } else {
                        Some((digits_val(year), digits_val(month), digits_val(day)))
                    }
                }
            }
        }
    }
}

/// The rough timestamp of a date: years and months count with their average
/// length in seconds, which is accurate enough for ordering.
pub open spec fn log_stamp(y: nat, m: nat, d: nat) -> int {
    (y - 1970) * 31557600 + m * 2629800 + d * 86400
}

/// Converts a daily log file name `baerbot_log.yyyy-mm-dd` into a rough Unix
/// timestamp, for picking the latest log; any other name is not ours.
pub fn log_name_to_unix(name: &str) -> (r: Option<i64>)
    ensures
        match log_name_parse(name@) {
            Some((y, m, d)) => r == Some(log_stamp(y, m, d) as i64),
            None => r is None,
        },
{
    let v = str_chars(name);
    let n = v.len();
    let dot = find_char(&v, '.', 0);
    if dot >= n {
        return None;
    }
    let ghost rest = v@.skip(dot + 1);
    proof {
        lemma_char_pos_shift(v@, '.', dot + 1, 0);
        lemma_char_pos_shift(v@, '-', dot + 1, 0);
    }
    let second_dot = find_char(&v, '.', dot + 1);
    if second_dot < n {
        return None;
    }
    let fname_chars = sub_chars(&v, 0, dot);
    let fname = chars_to_string(&fname_chars);
    if !str_eq(fname.as_str(), "baerbot_log") {
        return None;
    }
    let d1 = find_char(&v, '-', dot + 1);
    if d1 >= n {
        return None;
    }
    let ghost rest2 = rest.skip(d1 - dot);
    proof {
        assert(rest.take(d1 - (dot + 1)) =~= v@.subrange(dot + 1, d1 as int));
        assert(rest.skip((d1 - (dot + 1)) + 1) =~= v@.skip(d1 + 1));
        assert(rest2 =~= v@.skip(d1 + 1));
        lemma_char_pos_shift(v@, '-', d1 + 1, 0);
    }
    let d2 = find_char(&v, '-', d1 + 1);
    if d2 >= n {
        return None;
    }
    let ghost day = rest2.skip(d2 - d1);
    proof {
        assert(rest2.take(d2 - (d1 + 1)) =~= v@.subrange(d1 + 1, d2 as int));
        assert(rest2.skip((d2 - (d1 + 1)) + 1) =~= v@.skip(d2 + 1));
        assert(day =~= v@.skip(d2 + 1));
        lemma_char_pos_shift(v@, '-', d2 + 1, 0);
    }
    let third = find_char(&v, '-', d2 + 1);
    if third < n {
        return None;
    }
    proof {
        assert(v@.subrange(dot + 1, d1 as int) =~= rest.take(d1 - (dot + 1)));
        assert(v@.subrange(d1 + 1, d2 as int) =~= rest2.take(d2 - (d1 + 1)));
        assert(v@.subrange(d2 + 1, n as int) =~= day);
    }
    if dot + 1 == d1 || !check_all_digits(&v, dot + 1, d1) {
        return None;
    }
    let y = match parse_decimal(&v, dot + 1, d1) {
        Some(x) => x,
        None => {
            return None;
        },
    };
    if y > MAX_DATE_PART {
        return None;
    }
    if d1 + 1 == d2 || !check_all_digits(&v, d1 + 1, d2) {
        return None;
    }
    let m = match parse_decimal(&v, d1 + 1, d2) {
        Some(x) => x,
        None => {
            return None;
        },
    };
    if m > MAX_DATE_PART {
        return None;
    }
    if d2 + 1 == n || !check_all_digits(&v, d2 + 1, n) {
        return None;
    }
    let d = match parse_decimal(&v, d2 + 1, n) {
        Some(x) => x,
        None => {
            return None;
        },
    };
    if d > MAX_DATE_PART {
        return None;
    }
    let stamp: i64 = ((y as i64) - 1970) * 31557600 + (m as i64) * 2629800 + (d as i64) * 86400;
    Some(stamp)
}

} // verus!

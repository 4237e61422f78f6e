use vstd::prelude::*;

use crate::rng::rand_range_u64;
use crate::text::{
    all_digits, dec_digits, digit_char, digit_val, digits_val, is_digit_char,
    lemma_dec_digits_val, parse_decimal, push_decimal, str_chars, chars_to_string,
};

verus! {

// ---------------------------------------------------------------------------
// The `{N..M}` placeholder grammar of message templates. Each well-formed
// placeholder is replaced by an independently drawn integer between its two
// bounds (inclusive); anything else is copied verbatim. A brace group whose
// bounds do not fit in a `u64`, or whose first bound exceeds the second, is
// not a placeholder and is copied verbatim.
// ---------------------------------------------------------------------------

/// First position at or after `from` that does not hold a decimal digit.
pub open spec fn digits_end(s: Seq<char>, from: int) -> int
    recommends
        0 <= from <= s.len(),
    decreases s.len() - from,
{
    if from < 0 || from >= s.len() {
        from
    } else if is_digit_char(s[from]) {
        digits_end(s, from + 1)
    } else {
        from
    }
}

pub proof fn lemma_digits_end_bounds(s: Seq<char>, from: int)
    requires
        0 <= from <= s.len(),
    ensures
        from <= digits_end(s, from) <= s.len(),
        all_digits(s.subrange(from, digits_end(s, from))),
    decreases s.len() - from,
{
    if from < s.len() && is_digit_char(s[from]) {
        lemma_digits_end_bounds(s, from + 1);
        assert forall|i: int| 0 <= i < s.subrange(from, digits_end(s, from)).len() implies
            is_digit_char(#[trigger] s.subrange(from, digits_end(s, from))[i]) by {
            if i > 0 {
                assert(s.subrange(from + 1, digits_end(s, from + 1))[i - 1] == s.subrange(
                    from,
                    digits_end(s, from),
                )[i]);
            }
        }
    }
}

/// The parse of a placeholder standing at the head of `s`: the number of
/// characters it spans and its two bounds.
pub open spec fn placeholder_parse(s: Seq<char>) -> Option<(int, u64, u64)> {
    if s.len() == 0 || s[0] != '{' {
        None
    } else {
        let e1 = digits_end(s, 1);
        if e1 == 1 || e1 + 1 >= s.len() || s[e1] != '.' || s[e1 + 1] != '.' {
            None
        } else {
            let e2 = digits_end(s, e1 + 2);
            if e2 == e1 + 2 || e2 >= s.len() || s[e2] != '}' {
                None
            } else {
                let lo = digits_val(s.subrange(1, e1));
                let hi = digits_val(s.subrange(e1 + 2, e2));
                if hi <= u64::MAX && lo <= hi {
                    Some((e2 + 1, lo as u64, hi as u64))
                } else {
                    None
                }
            }
        }
    }
}

pub proof fn lemma_placeholder_span(s: Seq<char>, k: int, lo: u64, hi: u64)
    requires
        placeholder_parse(s) == Some((k, lo, hi)),
    ensures
        1 <= k <= s.len(),
        lo <= hi,
{
    lemma_digits_end_bounds(s, 1);
    lemma_digits_end_bounds(s, digits_end(s, 1) + 2);
}

/// `out` is one possible rendering of the template `t`: every placeholder is
/// replaced by the decimal notation of some integer between its bounds, and
/// every other character is kept.
pub open spec fn is_render(t: Seq<char>, out: Seq<char>) -> bool
    decreases t.len(),
    via is_render_decreases
{
    match placeholder_parse(t) {
        Some((k, lo, hi)) => exists|n: u64|
            lo <= n <= hi && #[trigger] dec_digits(n as nat).is_prefix_of(out) && is_render(
                t.skip(k),
                out.skip(dec_digits(n as nat).len() as int),
            ),
        None => {
            if t.len() == 0 {
                out.len() == 0
            } else {
                out.len() > 0 && out[0] == t[0] && is_render(t.skip(1), out.skip(1))
            }
        },
    }
}

#[via_fn]
proof fn is_render_decreases(t: Seq<char>, out: Seq<char>) {
    match placeholder_parse(t) {
        Some((k, lo, hi)) => {
            lemma_placeholder_span(t, k, lo, hi);
        },
        None => {},
    }
}

// ---------------------------------------------------------------------------
// What a template that is one single-digit placeholder can render to.
// ---------------------------------------------------------------------------

proof fn lemma_render_single_ph(t: Seq<char>, d1: char, d2: char, out: Seq<char>)
    requires
        t.len() == 6,
        t[0] == '{',
        t[1] == d1,
        is_digit_char(d1),
        t[2] == '.',
        t[3] == '.',
        t[4] == d2,
        is_digit_char(d2),
        t[5] == '}',
        digit_val(d1) <= digit_val(d2),
        is_render(t, out),
    ensures
        exists|n: u64|
            digit_val(d1) <= n <= digit_val(d2) && out == #[trigger] dec_digits(n as nat),
{
    assert(digits_end(t, 2) == 2);
    assert(digits_end(t, 1) == 2);
    assert(digits_end(t, 5) == 5);
    assert(digits_end(t, 4) == 5);
    assert(t.subrange(1, 2) =~= seq![d1]);
    assert(t.subrange(4, 5) =~= seq![d2]);
    assert(seq![d1].drop_last() =~= Seq::<char>::empty());
    assert(seq![d2].drop_last() =~= Seq::<char>::empty());
    assert(digits_val(Seq::<char>::empty()) == 0);
    assert(digits_val(seq![d1]) == digit_val(d1));
    assert(digits_val(seq![d2]) == digit_val(d2));
    let lo = digit_val(d1) as u64;
    let hi = digit_val(d2) as u64;
    assert(placeholder_parse(t) == Some((6int, lo, hi)));
    assert(exists|n: u64|
        lo <= n <= hi && #[trigger] dec_digits(n as nat).is_prefix_of(out) && is_render(
            t.skip(6),
            out.skip(dec_digits(n as nat).len() as int),
        ));
    let n = choose|n: u64|
        lo <= n <= hi && #[trigger] dec_digits(n as nat).is_prefix_of(out) && is_render(
            t.skip(6),
            out.skip(dec_digits(n as nat).len() as int),
        );
    let dec = dec_digits(n as nat);
    assert(n < 10);
    assert(dec =~= seq![digit_char(n as nat)]);
    assert(t.skip(6) =~= Seq::<char>::empty());
    assert(placeholder_parse(Seq::<char>::empty()) == None::<(int, u64, u64)>);
    assert(out.skip(1).len() == 0);
    assert(out.len() == 1);
    assert(out[0] == dec[0]) by {
        assert(out.subrange(0, 1) == dec);
        assert(out.subrange(0, 1)[0] == out[0]);
    }
    assert(out =~= dec);
}

/// Law: the template `"{5..5}"` has exactly one rendering, `"5"`; together
/// with the contract of `process_reply`, that call always returns `"5"`.
pub proof fn lemma_render_fixed_bounds(out: Seq<char>)
    requires
        is_render("{5..5}"@, out),
    ensures
        out == "5"@,
{
    reveal_strlit("{5..5}");
    reveal_strlit("5");
    let t = "{5..5}"@;
    lemma_render_single_ph(t, '5', '5', out);
    let n = choose|n: u64|
        digit_val('5') <= n <= digit_val('5') && out == #[trigger] dec_digits(n as nat);
    assert(n == 5);
    assert(dec_digits(5) =~= seq![digit_char(5)]);
    assert(digit_char(5) as u32 == '5' as u32);
    assert(digit_char(5) == '5');
    assert(out =~= "5"@);
}

/// Law: every rendering of the template `"{1..3}"` is one of `"1"`, `"2"`
/// and `"3"`.
pub proof fn lemma_render_small_range(out: Seq<char>)
    requires
        is_render("{1..3}"@, out),
    ensures
        out == "1"@ || out == "2"@ || out == "3"@,
{
    reveal_strlit("{1..3}");
    reveal_strlit("1");
    reveal_strlit("2");
    reveal_strlit("3");
    let t = "{1..3}"@;
    lemma_render_single_ph(t, '1', '3', out);
    let n = choose|n: u64|
        digit_val('1') <= n <= digit_val('3') && out == #[trigger] dec_digits(n as nat);
    assert(1 <= n <= 3);
    assert(dec_digits(n as nat) =~= seq![digit_char(n as nat)]);
    if n == 1 {
        assert(digit_char(1) as u32 == '1' as u32);
        assert(out =~= "1"@);
    } else if n == 2 {
        assert(digit_char(2) as u32 == '2' as u32);
        assert(out =~= "2"@);
    } else {
        assert(digit_char(3) as u32 == '3' as u32);
        assert(out =~= "3"@);
    }
}

// ---------------------------------------------------------------------------
// Executable scanning.
// ---------------------------------------------------------------------------

pub proof fn lemma_digits_end_shift(s: Seq<char>, off: int, from: int)
    requires
        0 <= off,
        off <= off + from <= s.len(),
        0 <= from,
    ensures
        digits_end(s.skip(off), from) == digits_end(s, off + from) - off,
    decreases s.len() - off - from,
{
    if off + from < s.len() {
        assert(s.skip(off)[from] == s[off + from]);
        if is_digit_char(s[off + from]) {
            lemma_digits_end_shift(s, off, from + 1);
        }
    }
}

/// First position at or after `from` that does not hold a decimal digit.
pub fn find_digits_end(v: &Vec<char>, from: usize) -> (r: usize)
    requires
        from <= v@.len(),
    ensures
        r == digits_end(v@, from as int),
        from <= r <= v@.len(),
{
    proof {
        lemma_digits_end_bounds(v@, from as int);
    }
    let n = v.len();
    let mut i: usize = from;
    while i < n
        invariant
            from <= i <= n == v@.len(),
            digits_end(v@, from as int) == digits_end(v@, i as int),
        decreases n - i,
    {
        let c = v[i];
        if !('0' <= c && c <= '9') {
            assert(!is_digit_char(c));
            return i;
        }
        i = i + 1;
    }
    i
}

/// The parse of a placeholder standing at position `i` of `v`.
pub fn try_placeholder(v: &Vec<char>, i: usize) -> (r: Option<(usize, u64, u64)>)
    requires
        i < v@.len(),
    ensures
        match r {
            Some((k, lo, hi)) => placeholder_parse(v@.skip(i as int)) == Some((
                k as int,
                lo,
                hi,
            )) && i + k <= v@.len() && k >= 1,
            None => placeholder_parse(v@.skip(i as int)) == None::<(int, u64, u64)>,
        },
{
    let ghost t = v@.skip(i as int);
    let n = v.len();
    if v[i] != '{' {
        assert(t[0] == v@[i as int]);
        return None;
    }
    assert(t[0] == '{');
    let e1 = find_digits_end(v, i + 1);
    proof {
        lemma_digits_end_shift(v@, i as int, 1);
    }
    if e1 == i + 1 || e1 >= n - 1 || !(v[e1] == '.' && v[e1 + 1] == '.') {
        proof {
            if e1 > i + 1 && e1 + 1 < n {
                assert(t[e1 - i] == v@[e1 as int]);
                assert(t[e1 - i + 1] == v@[e1 + 1]);
            }
        }
        return None;
    }
    assert(t[e1 - i] == v@[e1 as int]);
    assert(t[e1 - i + 1] == v@[e1 + 1]);
    let e2 = find_digits_end(v, e1 + 2);
    proof {
        lemma_digits_end_shift(v@, i as int, e1 + 2 - i);
    }
    if e2 == e1 + 2 || e2 >= n || !(v[e2] == '}') {
        proof {
            if e2 > e1 + 2 && e2 < n {
                assert(t[e2 - i] == v@[e2 as int]);
            }
        }
        return None;
    }
    assert(t[e2 - i] == v@[e2 as int]);
    proof {
        lemma_digits_end_bounds(v@, i + 1);
        lemma_digits_end_bounds(v@, e1 + 2);
        assert(t.subrange(1, e1 - i) =~= v@.subrange(i + 1, e1 as int));
        assert(t.subrange(e1 - i + 2, e2 - i) =~= v@.subrange(e1 + 2, e2 as int));
    }
    let lo = match parse_decimal(v, i + 1, e1) {
        Some(x) => x,
        None => {
            return None;
        },
    };
    let hi = match parse_decimal(v, e1 + 2, e2) {
        Some(x) => x,
        None => {
            return None;
        },
    };
    if lo <= hi {
        Some((e2 + 1 - i, lo, hi))
    } else {
        None
    }
}

/// Resolves every `{N..M}` placeholder of the template to an independently
/// drawn random integer between `N` and `M` inclusive; all other text is kept
/// as it stands.
pub fn process_reply(s: &str) -> (r: String)
    ensures
        is_render(s@, r@),
{
    let v = str_chars(s);
    let n = v.len();
    let mut out: Vec<char> = Vec::new();
    let mut i: usize = 0;
    proof {
        assert forall|rest: Seq<char>| #[trigger] is_render(v@.skip(0), rest) implies is_render(
            v@,
            out@ + rest,
        ) by {
            assert(v@.skip(0) =~= v@);
            assert(out@ + rest =~= rest);
        }
    }
    while i < n
        invariant
            0 <= i <= n == v@.len(),
            v@ == s@,
            forall|rest: Seq<char>|
                #[trigger] is_render(v@.skip(i as int), rest) ==> is_render(v@, out@ + rest),
        decreases n - i,
    {
        let ghost pre = out@;
        let mut step: usize = 1;
        match try_placeholder(&v, i) {
            Some((k, lo, hi)) => {
                let x = rand_range_u64(lo, hi);
                push_decimal(x, &mut out);
                step = k;
                proof {
                    lemma_dec_digits_val(x as nat);
                    let dec = dec_digits(x as nat);
                    assert forall|rest: Seq<char>|
                        #[trigger] is_render(v@.skip(i + k), rest) implies is_render(
                        v@,
                        out@ + rest,
                    ) by {
                        assert(v@.skip(i as int).skip(k as int) =~= v@.skip(i + k));
                        assert(dec.is_prefix_of(dec + rest)) by {
                            assert((dec + rest).subrange(0, dec.len() as int) =~= dec);
                        }
                        assert((dec + rest).skip(dec.len() as int) =~= rest);
                        assert(is_render(v@.skip(i as int), dec + rest));
                        assert(pre + (dec + rest) =~= (pre + dec) + rest);
                    }
                }
            },
            None => {
                let c = v[i];
                out.push(c);
                proof {
                    assert forall|rest: Seq<char>|
                        #[trigger] is_render(v@.skip(i + 1), rest) implies is_render(
                        v@,
                        out@ + rest,
                    ) by {
                        let t = v@.skip(i as int);
                        assert(t[0] == v@[i as int]);
                        assert(t.skip(1) =~= v@.skip(i + 1));
                        assert((seq![c] + rest)[0] == c);
                        assert((seq![c] + rest).skip(1) =~= rest);
                        assert(is_render(t, seq![c] + rest));
                        assert(pre + (seq![c] + rest) =~= (pre + seq![c]) + rest);
                        assert(out@ =~= pre + seq![c]);
                    }
                }
            },
        }
        i = i + step;
    }
    proof {
        let empty = Seq::<char>::empty();
        assert(v@.skip(i as int) =~= empty);
        assert(is_render(empty, empty));
        assert(out@ + empty =~= out@);
    }
    chars_to_string(&out)
}

} // verus!

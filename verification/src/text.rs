use vstd::prelude::*;

verus! {

// ---------------------------------------------------------------------------
// Decimal digits: spec-level value of a digit string and digit string of a
// value, with the executable conversions both ways.
// ---------------------------------------------------------------------------

pub open spec fn is_digit_char(c: char) -> bool {
    '0' <= c && c <= '9'
}

/// Numeric value of one decimal digit character.
pub open spec fn digit_val(c: char) -> nat
    recommends
        is_digit_char(c),
{
    (c as u32 - '0' as u32) as nat
}

/// Decimal digit character of a value below ten.
pub open spec fn digit_char(d: nat) -> char
    recommends
        d < 10,
{
    (('0' as u32 + d) as u32) as char
}

/// Value of a whole string of decimal digits, most significant first.
pub open spec fn digits_val(s: Seq<char>) -> nat
    decreases s.len(),
{
    if s.len() == 0 {
        0
    } else {
        10 * digits_val(s.drop_last()) + digit_val(s.last())
    }
}

pub open spec fn all_digits(s: Seq<char>) -> bool {
    forall|i: int| 0 <= i < s.len() ==> is_digit_char(#[trigger] s[i])
}

/// Canonical decimal notation of a value (no leading zeros except "0").
pub open spec fn dec_digits(n: nat) -> Seq<char>
    decreases n,
{
    if n < 10 {
        seq![digit_char(n)]
    } else {
        dec_digits(n / 10).push(digit_char(n % 10))
    }
}

pub proof fn lemma_digits_val_append_ge(s: Seq<char>, t: Seq<char>)
    ensures
        digits_val(s + t) >= digits_val(s),
    decreases t.len(),
{
    if t.len() == 0 {
        assert(s + t =~= s);
    } else {
        lemma_digits_val_append_ge(s, t.drop_last());
        assert((s + t).drop_last() =~= s + t.drop_last());
        assert(digits_val(s + t) == 10 * digits_val(s + t.drop_last()) + digit_val((s + t).last()));
    }
}

pub proof fn lemma_digit_char_val(d: nat)
    requires
        d < 10,
    ensures
        digit_val(digit_char(d)) == d,
        is_digit_char(digit_char(d)),
{
    assert(digit_char(d) as u32 == '0' as u32 + d);
}

/// The canonical notation of a value evaluates back to that value.
pub proof fn lemma_dec_digits_val(n: nat)
    ensures
        digits_val(dec_digits(n)) == n,
        all_digits(dec_digits(n)),
        dec_digits(n).len() >= 1,
    decreases n,
{
    if n < 10 {
        lemma_digit_char_val(n);
        assert(dec_digits(n) =~= seq![digit_char(n)]);
        assert(dec_digits(n).drop_last() =~= Seq::<char>::empty());
        assert(digits_val(Seq::<char>::empty()) == 0);
        assert(digits_val(dec_digits(n)) == 10 * digits_val(dec_digits(n).drop_last()) + digit_val(
            dec_digits(n).last(),
        ));
    } else {
        lemma_dec_digits_val(n / 10);
        lemma_digit_char_val(n % 10);
        assert(dec_digits(n).drop_last() =~= dec_digits(n / 10));
        assert(dec_digits(n).last() == digit_char(n % 10));
        assert(digits_val(dec_digits(n)) == 10 * digits_val(dec_digits(n).drop_last()) + digit_val(
            dec_digits(n).last(),
        ));
        assert(n == 10 * (n / 10) + n % 10);
    }
}

/// Executable digit character of a value below ten.
pub fn digit_to_char(d: u8) -> (r: char)
    requires
        d < 10,
    ensures
        r == digit_char(d as nat),
        is_digit_char(r),
{
    (('0' as u8) + d) as char
}

/// Appends the canonical decimal notation of `n` to `out`.
pub fn push_decimal(n: u64, out: &mut Vec<char>)
    ensures
        final(out)@ == old(out)@ + dec_digits(n as nat),
    decreases n,
{
    if n < 10 {
        out.push(digit_to_char(n as u8));
        assert(final(out)@ =~= old(out)@ + dec_digits(n as nat));
    } else {
        push_decimal(n / 10, out);
        out.push(digit_to_char((n % 10) as u8));
        assert(final(out)@ =~= old(out)@ + dec_digits(n as nat));
    }
}

/// Canonical decimal notation of `n` on its own.
pub fn decimal_chars(n: u64) -> (r: Vec<char>)
    ensures
        r@ == dec_digits(n as nat),
{
    let mut out: Vec<char> = Vec::new();
    push_decimal(n, &mut out);
    assert(out@ =~= dec_digits(n as nat));
    out
}

/// Reads the decimal digit span `v[from..to]` as a `u64`; reports when the
/// value is too large for the type.
pub fn parse_decimal(v: &Vec<char>, from: usize, to: usize) -> (r: Option<u64>)
    requires
        from <= to <= v@.len(),
        all_digits(v@.subrange(from as int, to as int)),
    ensures
        match r {
            Some(x) => digits_val(v@.subrange(from as int, to as int)) == x as nat,
            None => digits_val(v@.subrange(from as int, to as int)) > u64::MAX,
        },
{
    let mut acc: u64 = 0;
    let mut i: usize = from;
    while i < to
        invariant
            from <= i <= to <= v@.len(),
            all_digits(v@.subrange(from as int, to as int)),
            acc as nat == digits_val(v@.subrange(from as int, i as int)),
        decreases to - i,
    {
        let c = v[i];
        assert(v@.subrange(from as int, to as int)[i - from] == c);
        assert(is_digit_char(c));
        let d: u32 = (c as u32) - ('0' as u32);
        proof {
            assert(v@.subrange(from as int, i + 1).drop_last() =~= v@.subrange(
                from as int,
                i as int,
            ));
            assert(v@.subrange(from as int, i + 1).last() == c);
        }
        if acc > (u64::MAX - (d as u64)) / 10 {
            proof {
                let done = v@.subrange(from as int, i + 1);
                let rest = v@.subrange(i + 1, to as int);
                assert(done + rest =~= v@.subrange(from as int, to as int));
                lemma_digits_val_append_ge(done, rest);
            }
            return None;
        }
        acc = acc * 10 + (d as u64);
        i = i + 1;
    }
    proof {
        assert(v@.subrange(from as int, to as int) =~= v@.subrange(from as int, i as int));
    }
    Some(acc)
}

// ---------------------------------------------------------------------------
// Substring search and literal replacement.
// ---------------------------------------------------------------------------

/// `pat` occurs in `s` starting at position `i`.
pub open spec fn matches_at(s: Seq<char>, pat: Seq<char>, i: int) -> bool {
    0 <= i && i + pat.len() <= s.len() && s.subrange(i, i + pat.len()) == pat
}

pub open spec fn contains_seq(s: Seq<char>, pat: Seq<char>) -> bool {
    exists|i: int| matches_at(s, pat, i)
}

/// `s` with every occurrence of `pat` replaced by `rep`, scanning left to
/// right and never rescanning replaced text.
pub open spec fn replace_all(s: Seq<char>, pat: Seq<char>, rep: Seq<char>) -> Seq<char>
    recommends
        pat.len() > 0,
    decreases s.len(),
{
    if s.len() == 0 || pat.len() == 0 {
        s
    } else if matches_at(s, pat, 0) {
        rep + replace_all(s.skip(pat.len() as int), pat, rep)
    } else {
        seq![s[0]] + replace_all(s.skip(1), pat, rep)
    }
}

/// Whether `pat` occurs in `v` at position `i`.
pub fn check_match_at(v: &Vec<char>, pat: &Vec<char>, i: usize) -> (r: bool)
    requires
        i <= v@.len(),
    ensures
        r == matches_at(v@, pat@, i as int),
{
    let n = v.len();
    if pat.len() > n - i {
        assert(!matches_at(v@, pat@, i as int));
        return false;
    }
    let mut j: usize = 0;
    while j < pat.len()
        invariant
            0 <= j <= pat@.len(),
            i + pat@.len() <= n == v@.len(),
            forall|k: int| 0 <= k < j ==> v@[i + k] == pat@[k],
        decreases pat@.len() - j,
    {
        if v[i + j] != pat[j] {
            assert(v@.subrange(i as int, i + pat@.len())[j as int] == v@[i + j]);
            assert(!matches_at(v@, pat@, i as int));
            return false;
        }
        j = j + 1;
    }
    assert(v@.subrange(i as int, i + pat@.len()) =~= pat@);
    true
}

/// Whether `pat` occurs anywhere in `v`.
pub fn contains_chars(v: &Vec<char>, pat: &Vec<char>) -> (r: bool)
    ensures
        r == contains_seq(v@, pat@),
{
    if pat.len() == 0 {
        assert(matches_at(v@, pat@, 0)) by {
            assert(v@.subrange(0, 0) =~= pat@);
        }
        return true;
    }
    if pat.len() > v.len() {
        assert(forall|i: int| !matches_at(v@, pat@, i));
        return false;
    }
    let n = v.len();
    let last = n - pat.len();
    let mut i: usize = 0;
    while i <= last
        invariant
            0 <= i <= last + 1,
            pat@.len() >= 1,
            last + pat@.len() == n == v@.len(),
            forall|j: int| 0 <= j < i ==> !matches_at(v@, pat@, j),
        decreases last - i + 1,
    {
        if check_match_at(v, pat, i) {
            return true;
        }
        i = i + 1;
    }
    assert(forall|j: int| j > last ==> !matches_at(v@, pat@, j));
    false
}

/// Replaces every occurrence of `pat` in `v` by `rep`.
pub fn replace_all_chars(v: &Vec<char>, pat: &Vec<char>, rep: &Vec<char>) -> (r: Vec<char>)
    requires
        pat@.len() > 0,
    ensures
        r@ == replace_all(v@, pat@, rep@),
{
    let mut out: Vec<char> = Vec::new();
    let mut i: usize = 0;
    assert(v@.skip(0) =~= v@);
    assert(replace_all(v@, pat@, rep@) == Seq::<char>::empty() + replace_all(v@, pat@, rep@))
        by {
        assert(Seq::<char>::empty() + replace_all(v@, pat@, rep@) =~= replace_all(
            v@,
            pat@,
            rep@,
        ));
    }
    while i < v.len()
        invariant
            0 <= i <= v@.len(),
            pat@.len() > 0,
            replace_all(v@, pat@, rep@) == out@ + replace_all(
                v@.skip(i as int),
                pat@,
                rep@,
            ),
        decreases v@.len() - i,
    {
        let ghost pre = out@;
        if check_match_at(v, pat, i) {
            let mut j: usize = 0;
            while j < rep.len()
                invariant
                    0 <= j <= rep@.len(),
                    out@ == pre + rep@.subrange(0, j as int),
                decreases rep@.len() - j,
            {
                out.push(rep[j]);
                assert(out@ =~= pre + rep@.subrange(0, j + 1));
                j = j + 1;
            }
            assert(out@ =~= pre + rep@);
            proof {
                let rest = v@.skip(i as int);
                assert(rest.subrange(0, pat@.len() as int) =~= v@.subrange(
                    i as int,
                    i + pat@.len(),
                ));
                assert(matches_at(rest, pat@, 0));
                assert(rest.skip(pat@.len() as int) =~= v@.skip(i + pat@.len()));
                assert(out@ + replace_all(v@.skip(i + pat@.len()), pat@, rep@) =~= pre + (rep@
                    + replace_all(rest.skip(pat@.len() as int), pat@, rep@)));
            }
            i = i + pat.len();
        } else {
            out.push(v[i]);
            proof {
                let rest = v@.skip(i as int);
                assert(rest[0] == v@[i as int]);
                if matches_at(rest, pat@, 0) {
                    assert(rest.subrange(0, pat@.len() as int) =~= v@.subrange(
                        i as int,
                        i + pat@.len(),
                    ));
                    assert(false);
                }
                assert(rest.skip(1) =~= v@.skip(i + 1));
                assert(out@ + replace_all(v@.skip(i + 1), pat@, rep@) =~= pre + (seq![rest[0]]
                    + replace_all(rest.skip(1), pat@, rep@)));
            }
            i = i + 1;
        }
    }
    proof {
        assert(v@.skip(i as int) =~= Seq::<char>::empty());
        assert(out@ + replace_all(v@.skip(i as int), pat@, rep@) =~= out@);
    }
    out
}

// ---------------------------------------------------------------------------
// Single-character scanning.
// ---------------------------------------------------------------------------

/// First position at or after `from` that holds `c`; the length if none does.
pub open spec fn char_pos(s: Seq<char>, c: char, from: int) -> int
    recommends
        0 <= from <= s.len(),
    decreases s.len() - from,
{
    if from < 0 || from >= s.len() {
        from
    } else if s[from] == c {
        from
    } else {
        char_pos(s, c, from + 1)
    }
}

pub proof fn lemma_char_pos_bounds(s: Seq<char>, c: char, from: int)
    requires
        0 <= from <= s.len(),
    ensures
        from <= char_pos(s, c, from) <= s.len(),
        char_pos(s, c, from) < s.len() ==> s[char_pos(s, c, from)] == c,
        forall|i: int| from <= i < char_pos(s, c, from) ==> s[i] != c,
    decreases s.len() - from,
{
    if from < s.len() && s[from] != c {
        lemma_char_pos_bounds(s, c, from + 1);
    }
}

/// First position at or after `from` that holds `c`.
pub fn find_char(v: &Vec<char>, c: char, from: usize) -> (r: usize)
    requires
        from <= v@.len(),
    ensures
        r == char_pos(v@, c, from as int),
        from <= r <= v@.len(),
{
    proof {
        lemma_char_pos_bounds(v@, c, from as int);
    }
    let n = v.len();
    let mut i: usize = from;
    while i < n
        invariant
            from <= i <= n == v@.len(),
            char_pos(v@, c, from as int) == char_pos(v@, c, i as int),
        decreases n - i,
    {
        if v[i] == c {
            return i;
        }
        i = i + 1;
    }
    i
}

pub proof fn lemma_char_pos_shift(s: Seq<char>, c: char, off: int, from: int)
    requires
        0 <= off,
        0 <= from,
        off + from <= s.len(),
    ensures
        char_pos(s.skip(off), c, from) == char_pos(s, c, off + from) - off,
    decreases s.len() - off - from,
{
    if off + from < s.len() {
        assert(s.skip(off)[from] == s[off + from]);
        if s[off + from] != c {
            lemma_char_pos_shift(s, c, off, from + 1);
        }
    }
}

/// Last position that holds `c`, or minus one if none does.
pub open spec fn last_char_pos(s: Seq<char>, c: char) -> int
    decreases s.len(),
{
    if s.len() == 0 {
        -1
    } else if s.last() == c {
        s.len() - 1
    } else {
        last_char_pos(s.drop_last(), c)
    }
}

pub proof fn lemma_last_char_pos_bounds(s: Seq<char>, c: char)
    ensures
        -1 <= last_char_pos(s, c) < s.len(),
    decreases s.len(),
{
    if s.len() > 0 && s.last() != c {
        lemma_last_char_pos_bounds(s.drop_last(), c);
    }
}

/// Last position in `v[..to]` that holds `c`, or minus one as `None`.
pub fn rfind_char(v: &Vec<char>, c: char, to: usize) -> (r: Option<usize>)
    requires
        to <= v@.len(),
    ensures
        match r {
            Some(i) => last_char_pos(v@.subrange(0, to as int), c) == i as int && i < to,
            None => last_char_pos(v@.subrange(0, to as int), c) == -1,
        },
{
    let mut j: usize = to;
    while j > 0
        invariant
            0 <= j <= to <= v@.len(),
            last_char_pos(v@.subrange(0, to as int), c) == last_char_pos(
                v@.subrange(0, j as int),
                c,
            ),
        decreases j,
    {
        proof {
            assert(v@.subrange(0, j as int).last() == v@[j - 1]);
            assert(v@.subrange(0, j as int).drop_last() =~= v@.subrange(0, j - 1));
        }
        if v[j - 1] == c {
            return Some(j - 1);
        }
        j = j - 1;
    }
    assert(v@.subrange(0, 0) =~= Seq::<char>::empty());
    None
}

/// Whether `v[from..to]` holds decimal digits only.
pub fn check_all_digits(v: &Vec<char>, from: usize, to: usize) -> (r: bool)
    requires
        from <= to <= v@.len(),
    ensures
        r == all_digits(v@.subrange(from as int, to as int)),
{
    let ghost sub = v@.subrange(from as int, to as int);
    let mut i: usize = from;
    while i < to
        invariant
            from <= i <= to <= v@.len(),
            sub == v@.subrange(from as int, to as int),
            forall|k: int| 0 <= k < i - from ==> is_digit_char(#[trigger] sub[k]),
        decreases to - i,
    {
        let c = v[i];
        assert(sub[i - from] == c);
        if !('0' <= c && c <= '9') {
            assert(!is_digit_char(sub[i - from]));
            return false;
        }
        i = i + 1;
    }
    true
}

// ---------------------------------------------------------------------------
// ASCII case folding, used to normalise chat command tokens.
// ---------------------------------------------------------------------------

/// ASCII-lowercased character; anything but 'A'..'Z' is left alone.
pub open spec fn lower_char(c: char) -> char {
    if 'A' <= c && c <= 'Z' {
        ((c as u32 + 32) as u32) as char
    } else {
        c
    }
}

pub open spec fn lower_seq(s: Seq<char>) -> Seq<char> {
    s.map_values(|c: char| lower_char(c))
}

/// Executable ASCII case folding of one character.
pub fn to_lower_char(c: char) -> (r: char)
    ensures
        r == lower_char(c),
{
    if 'A' <= c && c <= 'Z' {
        let b: u8 = (c as u8) + 32;
        b as char
    } else {
        c
    }
}

/// ASCII-lowercases a whole character vector.
pub fn to_lower_chars(v: &Vec<char>) -> (r: Vec<char>)
    ensures
        r@ == lower_seq(v@),
{
    let mut out: Vec<char> = Vec::new();
    let mut i: usize = 0;
    while i < v.len()
        invariant
            0 <= i <= v@.len(),
            out@ == v@.subrange(0, i as int).map_values(|c: char| lower_char(c)),
        decreases v@.len() - i,
    {
        out.push(to_lower_char(v[i]));
        assert(out@ =~= v@.subrange(0, i + 1).map_values(|c: char| lower_char(c)));
        i = i + 1;
    }
    assert(v@.subrange(0, i as int) =~= v@);
    out
}

// ---------------------------------------------------------------------------
// Conversions between `String`/`&str` and `Vec<char>`.
// ---------------------------------------------------------------------------

/// The characters of `s`, in order.
pub fn str_chars(s: &str) -> (r: Vec<char>)
    ensures
        r@ == s@,
{
    let n = s.unicode_len();
    let mut out: Vec<char> = Vec::new();
    let mut i: usize = 0;
    while i < n
        invariant
            0 <= i <= n == s@.len(),
            out@ == s@.subrange(0, i as int),
        decreases n - i,
    {
        out.push(s.get_char(i));
        assert(out@ =~= s@.subrange(0, i + 1));
        i = i + 1;
    }
    assert(s@.subrange(0, i as int) =~= s@);
    out
}

/// Whether two strings hold the same characters.
pub fn str_eq(a: &str, b: &str) -> (r: bool)
    ensures
        r == (a@ == b@),
{
    let sa = a.to_owned();
    let sb = b.to_owned();
    sa == sb
}

/// The characters of `v[from..to]`, as their own vector.
pub fn sub_chars(v: &Vec<char>, from: usize, to: usize) -> (r: Vec<char>)
    requires
        from <= to <= v@.len(),
    ensures
        r@ == v@.subrange(from as int, to as int),
{
    let n = v.len();
    let mut out: Vec<char> = Vec::new();
    let mut i: usize = from;
    while i < to
        invariant
            from <= i <= to <= n == v@.len(),
            out@ == v@.subrange(from as int, i as int),
        decreases to - i,
    {
        out.push(v[i]);
        assert(out@ =~= v@.subrange(from as int, i + 1));
        i = i + 1;
    }
    out
}

/// Relies on `core::iter::Iterator::collect` building a `String` from the
/// characters of the vector, in order.
#[verifier::external_body]
pub fn chars_to_string(v: &Vec<char>) -> (r: String)
    ensures
        r@ == v@,
{
    v.iter().collect()
}

} // verus!

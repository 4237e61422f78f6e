use vstd::prelude::*;

use crate::actions::{Action, ActionV, Exec, ExecTarget, ExecV, Trigger, TriggerV, ArcStr};
use crate::counter::{CounterV, TwitchCounter};
use crate::text::{
    chars_to_string, dec_digits, digits_val, is_digit_char, lemma_dec_digits_val, parse_decimal,
    push_decimal, str_chars,
};
use crate::template::{digits_end, lemma_digits_end_bounds};

verus! {

// ---------------------------------------------------------------------------
// The persisted form of an action: a flat, self-delimiting text.
//
// num(n)   ::=  decimal digits of n, then ';'
// str(s)   ::=  num(length of s), then ':', then the characters of s
// tgt      ::=  '0' (nobody) | 'u' (invoking user) | 'o' (prompted user)
// exec     ::=  'm' str   chat message template
//            |  'p' str   reply template
//            |  'n' num str   counter value and template
//            |  't' tgt num   timeout target and seconds
//            |  'b' tgt       ban target
//            |  'h' num exec exec   chance weight and both branches
// trigger  ::=  ('c' | 'r') str
// action   ::=  trigger exec
//
// The cooldown timestamp is never part of the persisted form.
// ---------------------------------------------------------------------------

pub open spec fn ser_num(n: nat) -> Seq<char> {
    dec_digits(n) + seq![';']
}

pub open spec fn ser_str(s: Seq<char>) -> Seq<char> {
    dec_digits(s.len()) + seq![':'] + s
}

pub open spec fn ser_tgt(t: ExecTarget) -> Seq<char> {
    match t {
        ExecTarget::Nobody => seq!['0'],
        ExecTarget::User => seq!['u'],
        ExecTarget::Other => seq!['o'],
    }
}

pub open spec fn ser_exec(e: ExecV) -> Seq<char>
    decreases e,
{
    match e {
        ExecV::ChatMsg(t) => seq!['m'] + ser_str(t),
        ExecV::Reply(t) => seq!['p'] + ser_str(t),
        ExecV::Counter(c) => seq!['n'] + ser_num(c.counter as nat) + ser_str(c.template),
        ExecV::Timeout(t, d) => seq!['t'] + ser_tgt(t) + ser_num(d as nat),
        ExecV::Ban(t) => seq!['b'] + ser_tgt(t),
        ExecV::Chance(p, a, b) => seq!['h'] + ser_num(p as nat) + ser_exec(*a) + ser_exec(*b),
    }
}

pub open spec fn ser_trigger(t: TriggerV) -> Seq<char> {
    match t {
        TriggerV::Command(s) => seq!['c'] + ser_str(s),
        TriggerV::Redeem(s) => seq!['r'] + ser_str(s),
    }
}

/// The persisted text of an action: its trigger, then its effect tree.
pub open spec fn ser_action(a: ActionV) -> Seq<char> {
    ser_trigger(a.trigger) + ser_exec(a.effect)
}

// ---------------------------------------------------------------------------
// Parsing, at the specification level: each `p_*` reads one construct off the
// head of the text and leaves the remainder.
// ---------------------------------------------------------------------------

pub open spec fn p_num(s: Seq<char>) -> Option<(u64, Seq<char>)> {
    let e = digits_end(s, 0);
    if e == 0 || e >= s.len() || s[e] != ';' {
        None
    } else if digits_val(s.take(e)) > u64::MAX {
        None
    } else {
        Some((digits_val(s.take(e)) as u64, s.skip(e + 1)))
    }
}

pub open spec fn p_str(s: Seq<char>) -> Option<(Seq<char>, Seq<char>)> {
    let e = digits_end(s, 0);
    if e == 0 || e >= s.len() || s[e] != ':' {
        None
    } else {
        let l = digits_val(s.take(e));
        if l > s.len() - e - 1 {
            None
        } else {
            Some((s.skip(e + 1).take(l as int), s.skip(e + 1).skip(l as int)))
        }
    }
}

pub open spec fn p_tgt(s: Seq<char>) -> Option<(ExecTarget, Seq<char>)> {
    if s.len() == 0 {
        None
    } else if s[0] == '0' {
        Some((ExecTarget::Nobody, s.skip(1)))
    } else if s[0] == 'u' {
        Some((ExecTarget::User, s.skip(1)))
    } else if s[0] == 'o' {
        Some((ExecTarget::Other, s.skip(1)))
    } else {
        None
    }
}

/// Parse of one effect tree; `fuel` only bounds the recursion and any amount
/// of at least the text's length plus one gives the same answer.
pub open spec fn p_exec(s: Seq<char>, fuel: nat) -> Option<(ExecV, Seq<char>)>
    decreases fuel,
{
    if fuel == 0 || s.len() == 0 {
        None
    } else if s[0] == 'm' {
        match p_str(s.skip(1)) {
            Some((t, rem)) => Some((ExecV::ChatMsg(t), rem)),
            None => None,
        }
    } else if s[0] == 'p' {
        match p_str(s.skip(1)) {
            Some((t, rem)) => Some((ExecV::Reply(t), rem)),
            None => None,
        }
    } else if s[0] == 'n' {
        match p_num(s.skip(1)) {
            Some((v, rem)) => if v > u32::MAX as u64 {
                None
            } else {
                match p_str(rem) {
                    Some((t, rem2)) => Some(
                        (ExecV::Counter(CounterV { counter: v as u32, template: t }), rem2),
                    ),
                    None => None,
                }
            },
            None => None,
        }
    } else if s[0] == 't' {
        match p_tgt(s.skip(1)) {
            Some((tg, rem)) => match p_num(rem) {
                Some((v, rem2)) => if v > u32::MAX as u64 {
                    None
                } else {
                    Some((ExecV::Timeout(tg, v as u32), rem2))
                },
                None => None,
            },
            None => None,
        }
    } else if s[0] == 'b' {
        match p_tgt(s.skip(1)) {
            Some((tg, rem)) => Some((ExecV::Ban(tg), rem)),
            None => None,
        }
    } else if s[0] == 'h' {
        match p_num(s.skip(1)) {
            Some((v, rem)) => if v > u32::MAX as u64 {
                None
            } else {
                match p_exec(rem, (fuel - 1) as nat) {
                    Some((a, rem2)) => match p_exec(rem2, (fuel - 1) as nat) {
                        Some((b, rem3)) => Some(
                            (ExecV::Chance(v as u32, Box::new(a), Box::new(b)), rem3),
                        ),
                        None => None,
                    },
                    None => None,
                }
            },
            None => None,
        }
    } else {
        None
    }
}

pub open spec fn p_trigger(s: Seq<char>) -> Option<(TriggerV, Seq<char>)> {
    if s.len() == 0 {
        None
    } else if s[0] == 'c' {
        match p_str(s.skip(1)) {
            Some((t, rem)) => Some((TriggerV::Command(t), rem)),
            None => None,
        }
    } else if s[0] == 'r' {
        match p_str(s.skip(1)) {
            Some((t, rem)) => Some((TriggerV::Redeem(t), rem)),
            None => None,
        }
    } else {
        None
    }
}

/// The action a persisted text describes, if it is well formed; a reloaded
/// action's cooldown state is always "never used".
pub open spec fn parse_action_spec(s: Seq<char>) -> Option<ActionV> {
    match p_trigger(s) {
        Some((t, rem)) => match p_exec(rem, rem.len() + 1) {
            Some((e, rem2)) => if rem2.len() == 0 {
                Some(ActionV { trigger: t, effect: e, last_used: 0 })
            } else {
                None
            },
            None => None,
        },
        None => None,
    }
}

// ---------------------------------------------------------------------------
// The remainder a parse leaves never grows, and any sufficient fuel gives
// the same parse.
// ---------------------------------------------------------------------------

pub proof fn lemma_p_num_rem(s: Seq<char>)
    ensures
        match p_num(s) {
            Some((v, rem)) => rem.len() + 2 <= s.len(),
            None => true,
        },
{
    lemma_digits_end_bounds(s, 0);
}

pub proof fn lemma_p_str_rem(s: Seq<char>)
    ensures
        match p_str(s) {
            Some((t, rem)) => rem.len() + 2 <= s.len(),
            None => true,
        },
{
    lemma_digits_end_bounds(s, 0);
}

pub proof fn lemma_p_exec_rem(s: Seq<char>, fuel: nat)
    ensures
        match p_exec(s, fuel) {
            Some((e, rem)) => rem.len() + 2 <= s.len(),
            None => true,
        },
    decreases fuel,
{
    if fuel == 0 || s.len() == 0 {
    } else {
        lemma_p_num_rem(s.skip(1));
        lemma_p_str_rem(s.skip(1));
        if s[0] == 'n' {
            match p_num(s.skip(1)) {
                Some((v, rem)) => {
                    lemma_p_str_rem(rem);
                },
                None => {},
            }
        }
        if s[0] == 't' {
            match p_tgt(s.skip(1)) {
                Some((tg, rem)) => {
                    lemma_p_num_rem(rem);
                },
                None => {},
            }
        }
        if s[0] == 'h' {
            match p_num(s.skip(1)) {
                Some((v, rem)) => {
                    lemma_p_exec_rem(rem, (fuel - 1) as nat);
                    match p_exec(rem, (fuel - 1) as nat) {
                        Some((a, rem2)) => {
                            lemma_p_exec_rem(rem2, (fuel - 1) as nat);
                        },
                        None => {},
                    }
                },
                None => {},
            }
        }
    }
}

// ---------------------------------------------------------------------------
// Parsing a serialized construct gives back exactly that construct.
// ---------------------------------------------------------------------------

proof fn lemma_digits_end_from(s: Seq<char>, j: int, k: int)
    requires
        0 <= j <= k <= s.len(),
        forall|i: int| j <= i < k ==> is_digit_char(#[trigger] s[i]),
        k == s.len() || !is_digit_char(s[k]),
    ensures
        digits_end(s, j) == k,
    decreases k - j,
{
    if j < k {
        lemma_digits_end_from(s, j + 1, k);
    }
}

pub proof fn lemma_p_num_ser(n: nat, rest: Seq<char>)
    requires
        n <= u64::MAX,
    ensures
        p_num(ser_num(n) + rest) == Some((n as u64, rest)),
{
    let dec = dec_digits(n);
    lemma_dec_digits_val(n);
    let s = ser_num(n) + rest;
    assert(s[dec.len() as int] == ';');
    assert(forall|i: int| 0 <= i < dec.len() ==> #[trigger] s[i] == dec[i]);
    lemma_digits_end_from(s, 0, dec.len() as int);
    assert(s.take(dec.len() as int) =~= dec);
    assert(s.skip(dec.len() as int + 1) =~= rest);
}

pub proof fn lemma_p_str_ser(t: Seq<char>, rest: Seq<char>)
    ensures
        p_str(ser_str(t) + rest) == Some((t, rest)),
{
    let dec = dec_digits(t.len());
    lemma_dec_digits_val(t.len());
    let s = ser_str(t) + rest;
    assert(ser_str(t) == dec + seq![':'] + t);
    assert(s[dec.len() as int] == ':');
    assert(forall|i: int| 0 <= i < dec.len() ==> #[trigger] s[i] == dec[i]);
    lemma_digits_end_from(s, 0, dec.len() as int);
    assert(s.take(dec.len() as int) =~= dec);
    let e = dec.len() as int;
    assert(s.len() - e - 1 == t.len() + rest.len());
    assert(s.skip(e + 1) =~= t + rest);
    assert((t + rest).take(t.len() as int) =~= t);
    assert((t + rest).skip(t.len() as int) =~= rest);
}

pub proof fn lemma_p_tgt_ser(t: ExecTarget, rest: Seq<char>)
    ensures
        p_tgt(ser_tgt(t) + rest) == Some((t, rest)),
{
    let s = ser_tgt(t) + rest;
    assert(s.skip(1) =~= rest);
}

pub proof fn lemma_p_exec_ser(e: ExecV, rest: Seq<char>, fuel: nat)
    requires
        fuel >= ser_exec(e).len() + rest.len() + 1,
    ensures
        p_exec(ser_exec(e) + rest, fuel) == Some((e, rest)),
    decreases e,
{
    let s = ser_exec(e) + rest;
    match e {
        ExecV::ChatMsg(t) => {
            assert(s[0] == 'm');
            assert(s.skip(1) =~= ser_str(t) + rest);
            lemma_p_str_ser(t, rest);
        },
        ExecV::Reply(t) => {
            assert(s[0] == 'p');
            assert(s.skip(1) =~= ser_str(t) + rest);
            lemma_p_str_ser(t, rest);
        },
        ExecV::Counter(c) => {
            assert(s[0] == 'n');
            assert(s.skip(1) =~= ser_num(c.counter as nat) + (ser_str(c.template) + rest));
            lemma_p_num_ser(c.counter as nat, ser_str(c.template) + rest);
            lemma_p_str_ser(c.template, rest);
        },
        ExecV::Timeout(t, d) => {
            assert(s[0] == 't');
            assert(s.skip(1) =~= ser_tgt(t) + (ser_num(d as nat) + rest));
            lemma_p_tgt_ser(t, ser_num(d as nat) + rest);
            lemma_p_num_ser(d as nat, rest);
        },
        ExecV::Ban(t) => {
            assert(s[0] == 'b');
            assert(s.skip(1) =~= ser_tgt(t) + rest);
            lemma_p_tgt_ser(t, rest);
        },
        ExecV::Chance(p, a, b) => {
            assert(s[0] == 'h');
            let sa = ser_exec(*a);
            let sb = ser_exec(*b);
            assert(s.skip(1) =~= ser_num(p as nat) + (sa + (sb + rest)));
            lemma_p_num_ser(p as nat, sa + (sb + rest));
            assert(sa + (sb + rest) =~= ser_exec(*a) + (sb + rest));
            lemma_p_exec_ser(*a, sb + rest, (fuel - 1) as nat);
            lemma_p_exec_ser(*b, rest, (fuel - 1) as nat);
        },
    }
}

pub proof fn lemma_p_trigger_ser(t: TriggerV, rest: Seq<char>)
    ensures
        p_trigger(ser_trigger(t) + rest) == Some((t, rest)),
{
    let s = ser_trigger(t) + rest;
    match t {
        TriggerV::Command(k) => {
            assert(s[0] == 'c');
            assert(s.skip(1) =~= ser_str(k) + rest);
            lemma_p_str_ser(k, rest);
        },
        TriggerV::Redeem(k) => {
            assert(s[0] == 'r');
            assert(s.skip(1) =~= ser_str(k) + rest);
            lemma_p_str_ser(k, rest);
        },
    }
}

/// Law: parsing a serialized action gives back an action with the same
/// trigger and the same effect tree, and a cooldown state of "never used".
pub proof fn lemma_action_round_trip(a: ActionV)
    ensures
        parse_action_spec(ser_action(a)) == Some(
            ActionV { trigger: a.trigger, effect: a.effect, last_used: 0 },
        ),
{
    let s = ser_action(a);
    let se = ser_exec(a.effect);
    lemma_p_trigger_ser(a.trigger, se);
    assert(ser_trigger(a.trigger) + se =~= s);
    lemma_p_exec_ser(a.effect, Seq::<char>::empty(), se.len() + 1);
    assert(se + Seq::<char>::empty() =~= se);
}

pub proof fn lemma_p_exec_fuel(s: Seq<char>, f1: nat, f2: nat)
    requires
        f1 >= s.len() + 1,
        f2 >= s.len() + 1,
    ensures
        p_exec(s, f1) == p_exec(s, f2),
    decreases s.len(),
{
    if s.len() == 0 {
    } else if s[0] == 'h' {
        lemma_p_num_rem(s.skip(1));
        match p_num(s.skip(1)) {
            Some((v, rem)) => {
                if v <= u32::MAX as u64 {
                    lemma_p_exec_fuel(rem, (f1 - 1) as nat, (f2 - 1) as nat);
                    lemma_p_exec_fuel(rem, (f1 - 1) as nat, rem.len() + 1);
                    lemma_p_exec_rem(rem, rem.len() + 1);
                    match p_exec(rem, rem.len() + 1) {
                        Some((a, rem2)) => {
                            lemma_p_exec_fuel(rem2, (f1 - 1) as nat, (f2 - 1) as nat);
                        },
                        None => {},
                    }
                }
            },
            None => {},
        }
    } else {
    }
}

// ---------------------------------------------------------------------------
// The executable serializer.
// ---------------------------------------------------------------------------

fn push_num(n: u64, out: &mut Vec<char>)
    ensures
        final(out)@ == old(out)@ + ser_num(n as nat),
{
    push_decimal(n, out);
    out.push(';');
    assert(final(out)@ =~= old(out)@ + ser_num(n as nat));
}

fn push_str(s: &str, out: &mut Vec<char>)
    ensures
        final(out)@ == old(out)@ + ser_str(s@),
{
    let ghost pre = out@;
    let v = str_chars(s);
    push_decimal(v.len() as u64, out);
    out.push(':');
    let ghost mid = out@;
    assert(mid =~= pre + dec_digits(s@.len()) + seq![':']);
    let mut i: usize = 0;
    while i < v.len()
        invariant
            0 <= i <= v@.len(),
            v@ == s@,
            out@ == mid + v@.subrange(0, i as int),
        decreases v@.len() - i,
    {
        out.push(v[i]);
        assert(out@ =~= mid + v@.subrange(0, i + 1));
        i = i + 1;
    }
    assert(v@.subrange(0, i as int) =~= s@);
    assert(out@ =~= pre + ser_str(s@));
}

fn push_tgt(t: &ExecTarget, out: &mut Vec<char>)
    ensures
        final(out)@ == old(out)@ + ser_tgt(*t),
{
    match t {
        ExecTarget::Nobody => out.push('0'),
        ExecTarget::User => out.push('u'),
        ExecTarget::Other => out.push('o'),
    }
    assert(final(out)@ =~= old(out)@ + ser_tgt(*t));
}

fn push_exec(e: &Exec, out: &mut Vec<char>)
    ensures
        final(out)@ == old(out)@ + ser_exec(e@),
    decreases e,
{
    let ghost pre = out@;
    match e {
        Exec::ChatMsg(t) => {
            out.push('m');
            push_str(t.as_str(), out);
            assert(out@ =~= pre + ser_exec(e@));
        },
        Exec::Reply(t) => {
            out.push('p');
            push_str(t.as_str(), out);
            assert(out@ =~= pre + ser_exec(e@));
        },
        Exec::Counter(c) => {
            out.push('n');
            push_num(c.counter as u64, out);
            push_str(c.template.as_str(), out);
            assert(out@ =~= pre + ser_exec(e@));
        },
        Exec::Timeout(t, d) => {
            out.push('t');
            push_tgt(t, out);
            push_num(*d as u64, out);
            assert(out@ =~= pre + ser_exec(e@));
        },
        Exec::Ban(t) => {
            out.push('b');
            push_tgt(t, out);
            assert(out@ =~= pre + ser_exec(e@));
        },
        Exec::Chance(p, a, b) => {
            out.push('h');
            push_num(*p as u64, out);
            push_exec(a, out);
            push_exec(b, out);
            assert(out@ =~= pre + ser_exec(e@));
        },
    }
}

fn push_trigger(t: &Trigger, out: &mut Vec<char>)
    ensures
        final(out)@ == old(out)@ + ser_trigger(t@),
{
    let ghost pre = out@;
    match t {
        Trigger::Command(s) => {
            out.push('c');
            push_str(s.as_str(), out);
            assert(out@ =~= pre + ser_trigger(t@));
        },
        Trigger::Redeem(s) => {
            out.push('r');
            push_str(s.as_str(), out);
            assert(out@ =~= pre + ser_trigger(t@));
        },
    }
}

/// The persisted text of the action; its cooldown state is left out.
pub fn serialize_action(a: &Action) -> (r: String)
    ensures
        r@ == ser_action(a@),
{
    let mut out: Vec<char> = Vec::new();
    push_trigger(&a.trigger, &mut out);
    push_exec(&a.effect, &mut out);
    assert(out@ =~= ser_action(a@));
    chars_to_string(&out)
}

/// The file an action is persisted under: its trigger key with the usual
/// suffix.
pub fn action_file_name(a: &Action) -> (r: String)
    ensures
        r@ == a@.trigger.key() + ".toml"@,
{
    let key = a.trigger.get_inner().as_str().to_owned();
    key.concat(".toml")
}

// ---------------------------------------------------------------------------
// The executable parser.
// ---------------------------------------------------------------------------

fn parse_num_at(v: &Vec<char>, i: usize) -> (r: Option<(u64, usize)>)
    requires
        i <= v@.len(),
    ensures
        match r {
            Some((x, j)) => i < j <= v@.len() && p_num(v@.skip(i as int)) == Some(
                (x, v@.skip(j as int)),
            ),
            None => p_num(v@.skip(i as int)) == None::<(u64, Seq<char>)>,
        },
{
    let ghost s = v@.skip(i as int);
    let e = crate::template::find_digits_end(v, i);
    proof {
        crate::template::lemma_digits_end_shift(v@, i as int, 0);
        assert(s.skip(0) =~= s);
    }
    assert(digits_end(s, 0) == e - i);
    if e == i || e >= v.len() {
        return None;
    }
    assert(s[e - i] == v@[e as int]);
    if v[e] != ';' {
        return None;
    }
    proof {
        crate::template::lemma_digits_end_bounds(v@, i as int);
        assert(s.take(e - i) =~= v@.subrange(i as int, e as int));
    }
    match parse_decimal(v, i, e) {
        Some(x) => {
            assert(s.skip(e - i + 1) =~= v@.skip(e + 1));
            Some((x, e + 1))
        },
        None => None,
    }
}

fn parse_str_at(v: &Vec<char>, i: usize) -> (r: Option<(String, usize)>)
    requires
        i <= v@.len(),
    ensures
        match r {
            Some((t, j)) => i < j <= v@.len() && p_str(v@.skip(i as int)) == Some(
                (t@, v@.skip(j as int)),
            ),
            None => p_str(v@.skip(i as int)) == None::<(Seq<char>, Seq<char>)>,
        },
{
    let ghost s = v@.skip(i as int);
    let e = crate::template::find_digits_end(v, i);
    proof {
        crate::template::lemma_digits_end_shift(v@, i as int, 0);
        assert(s.skip(0) =~= s);
    }
    assert(digits_end(s, 0) == e - i);
    if e == i || e >= v.len() {
        return None;
    }
    assert(s[e - i] == v@[e as int]);
    if v[e] != ':' {
        return None;
    }
    proof {
        crate::template::lemma_digits_end_bounds(v@, i as int);
        assert(s.take(e - i) =~= v@.subrange(i as int, e as int));
    }
    let l = match parse_decimal(v, i, e) {
        Some(x) => x,
        None => {
            assert(digits_val(s.take(e - i)) > u64::MAX);
            assert(s.len() - (e - i) - 1 <= u64::MAX);
            return None;
        },
    };
    let remaining = v.len() - e - 1;
    if l > remaining as u64 {
        return None;
    }
    let start = e + 1;
    let count = l as usize;
    let n = v.len();
    let mut chars: Vec<char> = Vec::new();
    let mut k: usize = 0;
    while k < count
        invariant
            0 <= k <= count,
            start + count <= n == v@.len(),
            chars@ == v@.subrange(start as int, start + k),
        decreases count - k,
    {
        chars.push(v[start + k]);
        assert(chars@ =~= v@.subrange(start as int, start + k + 1));
        k = k + 1;
    }
    let t = chars_to_string(&chars);
    proof {
        assert(s.skip(e - i + 1) =~= v@.skip(start as int));
        assert(v@.skip(start as int).take(l as int) =~= v@.subrange(start as int, start + count));
        assert(v@.skip(start as int).skip(l as int) =~= v@.skip(start + count));
    }
    Some((t, start + count))
}

fn parse_tgt_at(v: &Vec<char>, i: usize) -> (r: Option<(ExecTarget, usize)>)
    requires
        i <= v@.len(),
    ensures
        match r {
            Some((t, j)) => i < j <= v@.len() && p_tgt(v@.skip(i as int)) == Some(
                (t, v@.skip(j as int)),
            ),
            None => p_tgt(v@.skip(i as int)) == None::<(ExecTarget, Seq<char>)>,
        },
{
    let ghost s = v@.skip(i as int);
    if i == v.len() {
        return None;
    }
    assert(s[0] == v@[i as int]);
    assert(s.skip(1) =~= v@.skip(i + 1));
    let c = v[i];
    if c == '0' {
        Some((ExecTarget::Nobody, i + 1))
    } else if c == 'u' {
        Some((ExecTarget::User, i + 1))
    } else if c == 'o' {
        Some((ExecTarget::Other, i + 1))
    } else {
        None
    }
}

fn parse_exec_at(v: &Vec<char>, i: usize) -> (r: Option<(Exec, usize)>)
    requires
        i <= v@.len(),
    ensures
        match r {
            Some((ex, j)) => i < j <= v@.len() && p_exec(
                v@.skip(i as int),
                v@.skip(i as int).len() + 1,
            ) == Some((ex@, v@.skip(j as int))),
            None => p_exec(v@.skip(i as int), v@.skip(i as int).len() + 1) == None::<
                (ExecV, Seq<char>),
            >,
        },
    decreases v@.len() - i,
{
    let ghost s = v@.skip(i as int);
    let ghost fuel = s.len() + 1;
    if i == v.len() {
        return None;
    }
    assert(s[0] == v@[i as int]);
    assert(s.skip(1) =~= v@.skip(i + 1));
    let c = v[i];
    if c == 'm' {
        match parse_str_at(v, i + 1) {
            Some((t, j)) => Some((Exec::ChatMsg(ArcStr::new(t)), j)),
            None => None,
        }
    } else if c == 'p' {
        match parse_str_at(v, i + 1) {
            Some((t, j)) => Some((Exec::Reply(ArcStr::new(t)), j)),
            None => None,
        }
    } else if c == 'n' {
        match parse_num_at(v, i + 1) {
            Some((x, j)) => {
                if x > 0xffff_ffffu64 {
                    assert(x > u32::MAX as u64);
                    None
                } else {
                    match parse_str_at(v, j) {
                        Some((t, j2)) => Some(
                            (Exec::Counter(TwitchCounter { counter: x as u32, template: t }), j2),
                        ),
                        None => None,
                    }
                }
            },
            None => None,
        }
    } else if c == 't' {
        match parse_tgt_at(v, i + 1) {
            Some((tg, j)) => match parse_num_at(v, j) {
                Some((x, j2)) => {
                    if x > 0xffff_ffffu64 {
                        assert(x > u32::MAX as u64);
                        None
                    } else {
                        Some((Exec::Timeout(tg, x as u32), j2))
                    }
                },
                None => None,
            },
            None => None,
        }
    } else if c == 'b' {
        match parse_tgt_at(v, i + 1) {
            Some((tg, j)) => Some((Exec::Ban(tg), j)),
            None => None,
        }
    } else if c == 'h' {
        match parse_num_at(v, i + 1) {
            Some((x, j)) => {
                if x > 0xffff_ffffu64 {
                    assert(x > u32::MAX as u64);
                    None
                } else {
                    let ghost rem = v@.skip(j as int);
                    proof {
                        lemma_p_exec_fuel(rem, (fuel - 1) as nat, rem.len() + 1);
                    }
                    match parse_exec_at(v, j) {
                        Some((a, j2)) => {
                            let ghost rem2 = v@.skip(j2 as int);
                            proof {
                                lemma_p_exec_fuel(rem2, (fuel - 1) as nat, rem2.len() + 1);
                            }
                            match parse_exec_at(v, j2) {
                                Some((b, j3)) => Some(
                                    (Exec::Chance(x as u32, Box::new(a), Box::new(b)), j3),
                                ),
                                None => None,
                            }
                        },
                        None => None,
                    }
                }
            },
            None => None,
        }
    } else {
        None
    }
}

fn parse_trigger_at(v: &Vec<char>, i: usize) -> (r: Option<(Trigger, usize)>)
    requires
        i <= v@.len(),
    ensures
        match r {
            Some((t, j)) => i < j <= v@.len() && p_trigger(v@.skip(i as int)) == Some(
                (t@, v@.skip(j as int)),
            ),
            None => p_trigger(v@.skip(i as int)) == None::<(TriggerV, Seq<char>)>,
        },
{
    let ghost s = v@.skip(i as int);
    if i == v.len() {
        return None;
    }
    assert(s[0] == v@[i as int]);
    assert(s.skip(1) =~= v@.skip(i + 1));
    let c = v[i];
    if c == 'c' {
        match parse_str_at(v, i + 1) {
            Some((t, j)) => Some((Trigger::Command(ArcStr::new(t)), j)),
            None => None,
        }
    } else if c == 'r' {
        match parse_str_at(v, i + 1) {
            Some((t, j)) => Some((Trigger::Redeem(ArcStr::new(t)), j)),
            None => None,
        }
    } else {
        None
    }
}

/// Reads an action back from its persisted text. Parsing succeeds exactly on
/// well-formed texts; the action comes back with its cooldown state reset to
/// "never used".
pub fn parse_action(s: &str) -> (r: Option<Action>)
    ensures
        match r {
            Some(a) => parse_action_spec(s@) == Some(a@),
            None => parse_action_spec(s@) == None::<ActionV>,
        },
{
    let v = str_chars(s);
    assert(v@.skip(0) =~= v@);
    let (trigger, j) = match parse_trigger_at(&v, 0) {
        Some(p) => p,
        None => {
            return None;
        },
    };
    let (effect, j2) = match parse_exec_at(&v, j) {
        Some(p) => p,
        None => {
            return None;
        },
    };
    if j2 != v.len() {
        assert(v@.skip(j2 as int).len() > 0);
        return None;
    }
    assert(v@.skip(j2 as int).len() == 0);
    Some(Action { trigger, effect, last_used: 0 })
}

} // verus!

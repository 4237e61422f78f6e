use vstd::prelude::*;

use crate::text::{
    all_digits, chars_to_string, check_all_digits, dec_digits, decimal_chars, digits_val,
    lower_seq, parse_decimal, push_decimal, replace_all, replace_all_chars, str_chars, str_eq,
    to_lower_chars,
};

verus! {

/// Mathematical content of a counter: its value and its message template.
pub struct CounterV {
    pub counter: u32,
    pub template: Seq<char>,
}

/// A counter with a message template; the template's `{counter}` placeholders
/// are resolved to the current value when the counter is formatted.
pub struct TwitchCounter {
    pub counter: u32,
    pub template: String,
}

impl View for TwitchCounter {
    type V = CounterV;

    open spec fn view(&self) -> CounterV {
        CounterV { counter: self.counter, template: self.template@ }
    }
}

impl Clone for TwitchCounter {
    fn clone(&self) -> (r: Self)
        ensures
            r == *self,
    {
        TwitchCounter { counter: self.counter, template: self.template.clone() }
    }
}

/// The message text of a counter: its template with every `{counter}`
/// replaced by the decimal value.
pub open spec fn counter_text(c: CounterV) -> Seq<char> {
    replace_all(c.template, "{counter}"@, dec_digits(c.counter as nat))
}

/// The formatted message of the counter as it stands.
pub fn format_counter(c: &TwitchCounter) -> (r: String)
    ensures
        r@ == counter_text(c@),
{
    proof {
        reveal_strlit("{counter}");
    }
    let pat = str_chars("{counter}");
    let value = decimal_chars(c.counter as u64);
    let tpl = str_chars(c.template.as_str());
    let out = replace_all_chars(&tpl, &pat, &value);
    chars_to_string(&out)
}

impl TwitchCounter {
    /// A fresh counter standing at zero.
    pub fn new(template: String) -> (r: TwitchCounter)
        ensures
            r@.counter == 0,
            r@.template == template@,
    {
        TwitchCounter { counter: 0, template }
    }

    /// Adds `to_add` to the counter and returns its formatted message.
    pub fn add(&mut self, to_add: u32) -> (r: String)
        requires
            old(self)@.counter + to_add <= u32::MAX,
        ensures
            final(self)@.counter == old(self)@.counter + to_add,
            final(self)@.template == old(self)@.template,
            r@ == counter_text(final(self)@),
    {
        self.counter = self.counter + to_add;
        format_counter(self)
    }

    /// Resets the counter to zero and returns its formatted message.
    pub fn reset(&mut self) -> (r: String)
        ensures
            final(self)@.counter == 0,
            final(self)@.template == old(self)@.template,
            r@ == counter_text(final(self)@),
    {
        self.counter = 0;
        format_counter(self)
    }
}

// ---------------------------------------------------------------------------
// The store of named counters, each mutable on its own.
// ---------------------------------------------------------------------------

/// First value stored under the name.
pub open spec fn store_lookup(es: Seq<(Seq<char>, isize)>, name: Seq<char>) -> Option<isize>
    decreases es.len(),
{
    if es.len() == 0 {
        None
    } else if es[0].0 == name {
        Some(es[0].1)
    } else {
        store_lookup(es.skip(1), name)
    }
}

/// Counter names are stored once each.
pub open spec fn store_wf(es: Seq<(Seq<char>, isize)>) -> bool {
    forall|i: int, j: int| 0 <= i < j < es.len() ==> (#[trigger] es[i]).0 != (#[trigger] es[j]).0
}

pub proof fn lemma_store_lookup_none(es: Seq<(Seq<char>, isize)>, name: Seq<char>)
    ensures
        (store_lookup(es, name) is None) <==> (forall|i: int|
            0 <= i < es.len() ==> (#[trigger] es[i]).0 != name),
    decreases es.len(),
{
    if es.len() > 0 {
        lemma_store_lookup_none(es.skip(1), name);
        if es[0].0 != name {
            assert forall|i: int| 0 <= i < es.len() && (#[trigger] es[i]).0 == name implies
                es.skip(1)[i - 1].0 == name by {}
        }
    }
}

proof fn lemma_store_update(es: Seq<(Seq<char>, isize)>, i: int, name: Seq<char>, v: isize)
    requires
        0 <= i < es.len(),
        es[i].0 == name,
        forall|j: int| 0 <= j < i ==> (#[trigger] es[j]).0 != name,
    ensures
        store_lookup(es.update(i, (name, v)), name) == Some(v),
        forall|other: Seq<char>|
            other != name ==> #[trigger] store_lookup(es.update(i, (name, v)), other)
                == store_lookup(es, other),
    decreases i,
{
    let up = es.update(i, (name, v));
    if i == 0 {
        assert(up.skip(1) =~= es.skip(1));
        assert(store_lookup(up, name) == Some(v));
        assert forall|other: Seq<char>| other != name implies #[trigger] store_lookup(up, other)
            == store_lookup(es, other) by {
            assert(up[0].0 == name);
            assert(es[0].0 == name);
            assert(store_lookup(up, other) == store_lookup(up.skip(1), other));
            assert(store_lookup(es, other) == store_lookup(es.skip(1), other));
        }
    } else {
        assert(up[0] == es[0]);
        assert(up.skip(1) =~= es.skip(1).update(i - 1, (name, v)));
        assert(forall|j: int| 0 <= j < i - 1 ==> (#[trigger] es.skip(1)[j]).0 != name);
        lemma_store_update(es.skip(1), i - 1, name, v);
        assert(store_lookup(up, name) == Some(v));
        assert forall|other: Seq<char>| other != name implies #[trigger] store_lookup(up, other)
            == store_lookup(es, other) by {
            if es[0].0 == other {
                assert(store_lookup(up, other) == Some(up[0].1));
                assert(store_lookup(es, other) == Some(es[0].1));
            } else {
                assert(store_lookup(up, other) == store_lookup(up.skip(1), other));
                assert(store_lookup(es, other) == store_lookup(es.skip(1), other));
            }
        }
    }
}

proof fn lemma_store_push(es: Seq<(Seq<char>, isize)>, name: Seq<char>, v: isize)
    requires
        store_lookup(es, name) is None,
    ensures
        store_lookup(es.push((name, v)), name) == Some(v),
        forall|other: Seq<char>|
            other != name ==> #[trigger] store_lookup(es.push((name, v)), other) == store_lookup(
                es,
                other,
            ),
    decreases es.len(),
{
    let up = es.push((name, v));
    if es.len() == 0 {
        assert(up[0].0 == name);
        assert forall|other: Seq<char>| other != name implies #[trigger] store_lookup(up, other)
            == store_lookup(es, other) by {
            assert(up.skip(1) =~= es);
        }
    } else {
        assert(up[0] == es[0]);
        assert(up.skip(1) =~= es.skip(1).push((name, v)));
        lemma_store_push(es.skip(1), name, v);
        assert forall|other: Seq<char>| other != name implies #[trigger] store_lookup(up, other)
            == store_lookup(es, other) by {
            if es[0].0 == other {
                assert(store_lookup(up, other) == Some(up[0].1));
                assert(store_lookup(es, other) == Some(es[0].1));
            } else {
                assert(store_lookup(up, other) == store_lookup(up.skip(1), other));
                assert(store_lookup(es, other) == store_lookup(es.skip(1), other));
            }
        }
    }
}

proof fn lemma_store_remove(es: Seq<(Seq<char>, isize)>, i: int, other: Seq<char>)
    requires
        0 <= i < es.len(),
        es[i].0 != other,
    ensures
        store_lookup(es.remove(i), other) == store_lookup(es, other),
    decreases i,
{
    if i == 0 {
        assert(es.remove(0) =~= es.skip(1));
    } else {
        assert(es.remove(i)[0] == es[0]);
        assert(es.remove(i).skip(1) =~= es.skip(1).remove(i - 1));
        lemma_store_remove(es.skip(1), i - 1, other);
    }
}

/// One more, stopping at the type's ceiling.
pub open spec fn inc_sat(v: isize) -> isize {
    if v == isize::MAX {
        v
    } else {
        (v + 1) as isize
    }
}

/// One less, stopping at the type's floor.
pub open spec fn dec_sat(v: isize) -> isize {
    if v == isize::MIN {
        v
    } else {
        (v - 1) as isize
    }
}

/// The store of named counters. Every name is stored at most once; a name
/// never set counts as zero.
pub struct CounterStore {
    pub entries: Vec<(String, isize)>,
}

impl View for CounterStore {
    type V = Seq<(Seq<char>, isize)>;

    open spec fn view(&self) -> Seq<(Seq<char>, isize)> {
        self.entries@.map_values(|e: (String, isize)| (e.0@, e.1))
    }
}

impl CounterStore {
    /// An empty store.
    pub fn new() -> (r: CounterStore)
        ensures
            r@ == Seq::<(Seq<char>, isize)>::empty(),
            store_wf(r@),
    {
        let r = CounterStore { entries: Vec::new() };
        proof {
            assert(r@ =~= Seq::<(Seq<char>, isize)>::empty());
        }
        r
    }

    /// Position of the name's entry, if it has one.
    fn find_entry(&self, name: &str) -> (r: Option<usize>)
        ensures
            match r {
                Some(i) => i < self@.len() && self@[i as int].0 == name@ && store_lookup(
                    self@,
                    name@,
                ) == Some(self@[i as int].1) && forall|j: int|
                    0 <= j < i ==> (#[trigger] self@[j]).0 != name@,
                None => store_lookup(self@, name@) is None,
            },
    {
        let n = self.entries.len();
        let mut i: usize = 0;
        proof {
            assert(self@.skip(0) =~= self@);
        }
        while i < n
            invariant
                0 <= i <= n == self@.len(),
                store_lookup(self@, name@) == store_lookup(self@.skip(i as int), name@),
                forall|j: int| 0 <= j < i ==> (#[trigger] self@[j]).0 != name@,
            decreases n - i,
        {
            proof {
                assert(self@.skip(i as int)[0] == self@[i as int]);
                assert(self@.skip(i as int).skip(1) =~= self@.skip(i + 1));
            }
            if str_eq(self.entries[i].0.as_str(), name) {
                return Some(i);
            }
            i = i + 1;
        }
        proof {
            assert(self@.skip(i as int) =~= Seq::<(Seq<char>, isize)>::empty());
        }
        None
    }

    /// The counter's value; a name never set counts as zero.
    pub fn get(&self, name: &str) -> (r: isize)
        ensures
            r == match store_lookup(self@, name@) {
                Some(v) => v,
                None => 0isize,
            },
    {
        match self.find_entry(name) {
            Some(i) => self.entries[i].1,
            None => 0,
        }
    }

    /// Stores the value under the name, in place of any earlier one.
    pub fn set(&mut self, name: String, value: isize)
        requires
            store_wf(old(self)@),
        ensures
            store_wf(final(self)@),
            store_lookup(final(self)@, name@) == Some(value),
            forall|other: Seq<char>|
                other != name@ ==> #[trigger] store_lookup(final(self)@, other) == store_lookup(
                    old(self)@,
                    other,
                ),
    {
        let ghost pre = self@;
        match self.find_entry(name.as_str()) {
            Some(i) => {
                let ghost gname = name@;
                let ghost value_g = value;
                self.entries.set(i, (name, value));
                proof {
                    assert(self@ =~= pre.update(i as int, (gname, value_g)));
                    lemma_store_update(pre, i as int, gname, value_g);
                }
            },
            None => {
                let ghost gname = name@;
                let ghost value_g = value;
                self.entries.push((name, value));
                proof {
                    assert(self@ =~= pre.push((gname, value_g)));
                    lemma_store_push(pre, gname, value_g);
                    lemma_store_lookup_none(pre, gname);
                }
            },
        }
    }

    /// Adds one to the counter (stopping at the type's ceiling) and returns
    /// the new value; a name never set starts from zero.
    pub fn increase(&mut self, name: String) -> (r: isize)
        requires
            store_wf(old(self)@),
        ensures
            store_wf(final(self)@),
            r == inc_sat(
                match store_lookup(old(self)@, name@) {
                    Some(v) => v,
                    None => 0isize,
                },
            ),
            store_lookup(final(self)@, name@) == Some(r),
            forall|other: Seq<char>|
                other != name@ ==> #[trigger] store_lookup(final(self)@, other) == store_lookup(
                    old(self)@,
                    other,
                ),
    {
        let cur = self.get(name.as_str());
        let next: isize = if cur == isize::MAX {
            cur
        } else {
            cur + 1
        };
        self.set(name, next);
        next
    }

    /// Takes one off the counter (stopping at the type's floor) and returns
    /// the new value; a name never set starts from zero.
    pub fn decrease(&mut self, name: String) -> (r: isize)
        requires
            store_wf(old(self)@),
        ensures
            store_wf(final(self)@),
            r == dec_sat(
                match store_lookup(old(self)@, name@) {
                    Some(v) => v,
                    None => 0isize,
                },
            ),
            store_lookup(final(self)@, name@) == Some(r),
            forall|other: Seq<char>|
                other != name@ ==> #[trigger] store_lookup(final(self)@, other) == store_lookup(
                    old(self)@,
                    other,
                ),
    {
        let cur = self.get(name.as_str());
        let next: isize = if cur == isize::MIN {
            cur
        } else {
            cur - 1
        };
        self.set(name, next);
        next
    }

    /// Forgets the name's counter, if it has one.
    pub fn remove(&mut self, name: &str)
        requires
            store_wf(old(self)@),
        ensures
            store_wf(final(self)@),
            store_lookup(final(self)@, name@) is None,
            forall|other: Seq<char>|
                other != name@ ==> #[trigger] store_lookup(final(self)@, other) == store_lookup(
                    old(self)@,
                    other,
                ),
    {
        let ghost pre = self@;
        match self.find_entry(name) {
            Some(i) => {
                self.entries.remove(i);
                proof {
                    assert(self@ =~= pre.remove(i as int));
                    assert forall|j: int| 0 <= j < self@.len() implies (#[trigger] self@[j]).0
                        != name@ by {
                        assert(self@[j] == if j < i {
                            pre[j]
                        } else {
                            pre[j + 1]
                        });
                    }
                    lemma_store_lookup_none(self@, name@);
                    assert forall|other: Seq<char>| other != name@ implies #[trigger] store_lookup(
                        self@,
                        other,
                    ) == store_lookup(pre, other) by {
                        lemma_store_remove(pre, i as int, other);
                    }
                }
            },
            None => {
                proof {
                    lemma_store_lookup_none(pre, name@);
                }
            },
        }
    }
}

// ---------------------------------------------------------------------------
// The chat commands that drive the store: `<counter> set <n>`, `get`, `inc`
// and `dec`, allowed only on configured counter names.
// ---------------------------------------------------------------------------

/// The decimal notation of a possibly negative value.
pub open spec fn int_digits(v: int) -> Seq<char> {
    if v >= 0 {
        dec_digits(v as nat)
    } else {
        seq!['-'] + dec_digits((-v) as nat)
    }
}

/// Appends the decimal notation of `v` to `out`.
pub fn push_int(v: isize, out: &mut Vec<char>)
    ensures
        final(out)@ == old(out)@ + int_digits(v as int),
{
    if v >= 0 {
        push_decimal(v as u64, out);
    } else {
        out.push('-');
        let mag: u64 = ((-(v + 1)) as u64) + 1;
        assert(mag == -(v as int));
        push_decimal(mag, out);
        assert(final(out)@ =~= old(out)@ + int_digits(v as int));
    }
}

/// An integer written as decimal digits with an optional leading minus, if
/// it fits the type.
pub open spec fn parse_int_spec(s: Seq<char>) -> Option<int> {
    if s.len() >= 2 && s[0] == '-' {
        let d = s.skip(1);
        if all_digits(d) && -(digits_val(d) as int) >= isize::MIN {
            Some(-(digits_val(d) as int))
        } else {
            None
        }
    } else if s.len() >= 1 && all_digits(s) && digits_val(s) <= isize::MAX {
        Some(digits_val(s) as int)
    } else {
        None
    }
}

/// Reads an integer written as decimal digits with an optional leading
/// minus; anything else, or a value too large for the type, is refused.
pub fn parse_isize(s: &str) -> (r: Option<isize>)
    ensures
        match r {
            Some(x) => parse_int_spec(s@) == Some(x as int),
            None => parse_int_spec(s@) is None,
        },
{
    let v = str_chars(s);
    let n = v.len();
    if n >= 2 && v[0] == '-' {
        proof {
            assert(v@.subrange(1, n as int) =~= v@.skip(1));
        }
        if !check_all_digits(&v, 1, n) {
            return None;
        }
        let mag = match parse_decimal(&v, 1, n) {
            Some(x) => x,
            None => {
                return None;
            },
        };
        if mag <= isize::MAX as u64 {
            Some(-(mag as isize))
        } else if mag == (isize::MAX as u64) + 1 {
            Some(isize::MIN)
        } else {
            None
        }
    } else if n >= 1 {
        proof {
            assert(v@.subrange(0, n as int) =~= v@);
        }
        if !check_all_digits(&v, 0, n) {
            return None;
        }
        let mag = match parse_decimal(&v, 0, n) {
            Some(x) => x,
            None => {
                return None;
            },
        };
        if mag <= isize::MAX as u64 {
            Some(mag as isize)
        } else {
            None
        }
    } else {
        None
    }
}

/// The names of the configured counters.
pub open spec fn names_of(vs: Seq<String>) -> Seq<Seq<char>> {
    vs.map_values(|s: String| s@)
}

pub open spec fn name_allowed(ns: Seq<Seq<char>>, name: Seq<char>) -> bool {
    exists|i: int| 0 <= i < ns.len() && ns[i] == name
}

/// Whether the name is one of the configured counters.
fn contains_name(list: &Vec<String>, name: &str) -> (r: bool)
    ensures
        r == name_allowed(names_of(list@), name@),
{
    let n = list.len();
    let mut i: usize = 0;
    while i < n
        invariant
            0 <= i <= n == list@.len(),
            forall|j: int| 0 <= j < i ==> names_of(list@)[j] != name@,
        decreases n - i,
    {
        if str_eq(list[i].as_str(), name) {
            assert(names_of(list@)[i as int] == name@);
            return true;
        }
        assert(names_of(list@)[i as int] != name@);
        i = i + 1;
    }
    false
}

/// The reply a counter command produces.
pub open spec fn counter_msg(name: Seq<char>, v: int) -> Seq<char> {
    name + " is now "@ + int_digits(v)
}

/// The reply a counter command produces.
fn counter_message(name: &str, v: isize) -> (r: String)
    ensures
        r@ == counter_msg(name@, v as int),
{
    proof {
        reveal_strlit(" is now ");
    }
    let mut out = str_chars(name);
    let mid = str_chars(" is now ");
    let ghost pre = out@;
    let mut i: usize = 0;
    while i < mid.len()
        invariant
            0 <= i <= mid@.len(),
            out@ == pre + mid@.subrange(0, i as int),
        decreases mid@.len() - i,
    {
        out.push(mid[i]);
        assert(out@ =~= pre + mid@.subrange(0, i + 1));
        i = i + 1;
    }
    assert(mid@.subrange(0, i as int) =~= mid@);
    push_int(v, &mut out);
    assert(out@ =~= counter_msg(name@, v as int));
    chars_to_string(&out)
}

/// Runs one counter command against the store. An unknown counter name is
/// reported with no message; a bad value or verb with one; a good command
/// answers with the counter's new (or current) value.
pub fn handle_counters(
    store: &mut CounterStore,
    allowed: &Vec<String>,
    counter: &str,
    command: &str,
    value: Option<&str>,
) -> (r: Result<String, Option<String>>)
    requires
        store_wf(old(store)@),
    ensures
        store_wf(final(store)@),
        ({
            let es = old(store)@;
            let cmd = lower_seq(command@);
            if !name_allowed(names_of(allowed@), counter@) {
                final(store)@ == es && r == Err::<String, Option<String>>(None)
            } else if cmd == "set"@ {
                match value {
                    None => final(store)@ == es && match r {
                        Err(Some(m)) => m@ == "No value provided"@,
                        _ => false,
                    },
                    Some(val) => match parse_int_spec(val@) {
                        None => final(store)@ == es && match r {
                            Err(Some(m)) => m@ == "Value is not a number"@,
                            _ => false,
                        },
                        Some(x) => {
                            &&& store_lookup(final(store)@, counter@) == Some(x as isize)
                            &&& forall|other: Seq<char>|
                                other != counter@ ==> #[trigger] store_lookup(
                                    final(store)@,
                                    other,
                                ) == store_lookup(es, other)
                            &&& match r {
                                Ok(m) => m@ == counter_msg(counter@, x),
                                _ => false,
                            }
                        },
                    },
                }
            } else if cmd == "get"@ {
                let cur = match store_lookup(es, counter@) {
                    Some(v) => v,
                    None => 0isize,
                };
                final(store)@ == es && match r {
                    Ok(m) => m@ == counter_msg(counter@, cur as int),
                    _ => false,
                }
            } else if cmd == "inc"@ {
                let next = inc_sat(
                    match store_lookup(es, counter@) {
                        Some(v) => v,
                        None => 0isize,
                    },
                );
                &&& store_lookup(final(store)@, counter@) == Some(next)
                &&& forall|other: Seq<char>|
                    other != counter@ ==> #[trigger] store_lookup(final(store)@, other)
                        == store_lookup(es, other)
                &&& match r {
                    Ok(m) => m@ == counter_msg(counter@, next as int),
                    _ => false,
                }
            } else if cmd == "dec"@ {
                let next = dec_sat(
                    match store_lookup(es, counter@) {
                        Some(v) => v,
                        None => 0isize,
                    },
                );
                &&& store_lookup(final(store)@, counter@) == Some(next)
                &&& forall|other: Seq<char>|
                    other != counter@ ==> #[trigger] store_lookup(final(store)@, other)
                        == store_lookup(es, other)
                &&& match r {
                    Ok(m) => m@ == counter_msg(counter@, next as int),
                    _ => false,
                }
            } else {
                final(store)@ == es && match r {
                    Err(Some(m)) => m@ == "Invalid counter action"@,
                    _ => false,
                }
            }
        }),
{
    if !contains_name(allowed, counter) {
        return Err(None);
    }
    let folded_chars = to_lower_chars(&str_chars(command));
    let cmd = chars_to_string(&folded_chars);
    if str_eq(cmd.as_str(), "set") {
        let val = match value {
            None => {
                return Err(Some("No value provided".to_owned()));
            },
            Some(val) => val,
        };
        let x = match parse_isize(val) {
            None => {
                return Err(Some("Value is not a number".to_owned()));
            },
            Some(x) => x,
        };
        store.set(counter.to_owned(), x);
        Ok(counter_message(counter, x))
    } else if str_eq(cmd.as_str(), "get") {
        let cur = store.get(counter);
        Ok(counter_message(counter, cur))
    } else if str_eq(cmd.as_str(), "inc") {
        let next = store.increase(counter.to_owned());
        Ok(counter_message(counter, next))
    } else if str_eq(cmd.as_str(), "dec") {
        let next = store.decrease(counter.to_owned());
        Ok(counter_message(counter, next))
    } else {
        Err(Some("Invalid counter action".to_owned()))
    }
}

} // verus!

use vstd::prelude::*;

use crate::actions::{
    cooldown_admits, exec_post, opt_effect_view, opt_string_view, opt_str_view, Action, Effect,
    EffectV, COOLDOWN_WINDOW_MS,
};
use crate::registry::{action_key, registry_wf, ActionRegistry};
use crate::rng::rand_below_usize;
use crate::text::{
    chars_to_string, contains_chars, contains_seq, lower_seq, str_chars, sub_chars,
    to_lower_chars,
};

verus! {

// ---------------------------------------------------------------------------
// The set of active chatters: an insertion-ordered map of chatter name to the
// time they were last seen, pruned to a sliding window, with uniform random
// selection. The map is the `indexmap` crate's, taken on trust through the
// raw methods below; the ghost field `entries` models its entries in order.
// ---------------------------------------------------------------------------

/// How long a chatter counts as active after their last message, in seconds.
pub const CHATTER_WINDOW_S: u64 = 300;

/// Whether a chatter last seen at `seen_s` is still active at `now_s`.
pub open spec fn chatter_active(seen_s: u64, now_s: u64) -> bool {
    seen_s + CHATTER_WINDOW_S >= now_s
}

/// Executable activity check.
pub fn keep_chatter(seen_s: u64, now_s: u64) -> (r: bool)
    ensures
        r == chatter_active(seen_s, now_s),
{
    now_s <= CHATTER_WINDOW_S || seen_s >= now_s - CHATTER_WINDOW_S
}

/// Whether some entry carries the name.
pub open spec fn has_chatter(es: Seq<(Seq<char>, u64)>, name: Seq<char>) -> bool {
    exists|i: int| 0 <= i < es.len() && (#[trigger] es[i]).0 == name
}

/// What an insert leaves behind: an already-present name keeps its place and
/// gets the new timestamp; a new name is appended last.
pub open spec fn chatters_insert_post(
    es: Seq<(Seq<char>, u64)>,
    es2: Seq<(Seq<char>, u64)>,
    name: Seq<char>,
    t: u64,
) -> bool {
    if has_chatter(es, name) {
        exists|i: int|
            0 <= i < es.len() && (#[trigger] es[i]).0 == name && es2 == es.update(i, (name, t))
    } else {
        es2 == es.push((name, t))
    }
}

/// The entries still inside the activity window, in their order.
pub open spec fn pruned_chatters(es: Seq<(Seq<char>, u64)>, now_s: u64) -> Seq<(Seq<char>, u64)> {
    es.filter(|e: (Seq<char>, u64)| chatter_active(e.1, now_s))
}

#[verifier::external_type_specification]
#[verifier::external_body]
#[verifier::reject_recursive_types(K)]
#[verifier::reject_recursive_types(V)]
#[verifier::reject_recursive_types(S)]
pub struct ExIndexMap<K, V, S>(indexmap::IndexMap<K, V, S>);

/// Relies on `indexmap::IndexMap::new`; what the fresh map holds is stated at
/// its one caller, `ActiveChatters::new`.
#[verifier::external_body]
fn chatters_new_raw() -> indexmap::IndexMap<String, u64> {
    indexmap::IndexMap::new()
}

/// The insertion-ordered set of recently seen chatters; `entries` is its
/// ghost model, the entries of the map in insertion order.
pub struct ActiveChatters {
    map: indexmap::IndexMap<String, u64>,
    entries: Ghost<Seq<(Seq<char>, u64)>>,
}

impl View for ActiveChatters {
    type V = Seq<(Seq<char>, u64)>;

    closed spec fn view(&self) -> Seq<(Seq<char>, u64)> {
        self.entries@
    }
}

impl ActiveChatters {
    /// A fresh, empty chatter set. Relies on `indexmap::IndexMap::new`
    /// building an empty map, which the fresh ghost model mirrors.
    pub fn new() -> (r: ActiveChatters)
        ensures
            r@ == Seq::<(Seq<char>, u64)>::empty(),
    {
        ActiveChatters { map: chatters_new_raw(), entries: Ghost(Seq::empty()) }
    }

    /// Relies on `indexmap::IndexMap::insert`: an existing key keeps its
    /// place in the order and gets the new value; a new key is appended last.
    #[verifier::external_body]
    fn insert_raw(&mut self, name: String, t: u64)
        ensures
            chatters_insert_post(old(self).entries@, final(self).entries@, name@, t),
    {
        self.map.insert(name, t);
    }

    /// Relies on `indexmap::IndexMap::retain`: exactly the entries the keep
    /// closure accepts stay, in their order; the closure calls the verified
    /// `keep_chatter`.
    #[verifier::external_body]
    fn prune_raw(&mut self, now_s: u64)
        ensures
            final(self).entries@ == pruned_chatters(old(self).entries@, now_s),
    {
        self.map.retain(|_, t| keep_chatter(*t, now_s));
    }

    /// Relies on `indexmap::IndexMap::len`: the number of entries.
    #[verifier::external_body]
    fn len_raw(&self) -> (r: usize)
        ensures
            r == self.entries@.len(),
    {
        self.map.len()
    }

    /// Relies on `indexmap::IndexMap::get_index`: the entry at the position,
    /// in insertion order (here a copy of its name), present exactly for
    /// positions below the length.
    #[verifier::external_body]
    fn get_index_raw(&self, i: usize) -> (r: Option<String>)
        ensures
            match r {
                Some(name) => i < self.entries@.len() && name@ == self.entries@[i as int].0,
                None => i >= self.entries@.len(),
            },
    {
        self.map.get_index(i).map(|(k, _)| k.clone())
    }

    /// Relies on `indexmap::IndexMap::contains_key`: whether an equal key is
    /// stored.
    #[verifier::external_body]
    fn contains_raw(&self, name: &str) -> (r: bool)
        ensures
            r == has_chatter(self.entries@, name@),
    {
        self.map.contains_key(name)
    }

    /// Notes that the chatter spoke at `now_s`.
    pub fn register_active_chatter(&mut self, name: String, now_s: u64)
        ensures
            chatters_insert_post(old(self)@, final(self)@, name@, now_s),
    {
        self.insert_raw(name, now_s);
    }

    /// Prunes chatters outside the activity window, then asks whether the
    /// named one is still active.
    pub fn is_chatter_active(&mut self, name: &str, now_s: u64) -> (r: bool)
        ensures
            final(self)@ == pruned_chatters(old(self)@, now_s),
            r == has_chatter(final(self)@, name@),
    {
        self.prune_raw(now_s);
        self.contains_raw(name)
    }

    /// Prunes chatters outside the activity window, then picks one of the
    /// remaining ones at random; there is none exactly when nobody is active.
    pub fn get_random_chatter(&mut self, now_s: u64) -> (r: Option<String>)
        ensures
            final(self)@ == pruned_chatters(old(self)@, now_s),
            match r {
                Some(name) => has_chatter(final(self)@, name@),
                None => final(self)@.len() == 0,
            },
    {
        self.prune_raw(now_s);
        let n = self.len_raw();
        if n == 0 {
            None
        } else {
            let i = rand_below_usize(n);
            match self.get_index_raw(i) {
                Some(name) => {
                    proof {
                        assert(0 <= i < self@.len() && self@[i as int].0 == name@);
                    }
                    Some(name)
                },
                None => {
                    proof {
                        assert(false);
                    }
                    None
                },
            }
        }
    }
}

// ---------------------------------------------------------------------------
// Chat command parsing.
// ---------------------------------------------------------------------------

/// First position at or after `from` that holds a space.
pub open spec fn first_space(s: Seq<char>, from: int) -> int
    recommends
        0 <= from <= s.len(),
    decreases s.len() - from,
{
    if from < 0 || from >= s.len() {
        from
    } else if s[from] == ' ' {
        from
    } else {
        first_space(s, from + 1)
    }
}

pub proof fn lemma_first_space_bounds(s: Seq<char>, from: int)
    requires
        0 <= from <= s.len(),
    ensures
        from <= first_space(s, from) <= s.len(),
    decreases s.len() - from,
{
    if from < s.len() && s[from] != ' ' {
        lemma_first_space_bounds(s, from + 1);
    }
}

/// A chat message is a command attempt when it starts with '!'.
pub open spec fn is_command(s: Seq<char>) -> bool {
    s.len() > 0 && s[0] == '!'
}

/// The trigger key of a command attempt: its first token, case-folded.
pub open spec fn cmd_key(s: Seq<char>) -> Seq<char>
    recommends
        is_command(s),
{
    lower_seq(s.subrange(1, first_space(s, 1)))
}

/// The free-text prompt of a command attempt: whatever follows the first
/// space, where that is not empty.
pub open spec fn prompt_of(s: Seq<char>) -> Option<Seq<char>>
    recommends
        is_command(s),
{
    let e = first_space(s, 1);
    if e + 1 < s.len() {
        Some(s.skip(e + 1))
    } else {
        None
    }
}

/// Splits a chat message into its case-folded command token and optional
/// prompt; a message that does not start with '!' is no command.
pub fn parse_command(text: &str) -> (r: Option<(String, Option<String>)>)
    ensures
        match r {
            Some((cmd, prompt)) => is_command(text@) && cmd@ == cmd_key(text@) && opt_string_view(
                prompt,
            ) == prompt_of(text@),
            None => !is_command(text@),
        },
{
    let v = str_chars(text);
    let n = v.len();
    if n == 0 {
        return None;
    }
    if v[0] != '!' {
        return None;
    }
    proof {
        lemma_first_space_bounds(v@, 1);
    }
    let mut e: usize = 1;
    while e < n && v[e] != ' '
        invariant
            1 <= e <= n == v@.len(),
            v@ == text@,
            first_space(v@, 1) == first_space(v@, e as int),
        decreases n - e,
    {
        e = e + 1;
    }
    assert(e == first_space(v@, 1));
    let token = sub_chars(&v, 1, e);
    let folded = to_lower_chars(&token);
    let cmd = chars_to_string(&folded);
    if e < n {
        if e + 1 < n {
            let p = sub_chars(&v, e + 1, n);
            assert(p@ =~= v@.skip(e + 1));
            let prompt = chars_to_string(&p);
            Some((cmd, Some(prompt)))
        } else {
            Some((cmd, None))
        }
    } else {
        Some((cmd, None))
    }
}

// ---------------------------------------------------------------------------
// The anti-spam pre-filter: a hard-coded heuristic against a known kind of
// advertising, exempt from any cooldown.
// ---------------------------------------------------------------------------

/// A message is spam when it offers "cheap viewers" and carries a period or
/// the word "dot".
pub open spec fn is_spam_text(s: Seq<char>) -> bool {
    contains_seq(s, "cheap viewers"@) && (contains_seq(s, "."@) || contains_seq(s, "dot"@))
}

/// Executable spam check.
pub fn is_spam(text: &str) -> (r: bool)
    ensures
        r == is_spam_text(text@),
{
    let v = str_chars(text);
    let phrase = str_chars("cheap viewers");
    let period = str_chars(".");
    let word = str_chars("dot");
    let hit = contains_chars(&v, &phrase);
    let dotted = contains_chars(&v, &period);
    let worded = contains_chars(&v, &word);
    hit && (dotted || worded)
}

// ---------------------------------------------------------------------------
// The inbound chat path: register the chatter, filter spam, parse the
// command, look the action up, pass the cooldown gate, and evaluate.
// ---------------------------------------------------------------------------

/// Handles one inbound chat message and returns the effect to perform, if
/// any. Spam draws an immediate, cooldown-exempt ban. A command is looked up
/// under its case-folded first token; a found action runs only when its
/// cooldown window has passed, and what its evaluation did to it is stored
/// back under the same key.
pub fn handle_msg(
    registry: &mut ActionRegistry,
    chatters: &mut ActiveChatters,
    chatter: &str,
    text: &str,
    now_ms: u64,
    now_s: u64,
) -> (r: Option<Effect>)
    requires
        registry_wf(old(registry)@),
    ensures
        registry_wf(final(registry)@),
        chatters_insert_post(old(chatters)@, final(chatters)@, chatter@, now_s),
        is_spam_text(text@) ==> opt_effect_view(r) == Some(EffectV::BanUser(chatter@))
            && final(registry)@ == old(registry)@,
        !is_spam_text(text@) && !is_command(text@) ==> r is None
            && final(registry)@ == old(registry)@,
        !is_spam_text(text@) && is_command(text@) && !old(registry)@.dom().contains(cmd_key(text@))
            ==> r is None && final(registry)@ == old(registry)@,
        !is_spam_text(text@) && is_command(text@) && old(registry)@.dom().contains(cmd_key(text@))
            && !cooldown_admits(old(registry)@[cmd_key(text@)].last_used, now_ms) ==> r is None
            && final(registry)@ == old(registry)@,
        !is_spam_text(text@) && is_command(text@) && old(registry)@.dom().contains(cmd_key(text@))
            && cooldown_admits(old(registry)@[cmd_key(text@)].last_used, now_ms) ==> exists|
            a2: Action,
        |
            {
                &&& final(registry)@ == old(registry)@.insert(cmd_key(text@), a2)
                &&& a2.trigger@ == old(registry)@[cmd_key(text@)].trigger@
                &&& a2.last_used == now_ms
                &&& exec_post(
                    old(registry)@[cmd_key(text@)].effect@,
                    a2.effect@,
                    chatter@,
                    prompt_of(text@),
                    opt_effect_view(r),
                )
            },
{
    chatters.register_active_chatter(chatter.to_owned(), now_s);
    if is_spam(text) {
        return Some(Effect::BanUser(chatter.to_owned()));
    }
    let (cmd, prompt) = match parse_command(text) {
        Some(p) => p,
        None => {
            return None;
        },
    };
    let mut action = match registry.get_action(cmd.as_str()) {
        Some(a) => a,
        None => {
            return None;
        },
    };
    if !action.allow_use(now_ms) {
        return None;
    }
    let Action { trigger, effect, last_used } = action;
    let prompt_ref: Option<&str> = match &prompt {
        Some(p) => Some(p.as_str()),
        None => None,
    };
    let (e2, eff) = effect.exec(chatter, prompt_ref);
    let a2 = Action { trigger, effect: e2, last_used };
    let ghost ga2 = a2;
    registry.add_action(a2);
    proof {
        let k = cmd_key(text@);
        assert(action_key(ga2) == k);
        assert(opt_str_view(prompt_ref) == prompt_of(text@));
        assert(final(registry)@ == old(registry)@.insert(k, ga2));
    }
    eff
}

/// Law: once an admitted run of a command was stored back at `t1`, the
/// registry rejects the same command at any time up to the end of the
/// cooldown window, so a second chat message within the window produces no
/// effect.
pub proof fn lemma_window_blocks_second_run(
    m: Map<Seq<char>, Action>,
    m2: Map<Seq<char>, Action>,
    a2: Action,
    k: Seq<char>,
    t1: u64,
    t2: u64,
)
    requires
        m2 == m.insert(k, a2),
        a2.last_used == t1,
        t2 <= t1 + COOLDOWN_WINDOW_MS,
    ensures
        m2.dom().contains(k),
        !cooldown_admits(m2[k].last_used, t2),
{
}

} // verus!

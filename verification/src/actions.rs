use vstd::prelude::*;

use crate::counter::{counter_text, CounterV, TwitchCounter};
use crate::rng::rand_below_u32;
use crate::template::{is_render, process_reply};

verus! {

// ---------------------------------------------------------------------------
// Triggers and shared string keys.
// ---------------------------------------------------------------------------

/// A shared string, used for trigger names and message templates. Two keys
/// hash and compare equal exactly when their characters do.
#[derive(PartialEq, Eq, Hash)]
pub struct ArcStr(pub String);

impl View for ArcStr {
    type V = Seq<char>;

    open spec fn view(&self) -> Seq<char> {
        self.0@
    }
}

impl Clone for ArcStr {
    fn clone(&self) -> (r: Self)
        ensures
            r == *self,
    {
        ArcStr(self.0.clone())
    }
}

impl ArcStr {
    pub fn new(s: String) -> (r: ArcStr)
        ensures
            r@ == s@,
    {
        ArcStr(s)
    }

    pub fn as_str(&self) -> (r: &str)
        ensures
            r@ == self@,
    {
        self.0.as_str()
    }
}

/// What invokes an action: a chat command name or a redemption reward id.
pub enum Trigger {
    Command(ArcStr),
    Redeem(ArcStr),
}

/// Mathematical content of a trigger.
pub enum TriggerV {
    Command(Seq<char>),
    Redeem(Seq<char>),
}

impl View for Trigger {
    type V = TriggerV;

    open spec fn view(&self) -> TriggerV {
        match self {
            Trigger::Command(s) => TriggerV::Command(s@),
            Trigger::Redeem(s) => TriggerV::Redeem(s@),
        }
    }
}

impl TriggerV {
    /// The registry key of the trigger: its name or reward id.
    pub open spec fn key(self) -> Seq<char> {
        match self {
            TriggerV::Command(s) => s,
            TriggerV::Redeem(s) => s,
        }
    }
}

impl Clone for Trigger {
    fn clone(&self) -> (r: Self)
        ensures
            r == *self,
    {
        match self {
            Trigger::Command(s) => Trigger::Command(s.clone()),
            Trigger::Redeem(s) => Trigger::Redeem(s.clone()),
        }
    }
}

impl Trigger {
    /// The string the trigger carries, whichever variant it is.
    pub fn get_inner(&self) -> (r: &ArcStr)
        ensures
            r@ == self@.key(),
    {
        match self {
            Trigger::Command(s) => s,
            Trigger::Redeem(s) => s,
        }
    }

    pub fn is_redeem(&self) -> (r: bool)
        ensures
            r == (self@ is Redeem),
    {
        match self {
            Trigger::Command(_) => false,
            Trigger::Redeem(_) => true,
        }
    }
}

// ---------------------------------------------------------------------------
// Effects: what an action evaluation asks the outside world to do.
// ---------------------------------------------------------------------------

/// Whom a moderation effect strikes.
#[derive(Clone, Copy, PartialEq, Eq, Structural)]
pub enum ExecTarget {
    Nobody,
    User,
    Other,
}

/// An outward effect an evaluated action asks for.
pub enum Effect {
    SendMsg(String),
    SendReply(String),
    CounterText(String),
    TimeoutUser(String, u32),
    BanUser(String),
}

/// Mathematical content of an effect.
pub enum EffectV {
    SendMsg(Seq<char>),
    SendReply(Seq<char>),
    CounterText(Seq<char>),
    TimeoutUser(Seq<char>, u32),
    BanUser(Seq<char>),
}

impl View for Effect {
    type V = EffectV;

    open spec fn view(&self) -> EffectV {
        match self {
            Effect::SendMsg(s) => EffectV::SendMsg(s@),
            Effect::SendReply(s) => EffectV::SendReply(s@),
            Effect::CounterText(s) => EffectV::CounterText(s@),
            Effect::TimeoutUser(s, d) => EffectV::TimeoutUser(s@, *d),
            Effect::BanUser(s) => EffectV::BanUser(s@),
        }
    }
}

pub open spec fn opt_str_view(p: Option<&str>) -> Option<Seq<char>> {
    match p {
        Some(s) => Some(s@),
        None => None,
    }
}

pub open spec fn opt_string_view(p: Option<String>) -> Option<Seq<char>> {
    match p {
        Some(s) => Some(s@),
        None => None,
    }
}

pub open spec fn opt_effect_view(r: Option<Effect>) -> Option<EffectV> {
    match r {
        Some(e) => Some(e@),
        None => None,
    }
}

// ---------------------------------------------------------------------------
// The effect tree of an action.
// ---------------------------------------------------------------------------

/// Probability scale of a `Chance` effect: a weight of `PROB_ONE` is
/// certainty, a weight of `0` impossibility.
pub const PROB_ONE: u32 = 1000000;

/// The effect tree of an action: messages, counter mutations, moderation, or
/// a probabilistic choice between two subtrees.
pub enum Exec {
    ChatMsg(ArcStr),
    Reply(ArcStr),
    Counter(TwitchCounter),
    Timeout(ExecTarget, u32),
    Ban(ExecTarget),
    Chance(u32, Box<Exec>, Box<Exec>),
}

/// Mathematical content of an effect tree.
pub enum ExecV {
    ChatMsg(Seq<char>),
    Reply(Seq<char>),
    Counter(CounterV),
    Timeout(ExecTarget, u32),
    Ban(ExecTarget),
    Chance(u32, Box<ExecV>, Box<ExecV>),
}

impl View for Exec {
    type V = ExecV;

    open spec fn view(&self) -> ExecV
        decreases self,
    {
        match self {
            Exec::ChatMsg(t) => ExecV::ChatMsg(t@),
            Exec::Reply(t) => ExecV::Reply(t@),
            Exec::Counter(c) => ExecV::Counter(c@),
            Exec::Timeout(t, d) => ExecV::Timeout(*t, *d),
            Exec::Ban(t) => ExecV::Ban(*t),
            Exec::Chance(p, a, b) => ExecV::Chance(
                *p,
                Box::new((**a).view()),
                Box::new((**b).view()),
            ),
        }
    }
}

impl Clone for Exec {
    fn clone(&self) -> (r: Self)
        ensures
            r == *self,
        decreases self,
    {
        match self {
            Exec::ChatMsg(t) => Exec::ChatMsg(t.clone()),
            Exec::Reply(t) => Exec::Reply(t.clone()),
            Exec::Counter(c) => Exec::Counter(c.clone()),
            Exec::Timeout(t, d) => Exec::Timeout(*t, *d),
            Exec::Ban(t) => Exec::Ban(*t),
            Exec::Chance(p, a, b) => Exec::Chance(
                *p,
                Box::new((**a).clone()),
                Box::new((**b).clone()),
            ),
        }
    }
}

/// Whom a moderation effect resolves to: nobody, the invoking user, or the
/// user named by the free-text prompt.
pub open spec fn resolve_target(t: ExecTarget, user: Seq<char>, prompt: Option<Seq<char>>) -> Option<
    Seq<char>,
> {
    match t {
        ExecTarget::Nobody => None,
        ExecTarget::User => Some(user),
        ExecTarget::Other => prompt,
    }
}

fn resolve_target_exec(t: &ExecTarget, user: &str, prompt: Option<&str>) -> (r: Option<String>)
    ensures
        opt_string_view(r) == resolve_target(*t, user@, opt_str_view(prompt)),
{
    match t {
        ExecTarget::Nobody => None,
        ExecTarget::User => Some(user.to_owned()),
        ExecTarget::Other => match prompt {
            None => None,
            Some(p) => Some(p.to_owned()),
        },
    }
}

/// What one evaluation of the effect tree `e` may do: `e2` is the tree after
/// the evaluation (counters may have moved), `r` the effect asked for.
/// Message templates render to some admissible text; a chance node with
/// weight `0` never takes its first branch and one with weight `PROB_ONE` or
/// more always does.
pub open spec fn exec_post(
    e: ExecV,
    e2: ExecV,
    user: Seq<char>,
    prompt: Option<Seq<char>>,
    r: Option<EffectV>,
) -> bool
    decreases e,
{
    match e {
        ExecV::ChatMsg(t) => e2 == e && match r {
            Some(EffectV::SendMsg(s)) => is_render(t, s),
            _ => false,
        },
        ExecV::Reply(t) => e2 == e && match r {
            Some(EffectV::SendReply(s)) => is_render(t, s),
            _ => false,
        },
        ExecV::Counter(c) => {
            if c.counter < u32::MAX {
                let c2 = CounterV { counter: (c.counter + 1) as u32, template: c.template };
                e2 == ExecV::Counter(c2) && r == Some(EffectV::CounterText(counter_text(c2)))
            } else {
                e2 == e && r is None
            }
        },
        ExecV::Timeout(t, d) => e2 == e && match resolve_target(t, user, prompt) {
            Some(u) => r == Some(EffectV::TimeoutUser(u, d)),
            None => r is None,
        },
        ExecV::Ban(t) => e2 == e && match resolve_target(t, user, prompt) {
            Some(u) => r == Some(EffectV::BanUser(u)),
            None => r is None,
        },
        ExecV::Chance(p, a, b) => match e2 {
            ExecV::Chance(p2, a2, b2) => p2 == p && (
                (p > 0 && *b2 == *b && exec_post(*a, *a2, user, prompt, r))
                || (p < PROB_ONE && *a2 == *a && exec_post(*b, *b2, user, prompt, r))
            ),
            _ => false,
        },
    }
}

impl Exec {
    /// Evaluates the effect tree once on behalf of `user`, with the free-text
    /// `prompt`, and returns the tree as it stands afterwards together with
    /// the effect to perform, if any.
    pub fn exec(self, user: &str, prompt: Option<&str>) -> (res: (Exec, Option<Effect>))
        ensures
            exec_post(self@, res.0@, user@, opt_str_view(prompt), opt_effect_view(res.1)),
        decreases self,
    {
        match self {
            Exec::ChatMsg(t) => {
                let s = process_reply(t.as_str());
                (Exec::ChatMsg(t), Some(Effect::SendMsg(s)))
            },
            Exec::Reply(t) => {
                let s = process_reply(t.as_str());
                (Exec::Reply(t), Some(Effect::SendReply(s)))
            },
            Exec::Counter(mut c) => {
                if c.counter < u32::MAX {
                    let txt = c.add(1);
                    (Exec::Counter(c), Some(Effect::CounterText(txt)))
                } else {
                    (Exec::Counter(c), None)
                }
            },
            Exec::Timeout(t, d) => {
                match resolve_target_exec(&t, user, prompt) {
                    Some(u) => (Exec::Timeout(t, d), Some(Effect::TimeoutUser(u, d))),
                    None => (Exec::Timeout(t, d), None),
                }
            },
            Exec::Ban(t) => {
                match resolve_target_exec(&t, user, prompt) {
                    Some(u) => (Exec::Ban(t), Some(Effect::BanUser(u))),
                    None => (Exec::Ban(t), None),
                }
            },
            Exec::Chance(p, a, b) => {
                let draw = rand_below_u32(PROB_ONE);
                if draw < p {
                    let (a2, eff) = (*a).exec(user, prompt);
                    (Exec::Chance(p, Box::new(a2), b), eff)
                } else {
                    let (b2, eff) = (*b).exec(user, prompt);
                    (Exec::Chance(p, a, Box::new(b2)), eff)
                }
            },
        }
    }
}

// ---------------------------------------------------------------------------
// Laws of the chance boundaries: weight zero never takes the first branch,
// full weight always does.
// ---------------------------------------------------------------------------

/// Law: a chance effect with weight zero always evaluates its second branch.
pub proof fn lemma_chance_zero(
    a: ExecV,
    b: ExecV,
    e2: ExecV,
    user: Seq<char>,
    prompt: Option<Seq<char>>,
    r: Option<EffectV>,
)
    requires
        exec_post(ExecV::Chance(0, Box::new(a), Box::new(b)), e2, user, prompt, r),
    ensures
        match e2 {
            ExecV::Chance(p2, a2, b2) => p2 == 0 && *a2 == a && exec_post(b, *b2, user, prompt, r),
            _ => false,
        },
{
}

/// Law: a chance effect with full weight always evaluates its first branch.
pub proof fn lemma_chance_one(
    a: ExecV,
    b: ExecV,
    e2: ExecV,
    user: Seq<char>,
    prompt: Option<Seq<char>>,
    r: Option<EffectV>,
)
    requires
        exec_post(ExecV::Chance(PROB_ONE, Box::new(a), Box::new(b)), e2, user, prompt, r),
    ensures
        match e2 {
            ExecV::Chance(p2, a2, b2) => p2 == PROB_ONE && *b2 == b && exec_post(
                a,
                *a2,
                user,
                prompt,
                r,
            ),
            _ => false,
        },
{
}

// ---------------------------------------------------------------------------
// Actions and the cooldown gate.
// ---------------------------------------------------------------------------

/// Length of the per-action cooldown window, in milliseconds.
pub const COOLDOWN_WINDOW_MS: u64 = 5000;

/// An admission check against the cooldown gate: a use at `now_ms` is
/// admitted exactly when the whole window has passed since the last admitted
/// use (`last_ms == 0` means the action was never admitted).
pub open spec fn cooldown_admits(last_ms: u64, now_ms: u64) -> bool {
    now_ms > last_ms + COOLDOWN_WINDOW_MS
}

/// A trigger bound to an effect tree, together with the timestamp of the last
/// admitted use (in milliseconds; zero means never, and the timestamp is
/// never persisted).
pub struct Action {
    pub trigger: Trigger,
    pub effect: Exec,
    pub last_used: u64,
}

/// Mathematical content of an action.
pub struct ActionV {
    pub trigger: TriggerV,
    pub effect: ExecV,
    pub last_used: u64,
}

impl View for Action {
    type V = ActionV;

    open spec fn view(&self) -> ActionV {
        ActionV { trigger: self.trigger@, effect: self.effect@, last_used: self.last_used }
    }
}

impl Clone for Action {
    fn clone(&self) -> (r: Self)
        ensures
            r == *self,
    {
        Action {
            trigger: self.trigger.clone(),
            effect: self.effect.clone(),
            last_used: self.last_used,
        }
    }
}

impl Action {
    /// A fresh action that was never used.
    pub fn new(trigger: Trigger, exec: Exec) -> (r: Action)
        ensures
            r@.trigger == trigger@,
            r@.effect == exec@,
            r@.last_used == 0,
    {
        Action { trigger, effect: exec, last_used: 0 }
    }

    /// The cooldown gate: admits the use at `now_ms` exactly when the whole
    /// window has passed since the last admitted use, and then records
    /// `now_ms` as the last admitted use. The recorded timestamp never
    /// decreases.
    pub fn allow_use(&mut self, now_ms: u64) -> (r: bool)
        ensures
            r == cooldown_admits(old(self).last_used, now_ms),
            final(self).trigger == old(self).trigger,
            final(self).effect == old(self).effect,
            final(self).last_used == if r {
                now_ms
            } else {
                old(self).last_used
            },
            final(self).last_used >= old(self).last_used,
    {
        let allowed = now_ms > COOLDOWN_WINDOW_MS && now_ms - COOLDOWN_WINDOW_MS > self.last_used;
        if allowed {
            self.last_used = now_ms;
            true
        } else {
            false
        }
    }
}

/// Law: a use of a never-used action is admitted; any use within the
/// cooldown period of an admitted one is rejected; a use after that period
/// is admitted again.
pub proof fn lemma_cooldown_window(t1: u64, t2: u64, t3: u64)
    requires
        t1 > COOLDOWN_WINDOW_MS,
        t1 <= t2 <= t1 + COOLDOWN_WINDOW_MS,
        t3 > t1 + COOLDOWN_WINDOW_MS,
    ensures
        cooldown_admits(0, t1),
        !cooldown_admits(t1, t2),
        cooldown_admits(t1, t3),
{
}

} // verus!

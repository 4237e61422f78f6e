use vstd::prelude::*;

use crate::actions::{
    cooldown_admits, exec_post, opt_effect_view, opt_str_view, Action, Effect, EffectV,
};
use crate::error::{Error, ErrorMsg};
use crate::registry::{action_key, registry_wf, ActionRegistry};

verus! {

// ---------------------------------------------------------------------------
// The redemption path: a notification names a reward id, which must be bound
// to a redemption-tagged trigger; a command-tagged action with the same
// string must not be invokable this way.
// ---------------------------------------------------------------------------

/// The free-text prompt of a redemption: an empty text is no prompt.
pub open spec fn redeem_prompt(p: Seq<char>) -> Option<Seq<char>> {
    if p.len() == 0 {
        None
    } else {
        Some(p)
    }
}

/// What handling a redemption of reward `id` by `user` does to the registry
/// contents and what effect it asks for: nothing unless the id is bound to a
/// redemption-tagged action whose cooldown window has passed; otherwise one
/// evaluation of that action's effect tree, stored back under the same key
/// with the admission recorded.
pub open spec fn redeem_post(
    m: Map<Seq<char>, Action>,
    m2: Map<Seq<char>, Action>,
    user: Seq<char>,
    id: Seq<char>,
    prompt: Seq<char>,
    now_ms: u64,
    r: Option<EffectV>,
) -> bool {
    if !m.dom().contains(id) || !(m[id].trigger@ is Redeem) || !cooldown_admits(
        m[id].last_used,
        now_ms,
    ) {
        r is None && m2 == m
    } else {
        exists|a2: Action|
            {
                &&& m2 == m.insert(id, a2)
                &&& a2.trigger@ == m[id].trigger@
                &&& a2.last_used == now_ms
                &&& exec_post(m[id].effect@, a2.effect@, user, redeem_prompt(prompt), r)
            }
    }
}

/// Handles one redemption event: looks the reward id up, requires the
/// trigger to be redemption-tagged, passes the cooldown gate, evaluates the
/// action's effect tree, and stores the action back under the same key.
pub fn exec_redeem(
    registry: &mut ActionRegistry,
    chatter_name: &str,
    id: &str,
    prompt: &str,
    now_ms: u64,
) -> (r: Option<Effect>)
    requires
        registry_wf(old(registry)@),
    ensures
        registry_wf(final(registry)@),
        redeem_post(
            old(registry)@,
            final(registry)@,
            chatter_name@,
            id@,
            prompt@,
            now_ms,
            opt_effect_view(r),
        ),
{
    let mut action = match registry.get_action(id) {
        Some(a) => a,
        None => {
            return None;
        },
    };
    if !action.trigger.is_redeem() {
        return None;
    }
    if !action.allow_use(now_ms) {
        return None;
    }
    let prompt_ref: Option<&str> = if prompt.unicode_len() == 0 {
        None
    } else {
        Some(prompt)
    };
    let Action { trigger, effect, last_used } = action;
    let (e2, eff) = effect.exec(chatter_name, prompt_ref);
    let a2 = Action { trigger, effect: e2, last_used };
    let ghost ga2 = a2;
    registry.add_action(a2);
    proof {
        assert(action_key(ga2) == id@);
        assert(opt_str_view(prompt_ref) == redeem_prompt(prompt@));
        assert(final(registry)@ == old(registry)@.insert(id@, ga2));
    }
    eff
}

// ---------------------------------------------------------------------------
// The event-stream listener's state machine. The websocket itself and the
// JSON envelopes live outside; what arrives here is one plain message at a
// time.
// ---------------------------------------------------------------------------

/// One message of the event stream, in plain form.
pub enum EventsubMessage {
    Welcome { session_id: String },
    RedemptionNotification { redeemer: String, reward_id: String, prompt: String },
    Keepalive,
    Unknown,
}

/// Connection state of the event listener: the session id of the welcome, if
/// one arrived, and when the last message arrived (for staleness detection).
pub struct WebsocketState {
    pub websocket_id: Option<String>,
    pub websocket_last_event: Option<u64>,
}

impl WebsocketState {
    /// The state before any message arrived.
    pub fn new() -> (r: WebsocketState)
        ensures
            r.websocket_id is None,
            r.websocket_last_event is None,
    {
        WebsocketState { websocket_id: None, websocket_last_event: None }
    }
}

/// What the listener asks the outside to do after one message.
pub enum EventsubAction {
    Subscribe { session_id: String },
    Perform(Effect),
    Nothing,
}

/// Handles one message of the event stream: a welcome records the session id
/// and asks for the redemption subscription under it; a redemption
/// notification runs the redemption path; a keepalive or unknown message only
/// marks the stream alive.
pub fn handle_eventsub_message(
    state: &mut WebsocketState,
    registry: &mut ActionRegistry,
    msg: EventsubMessage,
    now_ms: u64,
) -> (r: EventsubAction)
    requires
        registry_wf(old(registry)@),
    ensures
        registry_wf(final(registry)@),
        final(state).websocket_last_event == Some(now_ms),
        match msg {
            EventsubMessage::Welcome { session_id } => {
                &&& final(state).websocket_id == Some(session_id)
                &&& final(registry)@ == old(registry)@
                &&& r == EventsubAction::Subscribe { session_id }
            },
            EventsubMessage::RedemptionNotification { redeemer, reward_id, prompt } => {
                &&& final(state).websocket_id == old(state).websocket_id
                &&& match r {
                    EventsubAction::Perform(e) => redeem_post(
                        old(registry)@,
                        final(registry)@,
                        redeemer@,
                        reward_id@,
                        prompt@,
                        now_ms,
                        Some(e@),
                    ),
                    EventsubAction::Nothing => redeem_post(
                        old(registry)@,
                        final(registry)@,
                        redeemer@,
                        reward_id@,
                        prompt@,
                        now_ms,
                        None,
                    ),
                    _ => false,
                }
            },
            _ => {
                &&& final(state).websocket_id == old(state).websocket_id
                &&& final(registry)@ == old(registry)@
                &&& r == EventsubAction::Nothing
            },
        },
{
    state.websocket_last_event = Some(now_ms);
    match msg {
        EventsubMessage::Welcome { session_id } => {
            let copy = session_id.clone();
            state.websocket_id = Some(copy);
            EventsubAction::Subscribe { session_id }
        },
        EventsubMessage::RedemptionNotification { redeemer, reward_id, prompt } => {
            match exec_redeem(
                registry,
                redeemer.as_str(),
                reward_id.as_str(),
                prompt.as_str(),
                now_ms,
            ) {
                Some(e) => EventsubAction::Perform(e),
                None => EventsubAction::Nothing,
            }
        },
        EventsubMessage::Keepalive => EventsubAction::Nothing,
        EventsubMessage::Unknown => EventsubAction::Nothing,
    }
}

// ---------------------------------------------------------------------------
// What the redemption subscription request must carry.
// ---------------------------------------------------------------------------

/// A logged-in user: the login name and the user id the platform gave it.
pub struct TokenInfo {
    pub login: String,
    pub user_id: String,
}

/// The broadcaster the client acts for.
pub struct UserInfo {
    pub id: String,
}

/// The client's plain state: its token and broadcaster, when it has them,
/// and the event listener's connection state.
pub struct TwitchClient {
    pub token: Option<TokenInfo>,
    pub user_info: Option<UserInfo>,
    pub websocket: WebsocketState,
}

/// A request to subscribe to redemption events of the broadcaster's channel
/// over the given websocket session.
pub struct SubscribeRequest {
    pub broadcaster_id: String,
    pub session_id: String,
}

impl TwitchClient {
    /// A client that is not logged in and not connected.
    pub fn new() -> (r: TwitchClient)
        ensures
            r.token is None,
            r.user_info is None,
            r.websocket.websocket_id is None,
            r.websocket.websocket_last_event is None,
    {
        TwitchClient { token: None, user_info: None, websocket: WebsocketState::new() }
    }

    /// The login name of the token, if the client holds one.
    pub fn get_username(&self) -> (r: Option<&String>)
        ensures
            match r {
                Some(u) => self.token is Some && u == &self.token->Some_0.login,
                None => self.token is None,
            },
    {
        match &self.token {
            Some(t) => Some(&t.login),
            None => None,
        }
    }

    /// What the redemption subscription must say, or exactly why it cannot be
    /// issued: no token, no broadcaster, or no websocket session, checked in
    /// that order.
    pub fn sub_new_redeems(&self) -> (r: Result<SubscribeRequest, Error>)
        ensures
            match r {
                Ok(req) => {
                    &&& self.token is Some
                    &&& self.user_info is Some
                    &&& self.websocket.websocket_id is Some
                    &&& req.broadcaster_id == self.user_info->Some_0.id
                    &&& req.session_id == self.websocket.websocket_id->Some_0
                },
                Err(e) => {
                    &&& e.msg == if self.token is None {
                        ErrorMsg::TokenGone
                    } else if self.user_info is None {
                        ErrorMsg::UsernameGone
                    } else {
                        ErrorMsg::WebSocketSetup
                    }
                    &&& (self.token is None || self.user_info is None
                        || self.websocket.websocket_id is None)
                },
            },
    {
        if self.token.is_none() {
            return Err(Error::new(ErrorMsg::TokenGone));
        }
        let info = match &self.user_info {
            None => {
                return Err(Error::new(ErrorMsg::UsernameGone));
            },
            Some(i) => i,
        };
        let ws_id = match &self.websocket.websocket_id {
            None => {
                return Err(Error::new(ErrorMsg::WebSocketSetup));
            },
            Some(w) => w,
        };
        Ok(SubscribeRequest { broadcaster_id: info.id.clone(), session_id: ws_id.clone() })
    }

    /// Whom to ask for the channel's reward list, or exactly why the request
    /// cannot be issued: no token, or no broadcaster.
    pub fn update_redeems(&self) -> (r: Result<String, Error>)
        ensures
            match r {
                Ok(broadcaster_id) => {
                    &&& self.token is Some
                    &&& self.user_info is Some
                    &&& broadcaster_id == self.user_info->Some_0.id
                },
                Err(e) => {
                    &&& e.msg == if self.token is None {
                        ErrorMsg::TokenGone
                    } else {
                        ErrorMsg::UsernameGone
                    }
                    &&& (self.token is None || self.user_info is None)
                },
            },
    {
        if self.token.is_none() {
            return Err(Error::new(ErrorMsg::TokenGone));
        }
        match &self.user_info {
            None => Err(Error::new(ErrorMsg::UsernameGone)),
            Some(i) => Ok(i.id.clone()),
        }
    }
}

} // verus!

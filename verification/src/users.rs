use vstd::prelude::*;

use crate::text::{chars_to_string, lower_seq, str_chars, str_eq, to_lower_chars};

verus! {

// ---------------------------------------------------------------------------
// Moderation targets: whom a ban or timeout may strike, and the cache of
// resolved platform user ids, keyed by lowercase login name. The moderation
// API call itself lives outside; what is decided here is whom it may name.
// ---------------------------------------------------------------------------

/// How a moderation request ended.
#[derive(Clone, Copy, Debug, PartialEq, Eq, Structural)]
pub enum BanResult {
    Nope,
    TimedOut,
    Banned,
}

/// How a finished moderation call reads: a failure is no action, a duration a
/// timeout, none a ban.
pub fn ban_result_of(duration: Option<u32>, succeeded: bool) -> (r: BanResult)
    ensures
        r == if !succeeded {
            BanResult::Nope
        } else if duration is Some {
            BanResult::TimedOut
        } else {
            BanResult::Banned
        },
{
    if !succeeded {
        BanResult::Nope
    } else {
        match duration {
            Some(_) => BanResult::TimedOut,
            None => BanResult::Banned,
        }
    }
}

/// The cache key a moderation target is looked up under: self-targeting is
/// refused, anyone else is keyed by lowercase name.
pub open spec fn ban_target_spec(own_login: Seq<char>, username: Seq<char>) -> Option<Seq<char>> {
    if username == own_login {
        None
    } else {
        Some(lower_seq(username))
    }
}

/// Whom a moderation effect against `username` may strike: nobody when the
/// bot targets itself, otherwise the lowercase name to resolve.
pub fn ban_target(own_login: &str, username: &str) -> (r: Option<String>)
    ensures
        match r {
            Some(k) => ban_target_spec(own_login@, username@) == Some(k@),
            None => ban_target_spec(own_login@, username@) == None::<Seq<char>>,
        },
{
    if str_eq(username, own_login) {
        return None;
    }
    let v = str_chars(username);
    let folded = to_lower_chars(&v);
    Some(chars_to_string(&folded))
}

/// First cached id of the name, searching the entries in order.
pub open spec fn cache_lookup(es: Seq<(Seq<char>, Seq<char>)>, name: Seq<char>) -> Option<
    Seq<char>,
>
    decreases es.len(),
{
    if es.len() == 0 {
        None
    } else if es[0].0 == name {
        Some(es[0].1)
    } else {
        cache_lookup(es.skip(1), name)
    }
}

/// The cache of resolved user ids: lowercase login name to platform id.
pub struct UserCache {
    pub entries: Vec<(String, String)>,
}

impl View for UserCache {
    type V = Seq<(Seq<char>, Seq<char>)>;

    open spec fn view(&self) -> Seq<(Seq<char>, Seq<char>)> {
        self.entries@.map_values(|e: (String, String)| (e.0@, e.1@))
    }
}

impl UserCache {
    /// An empty cache.
    pub fn new() -> (r: UserCache)
        ensures
            r@ == Seq::<(Seq<char>, Seq<char>)>::empty(),
    {
        let r = UserCache { entries: Vec::new() };
        proof {
            assert(r@ =~= Seq::<(Seq<char>, Seq<char>)>::empty());
        }
        r
    }

    /// The cached id of the name, if one is stored.
    pub fn get(&self, name: &str) -> (r: Option<String>)
        ensures
            match r {
                Some(id) => cache_lookup(self@, name@) == Some(id@),
                None => cache_lookup(self@, name@) == None::<Seq<char>>,
            },
    {
        let n = self.entries.len();
        let mut i: usize = 0;
        proof {
            assert(self@.skip(0) =~= self@);
        }
        while i < n
            invariant
                0 <= i <= n == self@.len(),
                cache_lookup(self@, name@) == cache_lookup(self@.skip(i as int), name@),
            decreases n - i,
        {
            let hit = str_eq(self.entries[i].0.as_str(), name);
            proof {
                assert(self@.skip(i as int)[0] == self@[i as int]);
                assert(self@.skip(i as int).skip(1) =~= self@.skip(i + 1));
            }
            if hit {
                let id = self.entries[i].1.clone();
                return Some(id);
            }
            i = i + 1;
        }
        proof {
            assert(self@.skip(i as int) =~= Seq::<(Seq<char>, Seq<char>)>::empty());
        }
        None
    }

    /// Remembers the id the platform resolved the name to.
    pub fn insert(&mut self, name: String, id: String)
        ensures
            final(self)@ == old(self)@.push((name@, id@)),
    {
        let ghost pre = self@;
        self.entries.push((name, id));
        proof {
            assert(final(self)@ =~= pre.push((final(self).entries@.last().0@,
            final(self).entries@.last().1@)));
        }
    }
}

} // verus!

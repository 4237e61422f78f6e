use vstd::prelude::*;

use crate::actions::{Action, ArcStr, TriggerV};

verus! {

// ---------------------------------------------------------------------------
// The action registry: a concurrent keyed store of trigger -> action. The
// backing table is a map of the `dashmap` crate, taken on trust through the
// raw methods below. The ghost field `contents` models what the table holds,
// and every raw method states what the call does to it. Two `ArcStr` keys
// are equal exactly when their character sequences are, so the contents are
// keyed by those sequences.
// ---------------------------------------------------------------------------

#[verifier::external_type_specification]
#[verifier::external_body]
#[verifier::reject_recursive_types(K)]
#[verifier::reject_recursive_types(V)]
#[verifier::reject_recursive_types(S)]
pub struct ExDashMap<K, V, S>(dashmap::DashMap<K, V, S>);

/// The trigger key of an action, which keys it in the registry.
pub open spec fn action_key(a: Action) -> Seq<char> {
    a.trigger@.key()
}

/// Every stored action sits under its own trigger key.
pub open spec fn registry_wf(m: Map<Seq<char>, Action>) -> bool {
    forall|k: Seq<char>| m.dom().contains(k) ==> action_key(#[trigger] m[k]) == k
}

/// The keyed store of all configured actions; `contents` is its ghost model,
/// the stored action of each stored key.
pub struct ActionRegistry {
    table: dashmap::DashMap<ArcStr, Action>,
    contents: Ghost<Map<Seq<char>, Action>>,
}

impl View for ActionRegistry {
    type V = Map<Seq<char>, Action>;

    closed spec fn view(&self) -> Map<Seq<char>, Action> {
        self.contents@
    }
}

/// Relies on `dashmap::DashMap::new`; what the fresh table holds is stated
/// at its one caller, `ActionRegistry::new`.
#[verifier::external_body]
fn table_new_raw() -> dashmap::DashMap<ArcStr, Action> {
    dashmap::DashMap::new()
}

impl ActionRegistry {
    /// A fresh, empty registry. Relies on `dashmap::DashMap::new` building an
    /// empty table, which the fresh ghost model mirrors.
    pub fn new() -> (r: ActionRegistry)
        ensures
            r@ == Map::<Seq<char>, Action>::empty(),
    {
        ActionRegistry { table: table_new_raw(), contents: Ghost(Map::empty()) }
    }

    /// Relies on `dashmap::DashMap::insert`: the value is stored under the
    /// key, replacing the value any equal key held before.
    #[verifier::external_body]
    fn insert_raw(&mut self, key: ArcStr, a: Action)
        ensures
            final(self).contents@ == old(self).contents@.insert(key@, a),
    {
        self.table.insert(key, a);
    }

    /// Relies on `dashmap::DashMap::remove`: the entry of an equal key, if
    /// one is stored, leaves the table.
    #[verifier::external_body]
    fn remove_raw(&mut self, key: &ArcStr)
        ensures
            final(self).contents@ == old(self).contents@.remove(key@),
    {
        self.table.remove(key);
    }

    /// Relies on `dashmap::DashMap::get`: the value stored under an equal
    /// key is returned (here as a deep copy), and there is none exactly when
    /// no equal key is stored.
    #[verifier::external_body]
    fn get_raw(&self, key: &ArcStr) -> (r: Option<Action>)
        ensures
            match r {
                Some(a) => self.contents@.dom().contains(key@) && a == self.contents@[key@],
                None => !self.contents@.dom().contains(key@),
            },
    {
        self.table.get(key).map(|e| e.value().clone())
    }

    /// Relies on `dashmap::DashMap::iter`: the walk visits every stored
    /// entry exactly once — so the handed-out keys are pairwise distinct —
    /// and nothing else, in no particular order; each entry is handed out as
    /// a deep copy of its key and its value.
    #[verifier::external_body]
    fn items_raw(&self) -> (r: Vec<(ArcStr, Action)>)
        ensures
            forall|i: int|
                0 <= i < r@.len() ==> self.contents@.dom().contains((#[trigger] r@[i]).0@)
                    && self.contents@[r@[i].0@] == r@[i].1,
            forall|k: Seq<char>|
                #[trigger] self.contents@.dom().contains(k) ==> exists|i: int|
                    0 <= i < r@.len() && (#[trigger] r@[i]).0@ == k,
            forall|i: int, j: int|
                0 <= i < j < r@.len() ==> (#[trigger] r@[i]).0@ != (#[trigger] r@[j]).0@,
    {
        self.table.iter().map(|e| (e.key().clone(), e.value().clone())).collect()
    }

    /// Looks the trigger key up and hands back a copy of its action.
    pub fn get_action(&self, key: &str) -> (r: Option<Action>)
        ensures
            match r {
                Some(a) => self@.dom().contains(key@) && a == self@[key@],
                None => !self@.dom().contains(key@),
            },
    {
        let k = ArcStr::new(key.to_owned());
        self.get_raw(&k)
    }

    /// Stores the action under its trigger key; a later `add` for the same
    /// key replaces the earlier action.
    pub fn add_action(&mut self, action: Action)
        ensures
            final(self)@ == old(self)@.insert(action_key(action), action),
            registry_wf(old(self)@) ==> registry_wf(final(self)@),
    {
        let key = action.trigger.get_inner().clone();
        self.insert_raw(key, action);
    }

    /// Removes the action stored under the key, if any.
    pub fn drop_action(&mut self, key: &str)
        ensures
            final(self)@ == old(self)@.remove(key@),
            registry_wf(old(self)@) ==> registry_wf(final(self)@),
    {
        let k = ArcStr::new(key.to_owned());
        self.remove_raw(&k);
    }

    /// A snapshot of the registry: every stored action exactly once, sorted
    /// by trigger (commands before redemptions, then by name) for a
    /// deterministic listing.
    pub fn get_all_actions(&self) -> (r: Vec<Action>)
        requires
            registry_wf(self@),
        ensures
            actions_sorted(r@),
            forall|i: int|
                0 <= i < r@.len() ==> self@.dom().contains(action_key(#[trigger] r@[i]))
                    && self@[action_key(r@[i])] == r@[i],
            forall|k: Seq<char>|
                #[trigger] self@.dom().contains(k) ==> exists|i: int|
                    0 <= i < r@.len() && r@[i] == self@[k],
            forall|i: int, j: int|
                0 <= i < j < r@.len() ==> action_key(#[trigger] r@[i]) != action_key(
                    #[trigger] r@[j],
                ),
    {
        broadcast use vstd::seq_lib::group_to_multiset_ensures;

        let entries = self.items_raw();
        let n = entries.len();
        let mut items: Vec<Action> = Vec::new();
        let mut idx: usize = 0;
        while idx < n
            invariant
                0 <= idx <= n == entries@.len(),
                items@.len() == idx,
                forall|i: int| 0 <= i < idx ==> #[trigger] items@[i] == entries@[i].1,
            decreases n - idx,
        {
            items.push(entries[idx].1.clone());
            idx = idx + 1;
        }
        proof {
            assert forall|i: int, j: int| 0 <= i < items@.len() && 0 <= j < items@.len() && i != j
                implies items@[i] != items@[j] by {
                assert(items@[i] == entries@[i].1);
                assert(items@[j] == entries@[j].1);
                if items@[i] == items@[j] {
                    assert(action_key(entries@[i].1) == entries@[i].0@);
                    assert(action_key(entries@[j].1) == entries@[j].0@);
                }
            }
            assert(items@.no_duplicates());
            items@.lemma_multiset_has_no_duplicates();
        }
        let r = sort_actions(items);
        proof {
            assert forall|x: Action| r@.to_multiset().contains(x) implies r@.to_multiset().count(x)
                == 1 by {
                assert(items@.to_multiset().count(x) == r@.to_multiset().count(x));
            }
            r@.lemma_multiset_has_no_duplicates_conv();
            assert forall|i: int| 0 <= i < r@.len() implies self@.dom().contains(
                action_key(#[trigger] r@[i]),
            ) && self@[action_key(r@[i])] == r@[i] by {
                assert(r@.to_multiset().contains(r@[i]));
                assert(items@.contains(r@[i]));
                let j = choose|j: int| 0 <= j < items@.len() && items@[j] == r@[i];
                assert(items@[j] == entries@[j].1);
            }
            assert forall|k: Seq<char>| #[trigger] self@.dom().contains(k) implies exists|i: int|
                0 <= i < r@.len() && r@[i] == self@[k] by {
                let j = choose|j: int| 0 <= j < entries@.len() && (#[trigger] entries@[j].0@) == k;
                assert(items@[j] == self@[k]);
                assert(items@.contains(self@[k]));
                assert(r@.to_multiset().contains(self@[k]));
                assert(r@.contains(self@[k]));
            }
            assert forall|i: int, j: int| 0 <= i < j < r@.len() implies action_key(
                #[trigger] r@[i],
            ) != action_key(#[trigger] r@[j]) by {
                if action_key(r@[i]) == action_key(r@[j]) {
                    assert(r@[i] == self@[action_key(r@[i])]);
                    assert(r@[j] == self@[action_key(r@[j])]);
                    assert(r@.no_duplicates());
                }
            }
        }
        r
    }
}

/// Law: storing two actions under the same trigger key leaves exactly the
/// second one retrievable, as if the first had never been stored.
pub proof fn lemma_registry_uniqueness(m: Map<Seq<char>, Action>, a1: Action, a2: Action)
    requires
        action_key(a1) == action_key(a2),
    ensures
        m.insert(action_key(a1), a1).insert(action_key(a2), a2) == m.insert(action_key(a2), a2),
        m.insert(action_key(a1), a1).insert(action_key(a2), a2)[action_key(a2)] == a2,
{
    assert(m.insert(action_key(a1), a1).insert(action_key(a2), a2) =~= m.insert(
        action_key(a2),
        a2,
    ));
}

// ---------------------------------------------------------------------------
// Ordering of triggers, for the deterministic listing: by variant (commands
// first), then by name.
// ---------------------------------------------------------------------------

/// Lexicographic order on character sequences.
pub open spec fn seq_le(a: Seq<char>, b: Seq<char>) -> bool
    decreases a.len(),
{
    if a.len() == 0 {
        true
    } else if b.len() == 0 {
        false
    } else if a[0] != b[0] {
        a[0] < b[0]
    } else {
        seq_le(a.skip(1), b.skip(1))
    }
}

pub proof fn lemma_seq_le_total(a: Seq<char>, b: Seq<char>)
    ensures
        seq_le(a, b) || seq_le(b, a),
    decreases a.len(),
{
    if a.len() > 0 && b.len() > 0 && a[0] == b[0] {
        lemma_seq_le_total(a.skip(1), b.skip(1));
    }
}

/// Lexicographic order is transitive.
pub proof fn lemma_seq_le_trans(a: Seq<char>, b: Seq<char>, c: Seq<char>)
    requires
        seq_le(a, b),
        seq_le(b, c),
    ensures
        seq_le(a, c),
    decreases a.len(),
{
    if a.len() > 0 && b.len() > 0 && c.len() > 0 && a[0] == b[0] && b[0] == c[0] {
        lemma_seq_le_trans(a.skip(1), b.skip(1), c.skip(1));
    }
}

/// Commands come before redemptions in the listing.
pub open spec fn trigger_rank(t: TriggerV) -> int {
    match t {
        TriggerV::Command(_) => 0,
        TriggerV::Redeem(_) => 1,
    }
}

/// The listing order on triggers: by variant, then by name.
pub open spec fn trigger_le(a: TriggerV, b: TriggerV) -> bool {
    trigger_rank(a) < trigger_rank(b) || (trigger_rank(a) == trigger_rank(b) && seq_le(
        a.key(),
        b.key(),
    ))
}

pub proof fn lemma_trigger_le_total(a: TriggerV, b: TriggerV)
    ensures
        trigger_le(a, b) || trigger_le(b, a),
{
    lemma_seq_le_total(a.key(), b.key());
}

pub proof fn lemma_trigger_le_trans(a: TriggerV, b: TriggerV, c: TriggerV)
    requires
        trigger_le(a, b),
        trigger_le(b, c),
    ensures
        trigger_le(a, c),
{
    if trigger_rank(a) == trigger_rank(b) && trigger_rank(b) == trigger_rank(c) {
        lemma_seq_le_trans(a.key(), b.key(), c.key());
    }
}

/// Whether `x` comes before `y` (or ties with it) in lexicographic order.
pub fn str_le(x: &str, y: &str) -> (r: bool)
    ensures
        r == seq_le(x@, y@),
{
    let xn = x.unicode_len();
    let yn = y.unicode_len();
    let mut i: usize = 0;
    proof {
        assert(x@.skip(0) =~= x@);
        assert(y@.skip(0) =~= y@);
    }
    loop
        invariant
            0 <= i <= xn == x@.len(),
            i <= yn == y@.len(),
            seq_le(x@, y@) == seq_le(x@.skip(i as int), y@.skip(i as int)),
            seq_le(y@, x@) == seq_le(y@.skip(i as int), x@.skip(i as int)),
        decreases xn - i,
    {
        if i == xn {
            assert(x@.skip(i as int).len() == 0);
            return true;
        }
        if i == yn {
            assert(y@.skip(i as int).len() == 0);
            assert(x@.skip(i as int).len() > 0);
            return false;
        }
        let cx = x.get_char(i);
        let cy = y.get_char(i);
        assert(x@.skip(i as int)[0] == cx);
        assert(y@.skip(i as int)[0] == cy);
        if cx != cy {
            return cx < cy;
        }
        proof {
            assert(x@.skip(i as int).skip(1) =~= x@.skip(i + 1));
            assert(y@.skip(i as int).skip(1) =~= y@.skip(i + 1));
        }
        i = i + 1;
    }
}

/// Whether `x` comes no later than `y` in the listing order.
fn action_le(x: &Action, y: &Action) -> (r: bool)
    ensures
        r == trigger_le(x.trigger@, y.trigger@),
{
    let xr = x.trigger.is_redeem();
    let yr = y.trigger.is_redeem();
    proof {
        assert(trigger_rank(x.trigger@) == if xr {
            1int
        } else {
            0int
        });
        assert(trigger_rank(y.trigger@) == if yr {
            1int
        } else {
            0int
        });
    }
    if xr != yr {
        !xr
    } else {
        str_le(x.trigger.get_inner().as_str(), y.trigger.get_inner().as_str())
    }
}

/// The listing is ordered by trigger: variant first, then name.
pub open spec fn actions_sorted(s: Seq<Action>) -> bool {
    forall|i: int, j: int|
        0 <= i < j < s.len() ==> trigger_le(
            (#[trigger] s[i]).trigger@,
            (#[trigger] s[j]).trigger@,
        )
}

/// Sorts actions by their trigger; the result holds exactly the given
/// actions.
fn sort_actions(v: Vec<Action>) -> (r: Vec<Action>)
    ensures
        r@.to_multiset() == v@.to_multiset(),
        actions_sorted(r@),
{
    broadcast use vstd::seq_lib::group_to_multiset_ensures;

    let mut src = v;
    let mut out: Vec<Action> = Vec::new();
    proof {
        broadcast use vstd::multiset::group_multiset_axioms;

        assert(out@.to_multiset().add(src@.to_multiset()) =~= src@.to_multiset());
    }
    let ghost whole = src@.to_multiset();
    while src.len() > 0
        invariant
            out@.to_multiset().add(src@.to_multiset()) == whole,
            actions_sorted(out@),
            forall|i: int, j: int|
                0 <= i < out@.len() && 0 <= j < src@.len() ==> trigger_le(
                    (#[trigger] out@[i]).trigger@,
                    (#[trigger] src@[j]).trigger@,
                ),
        decreases src@.len(),
    {
        let mut min: usize = 0;
        let mut k: usize = 1;
        proof {
            lemma_trigger_le_total(src@[0].trigger@, src@[0].trigger@);
        }
        while k < src.len()
            invariant
                0 <= min < k <= src@.len(),
                forall|j: int|
                    0 <= j < k ==> trigger_le(
                        src@[min as int].trigger@,
                        (#[trigger] src@[j]).trigger@,
                    ),
            decreases src@.len() - k,
        {
            let better = action_le(&src[k], &src[min]);
            proof {
                lemma_trigger_le_total(src@[k as int].trigger@, src@[min as int].trigger@);
            }
            if better {
                proof {
                    assert forall|j: int| 0 <= j < k + 1 implies trigger_le(
                        src@[k as int].trigger@,
                        (#[trigger] src@[j]).trigger@,
                    ) by {
                        if j < k {
                            lemma_trigger_le_trans(
                                src@[k as int].trigger@,
                                src@[min as int].trigger@,
                                src@[j].trigger@,
                            );
                        } else {
                            lemma_trigger_le_total(
                                src@[k as int].trigger@,
                                src@[k as int].trigger@,
                            );
                        }
                    }
                }
                min = k;
            }
            k = k + 1;
        }
        let ghost old_out = out@;
        let ghost old_src = src@;
        let a = src.remove(min);
        out.push(a);
        proof {
            broadcast use vstd::multiset::group_multiset_axioms;

            old_out.to_multiset_ensures();
            old_src.to_multiset_ensures();
            assert(a == old_src[min as int]);
            assert(out@ == old_out.push(a));
            assert(src@ == old_src.remove(min as int));
            assert(old_src.contains(old_src[min as int]));
            assert(old_src.to_multiset().count(a) > 0);
            assert(old_out.push(a).to_multiset() =~= old_out.to_multiset().insert(a));
            assert(old_src.remove(min as int).to_multiset() =~= old_src.to_multiset().remove(a));
            assert(out@.to_multiset().add(src@.to_multiset()) =~= whole);
            assert forall|i: int, j: int|
                0 <= i < out@.len() && 0 <= j < src@.len() implies trigger_le(
                (#[trigger] out@[i]).trigger@,
                (#[trigger] src@[j]).trigger@,
            ) by {
                assert(src@[j] == if j < min {
                    old_src[j]
                } else {
                    old_src[j + 1]
                });
                if i < old_out.len() {
                    assert(out@[i] == old_out[i]);
                } else {
                    assert(out@[i] == a);
                }
            }
            assert forall|i: int, j: int| 0 <= i < j < out@.len() implies trigger_le(
                (#[trigger] out@[i]).trigger@,
                (#[trigger] out@[j]).trigger@,
            ) by {
                if j == out@.len() - 1 {
                    assert(out@[i] == old_out[i]);
                    assert(out@[j] == a);
                    assert(a == old_src[min as int]);
                }
            }
        }
    }
    proof {
        broadcast use vstd::multiset::group_multiset_axioms;

        assert(src@.to_multiset() =~= Seq::<Action>::empty().to_multiset());
        assert(out@.to_multiset().add(src@.to_multiset()) =~= out@.to_multiset());
    }
    out
}

} // verus!

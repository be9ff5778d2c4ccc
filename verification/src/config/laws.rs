//! What holds of the profile store across its operations.

use vstd::prelude::*;

use crate::config::store::ConfigView;
use crate::config::ProfileView;

verus! {

/// With unique keys, the position of a key is the one `index_of` names.
pub proof fn lemma_unique_index(store: ConfigView, key: Seq<char>, i: int)
    requires
        store.keys_unique(),
        0 <= i < store.profiles.len(),
        store.profiles[i].0 == key,
    ensures
        store.has(key),
        store.index_of(key) == i,
        store.get(key) == Some(store.profiles[i].1),
{
    let k = store.index_of(key);
    assert(store.profiles[k].0 == key);
    if k < i {
        assert(store.profiles[k].0 != store.profiles[i].0);
    } else if i < k {
        assert(store.profiles[i].0 != store.profiles[k].0);
    }
}

/// Activating a stored profile leaves exactly one profile active: the one
/// under the given key. Keys, order and every other field stay as they were.
pub proof fn lemma_activate_gives_exactly_one(store: ConfigView, key: Seq<char>)
    requires
        store.keys_unique(),
        store.has(key),
    ensures
        store.activated(key).keys_unique(),
        store.activated(key).only_active_is(key),
        store.activated(key).has_active(),
        store.activated(key).at_most_one_active(),
        store.activated(key).get(key) == Some(store.get(key)->0.with_active(true)),
{
    let after = store.activated(key);
    let k = store.index_of(key);
    assert(store.profiles[k].0 == key);
    assert(after.profiles[k].0 == key);
    assert(after.active_at(k));
    assert forall|i: int, j: int| 0 <= i < j < after.profiles.len() implies (
    #[trigger] after.profiles[i]).0 != (#[trigger] after.profiles[j]).0 by {
        assert(store.profiles[i].0 != store.profiles[j].0);
    }
    assert forall|i: int, j: int| after.active_at(i) && after.active_at(j) implies i == j by {
        if i < j {
            assert(store.profiles[i].0 != store.profiles[j].0);
        } else if j < i {
            assert(store.profiles[j].0 != store.profiles[i].0);
        }
    }
    lemma_unique_index(after, key, k);
    lemma_unique_index(store, key, k);
}

/// Activating one profile and then another leaves the second as the only
/// active one, exactly as if the first had never been activated.
pub proof fn lemma_last_activation_wins(store: ConfigView, a: Seq<char>, b: Seq<char>)
    requires
        store.keys_unique(),
        store.has(a),
        store.has(b),
    ensures
        store.activated(a).activated(b) == store.activated(b),
        store.activated(a).activated(b).only_active_is(b),
        store.activated(a).activated(b).at_most_one_active(),
        store.activated(a).activated(b).has_active(),
{
    assert(store.activated(a).activated(b).profiles =~= store.activated(b).profiles);
    lemma_activate_gives_exactly_one(store, b);
}

/// Making every profile inactive keeps keys and order, and leaves no profile
/// active.
pub proof fn lemma_quieted(store: ConfigView)
    ensures
        store.quieted().profiles.len() == store.profiles.len(),
        forall|i: int|
            0 <= i < store.profiles.len() ==> (#[trigger] store.quieted().profiles[i]).0
                == store.profiles[i].0 && !store.quieted().profiles[i].1.is_active,
        store.keys_unique() ==> store.quieted().keys_unique(),
        !store.quieted().has_active(),
        store.quieted().at_most_one_active(),
        forall|key: Seq<char>| #[trigger] store.quieted().has(key) == store.has(key),
{
    let quiet = store.quieted();
    if store.keys_unique() {
        assert forall|i: int, j: int| 0 <= i < j < quiet.profiles.len() implies (
        #[trigger] quiet.profiles[i]).0 != (#[trigger] quiet.profiles[j]).0 by {
            assert(store.profiles[i].0 != store.profiles[j].0);
        }
    }
    assert forall|key: Seq<char>| #[trigger] quiet.has(key) == store.has(key) by {
        if store.has(key) {
            let i = store.index_of(key);
            assert(quiet.profiles[i].0 == key);
        }
        if quiet.has(key) {
            let i = quiet.index_of(key);
            assert(store.profiles[i].0 == key);
        }
    }
}

/// A profile stored under a new key is found again under that key, with every
/// field as it was given.
pub proof fn lemma_create_then_get(store: ConfigView, profile: ProfileView)
    requires
        store.keys_unique(),
        !store.has(profile.id),
    ensures
        store.created(profile).keys_unique(),
        store.created(profile).get(profile.id) == Some(profile),
{
    let room = store.making_room(profile.is_active);
    lemma_quieted(store);
    let after = store.created(profile);
    let n = store.profiles.len() as int;
    assert(room.keys_unique());
    assert(!room.has(profile.id));
    assert forall|i: int, j: int| 0 <= i < j < after.profiles.len() implies (
    #[trigger] after.profiles[i]).0 != (#[trigger] after.profiles[j]).0 by {
        if j < n {
            assert(room.profiles[i].0 != room.profiles[j].0);
        } else {
            assert(after.profiles[i] == room.profiles[i]);
            if room.profiles[i].0 == profile.id {
                assert(room.has(profile.id));
            }
        }
    }
    assert(after.profiles[n].0 == profile.id);
    lemma_unique_index(after, profile.id, n);
}

/// Storing a profile keeps at most one profile active: an active one is the
/// only active profile afterwards, an inactive one changes no activation.
pub proof fn lemma_create_keeps_single_active(store: ConfigView, profile: ProfileView)
    requires
        store.at_most_one_active(),
    ensures
        store.created(profile).at_most_one_active(),
        profile.is_active ==> forall|i: int|
            store.created(profile).active_at(i) ==> i == store.profiles.len(),
{
    let room = store.making_room(profile.is_active);
    lemma_quieted(store);
    let after = store.created(profile);
    assert forall|i: int| after.active_at(i) && i < store.profiles.len() implies room.active_at(
        i,
    ) by {
        assert(after.profiles[i] == room.profiles[i]);
    }
    assert forall|i: int, j: int| after.active_at(i) && after.active_at(j) implies i == j by {
        if i < store.profiles.len() {
            assert(room.active_at(i));
            assert(!profile.is_active);
        }
        if j < store.profiles.len() {
            assert(room.active_at(j));
            assert(!profile.is_active);
        }
        if i < store.profiles.len() && j < store.profiles.len() {
            assert(store.active_at(i) && store.active_at(j));
        }
    }
}

/// Replacing the profile under a key keeps the store well formed: the keys
/// stay as they are, and at most one profile is active; an active new
/// profile is the only active one afterwards.
pub proof fn lemma_update_keeps_well_formed(store: ConfigView, at: int, profile: ProfileView)
    requires
        store.well_formed(),
        0 <= at < store.profiles.len(),
    ensures
        store.replaced(at, store.profiles[at].0, profile).well_formed(),
        store.replaced(at, store.profiles[at].0, profile).get(store.profiles[at].0) == Some(
            profile,
        ),
        profile.is_active ==> forall|i: int|
            store.replaced(at, store.profiles[at].0, profile).active_at(i) ==> i == at,
{
    let key = store.profiles[at].0;
    let room = store.making_room(profile.is_active);
    lemma_quieted(store);
    let after = store.replaced(at, key, profile);
    assert forall|i: int, j: int| 0 <= i < j < after.profiles.len() implies (
    #[trigger] after.profiles[i]).0 != (#[trigger] after.profiles[j]).0 by {
        assert(store.profiles[i].0 != store.profiles[j].0);
        assert(room.profiles[i].0 == store.profiles[i].0);
        assert(room.profiles[j].0 == store.profiles[j].0);
    }
    assert forall|i: int| after.active_at(i) && i != at implies room.active_at(i) by {
        assert(after.profiles[i] == room.profiles[i]);
    }
    assert forall|i: int, j: int| after.active_at(i) && after.active_at(j) implies i == j by {
        if i != at {
            assert(room.active_at(i));
            assert(!profile.is_active);
            assert(store.active_at(i));
        }
        if j != at {
            assert(room.active_at(j));
            assert(!profile.is_active);
            assert(store.active_at(j));
        }
    }
    lemma_unique_index(after, key, at);
}

/// Replacing a profile by one with the same activation changes no other
/// profile.
pub proof fn lemma_update_with_same_activation(store: ConfigView, at: int, profile: ProfileView)
    requires
        store.well_formed(),
        0 <= at < store.profiles.len(),
        profile.is_active == store.profiles[at].1.is_active,
    ensures
        store.replaced(at, store.profiles[at].0, profile).profiles == store.profiles.update(
            at,
            (store.profiles[at].0, profile),
        ),
{
    let key = store.profiles[at].0;
    let after = store.replaced(at, key, profile).profiles;
    let plain = store.profiles.update(at, (key, profile));
    assert forall|i: int| 0 <= i < after.len() implies after[i] == plain[i] by {
        if i != at && profile.is_active {
            assert(store.active_at(at));
            if store.profiles[i].1.is_active {
                assert(store.active_at(i));
            }
            assert(store.profiles[i].1.with_active(false) == store.profiles[i].1);
        }
    }
    assert(after =~= plain);
}

/// Removing a profile keeps at most one profile active.
pub proof fn lemma_delete_keeps_single_active(store: ConfigView, at: int)
    requires
        store.at_most_one_active(),
        0 <= at < store.profiles.len(),
    ensures
        store.removed(at).at_most_one_active(),
{
    let after = store.removed(at);
    assert forall|i: int, j: int| after.active_at(i) && after.active_at(j) implies i == j by {
        let oi = if i < at {
            i
        } else {
            i + 1
        };
        let oj = if j < at {
            j
        } else {
            j + 1
        };
        assert(after.profiles[i] == store.profiles[oi]);
        assert(after.profiles[j] == store.profiles[oj]);
        assert(store.active_at(oi) && store.active_at(oj));
    }
}

} // verus!

//! The profile store: the named profiles, the one active selection, and the
//! proxy's own access key.

use vstd::prelude::*;
use vstd::string::*;

use crate::config::{opt_view, Profile, ProfileView};
use crate::ident::random_byte;
use crate::text::{hex, lemma_hex_chars, lemma_hex_len, is_lower_hex, push_hex, str_eq};

verus! {

/// The mathematical content of a [`ConfigManager`]: the profiles under their
/// keys, in the order in which the keys were first stored.
pub struct ConfigView {
    pub profiles: Seq<(Seq<char>, ProfileView)>,
    pub proxy_api_key: Option<Seq<char>>,
    pub enable_auth: bool,
}

impl ConfigView {
    /// True when a profile is stored under `key`.
    pub open spec fn has(self, key: Seq<char>) -> bool {
        exists|i: int| 0 <= i < self.profiles.len() && (#[trigger] self.profiles[i]).0 == key
    }

    /// A position at which `key` is stored, when there is one.
    pub open spec fn index_of(self, key: Seq<char>) -> int {
        choose|i: int| 0 <= i < self.profiles.len() && (#[trigger] self.profiles[i]).0 == key
    }

    /// The profile stored under `key`.
    pub open spec fn get(self, key: Seq<char>) -> Option<ProfileView> {
        if self.has(key) {
            Some(self.profiles[self.index_of(key)].1)
        } else {
            None
        }
    }

    /// No key is stored twice.
    pub open spec fn keys_unique(self) -> bool {
        forall|i: int, j: int|
            0 <= i < j < self.profiles.len() ==> (#[trigger] self.profiles[i]).0 != (
            #[trigger] self.profiles[j]).0
    }

    /// True when the profile at position `i` is active.
    pub open spec fn active_at(self, i: int) -> bool {
        0 <= i < self.profiles.len() && self.profiles[i].1.is_active
    }

    /// True when some profile is active.
    pub open spec fn has_active(self) -> bool {
        exists|i: int| self.active_at(i)
    }

    /// At most one profile is active.
    pub open spec fn at_most_one_active(self) -> bool {
        forall|i: int, j: int| self.active_at(i) && self.active_at(j) ==> i == j
    }

    /// Exactly the profile under `key` is active.
    pub open spec fn only_active_is(self, key: Seq<char>) -> bool {
        forall|i: int|
            0 <= i < self.profiles.len() ==> ((#[trigger] self.profiles[i]).1.is_active <==> self.profiles[i].0
                == key)
    }

    /// The store with every profile inactive.
    pub open spec fn quieted(self) -> ConfigView {
        ConfigView {
            profiles: Seq::new(
                self.profiles.len(),
                |i: int| (self.profiles[i].0, self.profiles[i].1.with_active(false)),
            ),
            ..self
        }
    }

    /// The store as it takes a profile in: an active profile is to be the
    /// only active one, so all others are made inactive for it; an inactive
    /// one changes nothing.
    pub open spec fn making_room(self, active: bool) -> ConfigView {
        if active {
            self.quieted()
        } else {
            self
        }
    }

    /// The store after `profile` is stored under its own identifier. If it
    /// is active, it is the only active profile afterwards.
    pub open spec fn created(self, profile: ProfileView) -> ConfigView {
        ConfigView {
            profiles: self.making_room(profile.is_active).profiles.push((profile.id, profile)),
            ..self
        }
    }

    /// The store after `profile` is stored under its own identifier, in place
    /// of the one that is stored there, if any.
    pub open spec fn put(self, profile: ProfileView) -> ConfigView {
        if self.has(profile.id) {
            self.replaced(self.index_of(profile.id), profile.id, profile)
        } else {
            self.created(profile)
        }
    }

    /// The store after the entry at position `at` is replaced. If the new
    /// profile is active, it is the only active profile afterwards.
    pub open spec fn replaced(self, at: int, key: Seq<char>, profile: ProfileView) -> ConfigView {
        ConfigView {
            profiles: self.making_room(profile.is_active).profiles.update(at, (key, profile)),
            ..self
        }
    }

    /// What holds of every store: no key is stored twice, and at most one
    /// profile is active.
    pub open spec fn well_formed(self) -> bool {
        self.keys_unique() && self.at_most_one_active()
    }

    /// The store after the entry at position `at` is removed.
    pub open spec fn removed(self, at: int) -> ConfigView {
        ConfigView { profiles: self.profiles.remove(at), ..self }
    }

    /// The store after every profile's activation flag is set to whether its
    /// key is `key`.
    pub open spec fn activated(self, key: Seq<char>) -> ConfigView {
        ConfigView {
            profiles: Seq::new(
                self.profiles.len(),
                |i: int| (self.profiles[i].0, self.profiles[i].1.with_active(self.profiles[i].0 == key)),
            ),
            ..self
        }
    }
}

/// True for a well-formed proxy access key: `sk-` followed by the lower-case
/// hexadecimal form of sixteen bytes.
pub open spec fn is_api_key(key: Seq<char>) -> bool {
    exists|bytes: Seq<u8>| bytes.len() == 16 && key == #[trigger] api_key_of(bytes)
}

/// The access key written from the given random bytes.
pub open spec fn api_key_of(bytes: Seq<u8>) -> Seq<char> {
    "sk-"@ + hex(bytes)
}

/// A well-formed access key is 35 characters long: `sk-`, then 32 lower-case
/// hexadecimal digits.
pub proof fn lemma_api_key_shape(key: Seq<char>)
    requires
        is_api_key(key),
    ensures
        key.len() == 35,
        key[0] == 's',
        key[1] == 'k',
        key[2] == '-',
        forall|i: int| 3 <= i < 35 ==> is_lower_hex(#[trigger] key[i]),
{
    reveal_strlit("sk-");
    let bytes = choose|bytes: Seq<u8>| bytes.len() == 16 && key == #[trigger] api_key_of(bytes);
    lemma_hex_len(bytes);
    lemma_hex_chars(bytes);
    assert forall|i: int| 3 <= i < 35 implies is_lower_hex(#[trigger] key[i]) by {
        assert(key[i] == hex(bytes)[i - 3]);
    }
}

/// Writes the access key for the given bytes.
pub fn api_key_from_bytes(bytes: &[u8]) -> (r: String)
    ensures
        r@ == api_key_of(bytes@),
{
    let mut out = String::from_str("sk-");
    push_hex(&mut out, bytes);
    out
}

/// The profile store.
#[derive(Debug)]
pub struct ConfigManager {
    profiles: Vec<(String, Profile)>,
    /// The key that clients must present when authorisation is on.
    pub proxy_api_key: Option<String>,
    /// Whether clients must present the key.
    pub enable_auth: bool,
}

impl View for ConfigManager {
    type V = ConfigView;

    closed spec fn view(&self) -> ConfigView {
        ConfigView {
            profiles: Seq::new(
                self.profiles@.len(),
                |i: int| (self.profiles@[i].0@, self.profiles@[i].1@),
            ),
            proxy_api_key: opt_view(self.proxy_api_key),
            enable_auth: self.enable_auth,
        }
    }
}

impl ConfigManager {
    /// The store's invariant: no key is stored twice, and at most one
    /// profile is active.
    pub open spec fn wf(&self) -> bool {
        self@.well_formed()
    }

    /// An empty store without a key, authorisation off.
    pub fn new() -> (r: Self)
        ensures
            r.wf(),
            r@.profiles.len() == 0,
            r@.proxy_api_key is None,
            !r@.enable_auth,
    {
        ConfigManager { profiles: Vec::new(), proxy_api_key: None, enable_auth: false }
    }

    /// A fresh access key from sixteen random bytes.
    pub fn generate_api_key() -> (r: String)
        ensures
            is_api_key(r@),
    {
        let mut bytes: Vec<u8> = Vec::new();
        let mut i: usize = 0;
        while i < 16
            invariant
                i <= 16,
                bytes@.len() == i,
            decreases 16 - i,
        {
            bytes.push(random_byte());
            i += 1;
        }
        let key = api_key_from_bytes(bytes.as_slice());
        proof {
            assert(key@ == api_key_of(bytes@));
        }
        key
    }

    /// Replaces the access key by a fresh one and returns it.
    pub fn refresh_api_key(&mut self) -> (r: String)
        ensures
            is_api_key(r@),
            final(self)@.proxy_api_key == Some(r@),
            final(self)@.profiles == old(self)@.profiles,
            final(self)@.enable_auth == old(self)@.enable_auth,
    {
        let new_key = Self::generate_api_key();
        self.proxy_api_key = Some(new_key.clone());
        proof {
            assert(final(self)@.profiles =~= old(self)@.profiles);
        }
        new_key
    }

    /// The current access key.
    pub fn get_api_key(&self) -> (r: Option<&String>)
        ensures
            match r {
                Some(k) => self@.proxy_api_key == Some(k@),
                None => self@.proxy_api_key is None,
            },
    {
        self.proxy_api_key.as_ref()
    }

    /// Turns authorisation on or off.
    pub fn set_auth_enabled(&mut self, enabled: bool)
        ensures
            final(self)@.enable_auth == enabled,
            final(self)@.profiles == old(self)@.profiles,
            final(self)@.proxy_api_key == old(self)@.proxy_api_key,
    {
        self.enable_auth = enabled;
        proof {
            assert(final(self)@.profiles =~= old(self)@.profiles);
        }
    }

    /// Whether clients must present the key.
    pub fn is_auth_enabled(&self) -> (r: bool)
        ensures
            r == self@.enable_auth,
    {
        self.enable_auth
    }

    /// Whether `key` admits a client: always when authorisation is off,
    /// otherwise only the stored key.
    pub fn verify_api_key(&self, key: &str) -> (r: bool)
        ensures
            r == (!self@.enable_auth || self@.proxy_api_key == Some(key@)),
    {
        if !self.enable_auth {
            return true;
        }
        match &self.proxy_api_key {
            Some(stored_key) => str_eq(stored_key.as_str(), key),
            None => false,
        }
    }

    /// The position of `key`, if it is stored.
    fn position(&self, key: &str) -> (r: Option<usize>)
        ensures
            match r {
                Some(i) => i < self@.profiles.len() && self@.profiles[i as int].0 == key@
                    && i < self.profiles@.len(),
                None => !self@.has(key@),
            },
    {
        let mut i: usize = 0;
        while i < self.profiles.len()
            invariant
                i <= self.profiles@.len(),
                self@.profiles.len() == self.profiles@.len(),
                forall|j: int| 0 <= j < i ==> (#[trigger] self@.profiles[j]).0 != key@,
            decreases self.profiles.len() - i,
        {
            if str_eq(self.profiles[i].0.as_str(), key) {
                return Some(i);
            }
            i += 1;
        }
        None
    }

    /// Makes every profile inactive.
    fn quiet(&mut self)
        ensures
            final(self)@ == old(self)@.quieted(),
    {
        let mut i: usize = 0;
        while i < self.profiles.len()
            invariant
                i <= self.profiles@.len(),
                self.profiles@.len() == old(self).profiles@.len(),
                self@.profiles.len() == self.profiles@.len(),
                self@.proxy_api_key == old(self)@.proxy_api_key,
                self@.enable_auth == old(self)@.enable_auth,
                forall|j: int|
                    0 <= j < i ==> #[trigger] self@.profiles[j] == old(self)@.quieted().profiles[j],
                forall|j: int|
                    i <= j < self.profiles@.len() ==> #[trigger] self@.profiles[j] == old(
                        self,
                    )@.profiles[j],
            decreases self.profiles.len() - i,
        {
            let ghost before = self@;
            self.profiles[i].1.is_active = false;
            proof {
                assert(self@.profiles[i as int] == (
                    before.profiles[i as int].0,
                    before.profiles[i as int].1.with_active(false),
                ));
                assert forall|j: int| 0 <= j < i + 1 implies #[trigger] self@.profiles[j] == old(
                    self,
                )@.quieted().profiles[j] by {
                    if j < i {
                        assert(self@.profiles[j] == before.profiles[j]);
                    }
                }
                assert forall|j: int| i + 1 <= j < self.profiles@.len() implies #[trigger] self@.profiles[j]
                    == old(self)@.profiles[j] by {
                    assert(self@.profiles[j] == before.profiles[j]);
                }
            }
            i += 1;
        }
        proof {
            assert(self@.profiles =~= old(self)@.quieted().profiles);
        }
    }

    /// Stores a new profile under its own identifier and returns the
    /// identifier; refuses an identifier that is already stored. An active
    /// profile becomes the only active one.
    pub fn create_profile(&mut self, profile: Profile) -> (r: Result<String, String>)
        requires
            old(self).wf(),
        ensures
            final(self).wf(),
            match r {
                Ok(id) => {
                    &&& !old(self)@.has(profile@.id)
                    &&& id@ == profile@.id
                    &&& final(self)@ == old(self)@.created(profile@)
                },
                Err(e) => {
                    &&& old(self)@.has(profile@.id)
                    &&& e@ == "Profile already exists"@
                    &&& final(self)@ == old(self)@
                },
            },
    {
        let id = profile.id.clone();
        match self.position(id.as_str()) {
            Some(_) => {
                proof {
                    assert(self@.profiles =~= old(self)@.profiles);
                }
                return Err(String::from_str("Profile already exists"));
            },
            None => {},
        }
        if profile.is_active {
            self.quiet();
        }
        let ghost room = self@;
        self.profiles.push((id.clone(), profile));
        proof {
            assert(room == old(self)@.making_room(profile@.is_active));
            assert(self@.profiles =~= room.profiles.push((profile@.id, profile@)));
            crate::config::laws::lemma_create_then_get(old(self)@, profile@);
            crate::config::laws::lemma_create_keeps_single_active(old(self)@, profile@);
        }
        Ok(id)
    }

    /// The profile stored under `id`.
    pub fn get_profile(&self, id: &str) -> (r: Option<&Profile>)
        requires
            self.wf(),
        ensures
            match r {
                Some(p) => self@.get(id@) == Some(p@),
                None => self@.get(id@) is None,
            },
    {
        match self.position(id) {
            Some(i) => {
                proof {
                    self.lemma_index_of(id@, i as int);
                }
                Some(&self.profiles[i].1)
            },
            None => None,
        }
    }

    /// With unique keys, the position of a key is the one `index_of` names.
    proof fn lemma_index_of(&self, key: Seq<char>, i: int)
        requires
            self.wf(),
            0 <= i < self@.profiles.len(),
            self@.profiles[i].0 == key,
        ensures
            self@.has(key),
            self@.index_of(key) == i,
    {
        let k = self@.index_of(key);
        assert(self@.profiles[k].0 == key);
        if k < i {
            assert(self@.profiles[k].0 != self@.profiles[i].0);
        } else if i < k {
            assert(self@.profiles[i].0 != self@.profiles[k].0);
        }
    }

    /// Replaces the profile stored under `id`; refuses an unknown `id`. An
    /// active profile becomes the only active one.
    pub fn update_profile(&mut self, id: &str, profile: Profile) -> (r: Result<(), String>)
        requires
            old(self).wf(),
        ensures
            final(self).wf(),
            match r {
                Ok(_) => {
                    &&& old(self)@.has(id@)
                    &&& final(self)@ == old(self)@.replaced(
                        old(self)@.index_of(id@),
                        id@,
                        profile@,
                    )
                },
                Err(e) => {
                    &&& !old(self)@.has(id@)
                    &&& e@ == "Profile not found"@
                    &&& final(self)@ == old(self)@
                },
            },
    {
        match self.position(id) {
            Some(i) => {
                proof {
                    self.lemma_index_of(id@, i as int);
                }
                if profile.is_active {
                    self.quiet();
                }
                let ghost room = self@;
                self.profiles.set(i, (String::from_str(id), profile));
                proof {
                    assert(room == old(self)@.making_room(profile@.is_active));
                    assert(self@.profiles =~= room.profiles.update(i as int, (id@, profile@)));
                    crate::config::laws::lemma_update_keeps_well_formed(
                        old(self)@,
                        i as int,
                        profile@,
                    );
                }
                Ok(())
            },
            None => {
                proof {
                    assert(self@.profiles =~= old(self)@.profiles);
                }
                Err(String::from_str("Profile not found"))
            },
        }
    }

    /// Removes the profile stored under `id`; refuses an unknown `id`.
    pub fn delete_profile(&mut self, id: &str) -> (r: Result<(), String>)
        requires
            old(self).wf(),
        ensures
            final(self).wf(),
            match r {
                Ok(_) => {
                    &&& old(self)@.has(id@)
                    &&& final(self)@.profiles == old(self)@.profiles.remove(
                        old(self)@.index_of(id@),
                    )
                    &&& !final(self)@.has(id@)
                },
                Err(e) => {
                    &&& !old(self)@.has(id@)
                    &&& e@ == "Profile not found"@
                    &&& final(self)@.profiles == old(self)@.profiles
                },
            },
            final(self)@.proxy_api_key == old(self)@.proxy_api_key,
            final(self)@.enable_auth == old(self)@.enable_auth,
    {
        match self.position(id) {
            Some(i) => {
                proof {
                    self.lemma_index_of(id@, i as int);
                }
                let _ = self.profiles.remove(i);
                proof {
                    assert(final(self)@.profiles =~= old(self)@.profiles.remove(i as int));
                    crate::config::laws::lemma_delete_keeps_single_active(old(self)@, i as int);
                    assert(final(self)@ == old(self)@.removed(i as int));
                }
                Ok(())
            },
            None => Err(String::from_str("Profile not found")),
        }
    }

    /// All profiles, in the order of the store.
    pub fn list_profiles(&self) -> (r: Vec<&Profile>)
        ensures
            r@.len() == self@.profiles.len(),
            forall|i: int| 0 <= i < r@.len() ==> (#[trigger] r@[i])@ == self@.profiles[i].1,
    {
        let mut out: Vec<&Profile> = Vec::new();
        let mut i: usize = 0;
        while i < self.profiles.len()
            invariant
                i <= self.profiles@.len(),
                self@.profiles.len() == self.profiles@.len(),
                out@.len() == i,
                forall|j: int| 0 <= j < i ==> (#[trigger] out@[j])@ == self@.profiles[j].1,
            decreases self.profiles.len() - i,
        {
            out.push(&self.profiles[i].1);
            i += 1;
        }
        out
    }

    /// All profiles with the keys they are stored under, in the order of the
    /// store.
    pub fn get_profiles_with_keys(&self) -> (r: Vec<(String, &Profile)>)
        ensures
            r@.len() == self@.profiles.len(),
            forall|i: int|
                0 <= i < r@.len() ==> (#[trigger] r@[i]).0@ == self@.profiles[i].0 && r@[i].1@
                    == self@.profiles[i].1,
    {
        let mut out: Vec<(String, &Profile)> = Vec::new();
        let mut i: usize = 0;
        while i < self.profiles.len()
            invariant
                i <= self.profiles@.len(),
                self@.profiles.len() == self.profiles@.len(),
                out@.len() == i,
                forall|j: int|
                    0 <= j < i ==> (#[trigger] out@[j]).0@ == self@.profiles[j].0 && out@[j].1@
                        == self@.profiles[j].1,
            decreases self.profiles.len() - i,
        {
            out.push((self.profiles[i].0.clone(), &self.profiles[i].1));
            i += 1;
        }
        out
    }

    /// Makes the profile under `id` the only active one; refuses an unknown
    /// `id`.
    pub fn activate_profile(&mut self, id: &str) -> (r: Result<(), String>)
        requires
            old(self).wf(),
        ensures
            final(self).wf(),
            match r {
                Ok(_) => old(self)@.has(id@) && final(self)@ == old(self)@.activated(id@),
                Err(e) => {
                    &&& !old(self)@.has(id@)
                    &&& e@ == "Profile not found"@
                    &&& final(self)@ == old(self)@
                },
            },
    {
        match self.position(id) {
            Some(_) => {},
            None => {
                proof {
                    assert(self@.profiles =~= old(self)@.profiles);
                }
                return Err(String::from_str("Profile not found"));
            },
        }
        let mut i: usize = 0;
        while i < self.profiles.len()
            invariant
                i <= self.profiles@.len(),
                self.profiles@.len() == old(self).profiles@.len(),
                self@.profiles.len() == self.profiles@.len(),
                self@.proxy_api_key == old(self)@.proxy_api_key,
                self@.enable_auth == old(self)@.enable_auth,
                forall|j: int|
                    0 <= j < i ==> #[trigger] self@.profiles[j] == old(self)@.activated(
                        id@,
                    ).profiles[j],
                forall|j: int|
                    i <= j < self.profiles@.len() ==> #[trigger] self@.profiles[j] == old(
                        self,
                    )@.profiles[j],
            decreases self.profiles.len() - i,
        {
            let hit = str_eq(self.profiles[i].0.as_str(), id);
            let ghost before = self@;
            self.profiles[i].1.is_active = hit;
            proof {
                assert(self@.profiles[i as int] == (
                    before.profiles[i as int].0,
                    before.profiles[i as int].1.with_active(hit),
                ));
                assert forall|j: int| 0 <= j < i + 1 implies #[trigger] self@.profiles[j] == old(
                    self,
                )@.activated(id@).profiles[j] by {
                    if j < i {
                        assert(self@.profiles[j] == before.profiles[j]);
                    }
                }
                assert forall|j: int| i + 1 <= j < self.profiles@.len() implies #[trigger] self@.profiles[j]
                    == old(self)@.profiles[j] by {
                    assert(self@.profiles[j] == before.profiles[j]);
                }
            }
            i += 1;
        }
        proof {
            assert(self@.profiles =~= old(self)@.activated(id@).profiles);
            crate::config::laws::lemma_activate_gives_exactly_one(old(self)@, id@);
        }
        Ok(())
    }

    /// The first active profile in the order of the store.
    pub fn get_active_profile(&self) -> (r: Option<&Profile>)
        ensures
            match r {
                Some(p) => exists|i: int|
                    {
                        &&& self@.active_at(i)
                        &&& p@ == self@.profiles[i].1
                        &&& forall|j: int| 0 <= j < i ==> !self@.active_at(j)
                    },
                None => !self@.has_active(),
            },
    {
        let mut i: usize = 0;
        while i < self.profiles.len()
            invariant
                i <= self.profiles@.len(),
                self@.profiles.len() == self.profiles@.len(),
                forall|j: int| 0 <= j < i ==> !self@.active_at(j),
            decreases self.profiles.len() - i,
        {
            if self.profiles[i].1.is_active {
                proof {
                    assert(self@.active_at(i as int));
                }
                return Some(&self.profiles[i].1);
            }
            i += 1;
        }
        None
    }

    /// Tells whether the store is well formed. Every store that this module
    /// hands out is.
    pub fn is_well_formed(&self) -> (r: bool)
        ensures
            r == self.wf(),
    {
        let mut j: usize = 0;
        while j < self.profiles.len()
            invariant
                j <= self.profiles@.len(),
                self@.profiles.len() == self.profiles@.len(),
                forall|a: int, b: int|
                    0 <= a < b < j ==> (#[trigger] self@.profiles[a]).0 != (
                    #[trigger] self@.profiles[b]).0,
            decreases self.profiles.len() - j,
        {
            let mut i: usize = 0;
            while i < j
                invariant
                    i <= j < self.profiles@.len(),
                    self@.profiles.len() == self.profiles@.len(),
                    forall|a: int|
                        0 <= a < i ==> (#[trigger] self@.profiles[a]).0 != self@.profiles[j as int].0,
                decreases j - i,
            {
                if str_eq(self.profiles[i].0.as_str(), self.profiles[j].0.as_str()) {
                    proof {
                        assert(self@.profiles[i as int].0 == self@.profiles[j as int].0);
                    }
                    return false;
                }
                i += 1;
            }
            j += 1;
        }
        let mut active: Option<usize> = None;
        let mut k: usize = 0;
        while k < self.profiles.len()
            invariant
                k <= self.profiles@.len(),
                self@.profiles.len() == self.profiles@.len(),
                self@.keys_unique(),
                match active {
                    Some(a) => a < k && self@.active_at(a as int) && forall|b: int|
                        0 <= b < k && self@.active_at(b) ==> b == a,
                    None => forall|b: int| 0 <= b < k ==> !self@.active_at(b),
                },
            decreases self.profiles.len() - k,
        {
            if self.profiles[k].1.is_active {
                assert(self@.active_at(k as int));
                match active {
                    Some(_) => {
                        return false;
                    },
                    None => {
                        active = Some(k);
                    },
                }
            }
            k += 1;
        }
        true
    }

    /// Stores a profile under its own identifier, in place of the one that
    /// is stored there, if any. An active profile becomes the only active
    /// one.
    pub fn put(&mut self, profile: Profile)
        requires
            old(self).wf(),
        ensures
            final(self).wf(),
            final(self)@ == old(self)@.put(profile@),
    {
        let id = profile.id.clone();
        match self.position(id.as_str()) {
            Some(_) => {
                let _ = self.update_profile(id.as_str(), profile);
            },
            None => {
                let _ = self.create_profile(profile);
            },
        }
    }

    /// The store as it is read back: the profiles in the order given, each
    /// under its own identifier, a later one in place of an earlier one with
    /// the same identifier. Where several are active, the last of them stays
    /// so. Authorisation is on exactly when the stored flag reads `true`.
    pub fn from_loaded(
        profiles: &Vec<Profile>,
        proxy_api_key: Option<String>,
        enable_auth: Option<&str>,
    ) -> (r: Self)
        ensures
            r.wf(),
            r@ == loaded_upto(
                crate::config::profile_views(profiles@),
                profiles@.len() as int,
                opt_view(proxy_api_key),
                match enable_auth {
                    Some(flag) => flag@ == "true"@,
                    None => false,
                },
            ),
    {
        let enabled = match enable_auth {
            Some(flag) => str_eq(flag, "true"),
            None => false,
        };
        let mut store = ConfigManager { profiles: Vec::new(), proxy_api_key, enable_auth: enabled };
        let ghost key = opt_view(proxy_api_key);
        let ghost list = crate::config::profile_views(profiles@);
        proof {
            assert(store@.profiles =~= Seq::<(Seq<char>, ProfileView)>::empty());
        }
        let mut i: usize = 0;
        while i < profiles.len()
            invariant
                i <= profiles@.len(),
                store.wf(),
                list == crate::config::profile_views(profiles@),
                store@ == loaded_upto(list, i as int, key, enabled),
            decreases profiles.len() - i,
        {
            assert(list[i as int] == profiles@[i as int]@);
            store.put(profiles[i].clone());
            i += 1;
        }
        store
    }
}

/// The store after the first `upto` of the given profiles are put into an
/// empty store with the given key and authorisation flag.
pub open spec fn loaded_upto(
    profiles: Seq<ProfileView>,
    upto: int,
    proxy_api_key: Option<Seq<char>>,
    enable_auth: bool,
) -> ConfigView
    decreases upto,
{
    if upto <= 0 {
        ConfigView { profiles: Seq::empty(), proxy_api_key, enable_auth }
    } else {
        loaded_upto(profiles, upto - 1, proxy_api_key, enable_auth).put(profiles[upto - 1])
    }
}

} // verus!

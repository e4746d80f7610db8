//! The registry: from language identifiers to profiles.
use crate::profile::{Profile, ProfileView};
use vstd::prelude::*;
use vstd::string::StringExecFns;

verus! {

/// Why the registry refuses.
#[derive(Debug, Clone, Copy, PartialEq, Eq, Structural)]
pub enum RegistryError {
    /// No profile is registered under the identifier.
    UnsupportedLanguage,
    /// A profile is already registered under the identifier.
    DuplicateLanguage,
}

/// A set of profiles, each under its own identifier. Profiles are added and
/// never changed or removed.
pub struct Registry {
    ids: Vec<String>,
    profiles: Vec<Profile>,
}

/// Some entry of `ids` below `upto` is `id`.
pub open spec fn listed(ids: Seq<String>, id: Seq<char>, upto: int) -> bool {
    exists|i: int| 0 <= i < upto && i < ids.len() && (#[trigger] ids[i])@ == id
}

/// The position at which `ids` lists `id`.
pub open spec fn position_of(ids: Seq<String>, id: Seq<char>) -> int {
    choose|i: int| 0 <= i < ids.len() && (#[trigger] ids[i])@ == id
}

impl View for Registry {
    type V = Map<Seq<char>, ProfileView>;

    closed spec fn view(&self) -> Map<Seq<char>, ProfileView> {
        Map::new(
            |id: Seq<char>| listed(self.ids@, id, self.ids@.len() as int),
            |id: Seq<char>| self.profiles@[position_of(self.ids@, id)]@,
        )
    }
}

impl Registry {
    #[verifier::type_invariant]
    spec fn valid(self) -> bool {
        &&& self.ids@.len() == self.profiles@.len()
        &&& forall|i: int, j: int|
            0 <= i < j < self.ids@.len() ==> (#[trigger] self.ids@[i])@ != (#[trigger] self.ids@[j])@
    }

    /// A registry without profiles.
    pub fn new() -> (registry: Registry)
        ensures
            registry@ == Map::<Seq<char>, ProfileView>::empty(),
    {
        let registry = Registry { ids: Vec::new(), profiles: Vec::new() };
        assert(registry@ =~= Map::<Seq<char>, ProfileView>::empty());
        registry
    }

    /// The position at which `id` is listed.
    fn find(&self, id: &String) -> (found: Option<usize>)
        ensures
            match found {
                Some(i) => i < self.ids@.len() && self.ids@[i as int]@ == id@,
                None => !listed(self.ids@, id@, self.ids@.len() as int),
            },
    {
        let mut i: usize = 0;
        while i < self.ids.len()
            invariant
                i <= self.ids@.len(),
                !listed(self.ids@, id@, i as int),
            decreases self.ids@.len() - i,
        {
            if self.ids[i] == *id {
                return Some(i);
            }
            i = i + 1;
        }
        None
    }

    /// The number of profiles.
    pub fn len(&self) -> (n: usize)
        ensures
            n == self@.dom().len(),
            self@.dom().finite(),
    {
        proof {
            use_type_invariant(self);
            self.lemma_domain(self.ids@.len() as int);
            assert(self@.dom() =~= Set::new(
                |id: Seq<char>| listed(self.ids@, id, self.ids@.len() as int),
            ));
        }
        self.ids.len()
    }

    /// Distinct identifiers make a domain of as many elements.
    proof fn lemma_domain(self, upto: int)
        requires
            0 <= upto <= self.ids@.len(),
            forall|i: int, j: int|
                0 <= i < j < self.ids@.len() ==> (#[trigger] self.ids@[i])@
                    != (#[trigger] self.ids@[j])@,
        ensures
            Set::new(|id: Seq<char>| listed(self.ids@, id, upto)).finite(),
            Set::new(|id: Seq<char>| listed(self.ids@, id, upto)).len() == upto,
        decreases upto,
    {
        let now = Set::new(|id: Seq<char>| listed(self.ids@, id, upto));
        if upto == 0 {
            assert(now =~= Set::<Seq<char>>::empty());
        } else {
            self.lemma_domain(upto - 1);
            let before = Set::new(|id: Seq<char>| listed(self.ids@, id, upto - 1));
            let last = self.ids@[upto - 1]@;
            assert(!before.contains(last));
            assert(listed(self.ids@, last, upto));
            assert(now =~= before.insert(last));
        }
    }

    /// Whether a profile is registered under `language_id`.
    pub fn contains(&self, language_id: &str) -> (known: bool)
        ensures
            known == self@.contains_key(language_id@),
    {
        let id = String::from_str(language_id);
        self.find(&id).is_some()
    }

    /// Registers `profile` under `language_id`, once: a second registration
    /// under the same identifier is refused and changes nothing.
    pub fn register(&mut self, language_id: &str, profile: Profile) -> (outcome: Result<
        (),
        RegistryError,
    >)
        ensures
            old(self)@.contains_key(language_id@) ==> outcome == Err::<(), RegistryError>(
                RegistryError::DuplicateLanguage,
            ) && final(self)@ == old(self)@,
            !old(self)@.contains_key(language_id@) ==> outcome == Ok::<(), RegistryError>(())
                && final(self)@ == old(self)@.insert(language_id@, profile@),
    {
        proof {
            use_type_invariant(&*self);
        }
        let id = String::from_str(language_id);
        match self.find(&id) {
            Some(_) => Err(RegistryError::DuplicateLanguage),
            None => {
                let ghost old_ids = self.ids@;
                let ghost old_profiles = self.profiles@;
                let ghost old_map = self@;
                let mut taken = Registry { ids: Vec::new(), profiles: Vec::new() };
                std::mem::swap(self, &mut taken);
                let Registry { ids: mut ids, profiles: mut profiles } = taken;
                ids.push(id);
                profiles.push(profile);
                proof {
                    let n = old_ids.len() as int;
                    assert forall|i: int, j: int| 0 <= i < j < ids@.len() implies (
                    #[trigger] ids@[i])@ != (#[trigger] ids@[j])@ by {
                        if j == n {
                            assert(!crate::registry::listed(old_ids, language_id@, n));
                            assert(old_ids[i]@ != language_id@);
                        } else {
                            assert(old_ids[i]@ != old_ids[j]@);
                        }
                    }
                }
                *self = Registry { ids, profiles };
                proof {
                    let n = old_ids.len() as int;
                    assert(self.ids@[n]@ == language_id@);
                    assert forall|key: Seq<char>|
                        listed(self.ids@, key, self.ids@.len() as int) <==> (key == language_id@
                            || listed(old_ids, key, n)) by {
                        if listed(old_ids, key, n) {
                            let i = choose|i: int|
                                0 <= i < n && i < old_ids.len() && (#[trigger] old_ids[i])@ == key;
                            assert(self.ids@[i]@ == key);
                        }
                        if key == language_id@ {
                            assert(self.ids@[n]@ == key);
                        }
                        if listed(self.ids@, key, self.ids@.len() as int) {
                            let i = choose|i: int|
                                0 <= i < self.ids@.len() && (#[trigger] self.ids@[i])@ == key;
                            if i < n {
                                assert(old_ids[i]@ == key);
                            }
                        }
                    }
                    assert forall|key: Seq<char>|
                        listed(
                            self.ids@,
                            key,
                            self.ids@.len() as int,
                        ) implies #[trigger] self@[key] == old_map.insert(
                        language_id@,
                        profile@,
                    )[key] by {
                        let i = position_of(self.ids@, key);
                        assert(0 <= i < self.ids@.len() && self.ids@[i]@ == key);
                        if key == language_id@ {
                            if i < n {
                                assert(old_ids[i]@ == key);
                            }
                            assert(i == n);
                        } else {
                            assert(i < n);
                            assert(old_ids[i]@ == key);
                            let k = position_of(old_ids, key);
                            assert(0 <= k < n && old_ids[k]@ == key);
                            if k < i {
                                assert(old_ids[k]@ != old_ids[i]@);
                            }
                            if i < k {
                                assert(old_ids[i]@ != old_ids[k]@);
                            }
                            assert(self.profiles@[i] == old_profiles[k]);
                        }
                    }
                    assert(self@ =~= old_map.insert(language_id@, profile@));
                }
                Ok(())
            },
        }
    }

    /// The profile registered under `language_id`.
    pub fn lookup(&self, language_id: &str) -> (outcome: Result<&Profile, RegistryError>)
        ensures
            match outcome {
                Ok(profile) => self@.contains_key(language_id@) && profile@
                    == self@[language_id@],
                Err(e) => !self@.contains_key(language_id@) && e
                    == RegistryError::UnsupportedLanguage,
            },
    {
        proof {
            use_type_invariant(self);
        }
        let id = String::from_str(language_id);
        match self.find(&id) {
            None => Err(RegistryError::UnsupportedLanguage),
            Some(i) => {
                proof {
                    let k = position_of(self.ids@, id@);
                    assert(0 <= k < self.ids@.len() && self.ids@[k]@ == id@);
                    if k < i {
                        assert(self.ids@[k]@ != self.ids@[i as int]@);
                    }
                    if i < k {
                        assert(self.ids@[i as int]@ != self.ids@[k]@);
                    }
                }
                Ok(&self.profiles[i])
            },
        }
    }
}

} // verus!

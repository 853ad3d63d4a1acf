//! Profiles and their properties, as read from a configuration file.

use vstd::hash_map::StringHashMap;
use vstd::prelude::*;

verus! {

/// A named group of properties.
pub struct Profile {
    name: String,
    properties: StringHashMap<String>,
}

/// A [`Profile`] over sequences of characters: its name, and the value of
/// each of its keys.
pub struct ProfileView {
    pub name: Seq<char>,
    pub properties: Map<Seq<char>, Seq<char>>,
}

impl View for Profile {
    type V = ProfileView;

    closed spec fn view(&self) -> ProfileView {
        ProfileView {
            name: self.name@,
            properties: self.properties@.map_values(|value: String| value@),
        }
    }
}

impl Profile {
    /// The name that the profile's header gave it.
    pub fn name(&self) -> (name: &String)
        ensures
            name@ == self@.name,
    {
        &self.name
    }

    /// The value of `key`, where the profile has that key.
    pub fn get(&self, key: &str) -> (value: Option<&String>)
        ensures
            match value {
                Some(v) => self@.properties.contains_key(key@) && v@ == self@.properties[key@],
                None => !self@.properties.contains_key(key@),
            },
    {
        self.properties.get(key)
    }

    /// The number of keys.
    pub fn len(&self) -> (n: usize)
        ensures
            n == self@.properties.len(),
    {
        broadcast use vstd::hash_map::group_hash_map_axioms;

        let n = self.properties.len();
        proof {
            assert(self@.properties.dom() =~= self.properties@.dom());
        }
        n
    }
}

/// The profiles of one configuration file, by name.
pub struct Config {
    profiles: Vec<Profile>,
}

/// `profiles` with `key` set to `value` in the profile `profile`, which is
/// added where it is not there yet. Other keys and other profiles stay.
pub open spec fn with_property(
    profiles: Map<Seq<char>, Map<Seq<char>, Seq<char>>>,
    profile: Seq<char>,
    key: Seq<char>,
    value: Seq<char>,
) -> Map<Seq<char>, Map<Seq<char>, Seq<char>>> {
    if profiles.contains_key(profile) {
        profiles.insert(profile, profiles[profile].insert(key, value))
    } else {
        profiles.insert(profile, Map::empty().insert(key, value))
    }
}

impl View for Config {
    type V = Map<Seq<char>, Map<Seq<char>, Seq<char>>>;

    closed spec fn view(&self) -> Self::V {
        Map::new(
            |name: Seq<char>| has_name(self.profiles@, name),
            |name: Seq<char>| self.profiles@[index_of_name(self.profiles@, name)]@.properties,
        )
    }
}

/// Whether one of `profiles` is called `name`.
spec fn has_name(profiles: Seq<Profile>, name: Seq<char>) -> bool {
    exists|i: int| 0 <= i < profiles.len() && (#[trigger] profiles[i])@.name == name
}

/// The place in `profiles` of one that is called `name`.
spec fn index_of_name(profiles: Seq<Profile>, name: Seq<char>) -> int {
    choose|i: int| 0 <= i < profiles.len() && (#[trigger] profiles[i])@.name == name
}

/// No two of `profiles` have the same name.
spec fn distinct_names(profiles: Seq<Profile>) -> bool {
    forall|i: int, j: int|
        0 <= i < profiles.len() && 0 <= j < profiles.len() && i != j ==> (
        #[trigger] profiles[i])@.name != (#[trigger] profiles[j])@.name
}

/// Each of `profiles` has a finite number of keys.
spec fn finite_profiles(profiles: Seq<Profile>) -> bool {
    forall|i: int| 0 <= i < profiles.len() ==> (#[trigger] profiles[i])@.properties.dom().finite()
}

/// With distinct names, the place of a name is the one place that has it.
proof fn lemma_index_of_name(profiles: Seq<Profile>, at: int)
    requires
        distinct_names(profiles),
        0 <= at < profiles.len(),
    ensures
        has_name(profiles, profiles[at]@.name),
        index_of_name(profiles, profiles[at]@.name) == at,
{
}

/// Profiles that keep their names keep their places.
proof fn lemma_same_names(before: Seq<Profile>, after: Seq<Profile>)
    requires
        distinct_names(before),
        before.len() == after.len(),
        forall|i: int| 0 <= i < after.len() ==> (#[trigger] after[i])@.name == before[i]@.name,
    ensures
        distinct_names(after),
        forall|name: Seq<char>| has_name(after, name) == has_name(before, name),
        forall|name: Seq<char>|
            has_name(before, name) ==> index_of_name(after, name) == index_of_name(before, name),
{
    assert forall|i: int, j: int|
        0 <= i < after.len() && 0 <= j < after.len() && i != j implies (#[trigger] after[i])@.name
        != (#[trigger] after[j])@.name by {
        assert(before[i]@.name != before[j]@.name);
    }
    assert forall|name: Seq<char>| has_name(after, name) == has_name(before, name) by {
        if has_name(before, name) {
            let i = index_of_name(before, name);
            assert(after[i]@.name == name);
        }
        if has_name(after, name) {
            let i = index_of_name(after, name);
            assert(before[i]@.name == name);
        }
    }
    assert forall|name: Seq<char>| has_name(before, name) implies index_of_name(after, name)
        == index_of_name(before, name) by {
        let i = index_of_name(before, name);
        assert(after[i]@.name == name);
        lemma_index_of_name(after, i);
    }
}

impl Config {
    #[verifier::type_invariant]
    spec fn well_formed(&self) -> bool {
        distinct_names(self.profiles@) && finite_profiles(self.profiles@)
    }

    /// A configuration without profiles.
    pub fn new() -> (config: Config)
        ensures
            config@ == Map::<Seq<char>, Map<Seq<char>, Seq<char>>>::empty(),
    {
        let config = Config { profiles: Vec::new() };
        assert(config@ =~= Map::<Seq<char>, Map<Seq<char>, Seq<char>>>::empty());
        config
    }

    /// The place of the profile called `name`.
    fn position(&self, name: &String) -> (found: Option<usize>)
        ensures
            match found {
                Some(at) => at < self.profiles@.len() && self.profiles@[at as int]@.name == name@,
                None => !has_name(self.profiles@, name@),
            },
    {
        let mut at: usize = 0;
        while at < self.profiles.len()
            invariant
                at <= self.profiles@.len(),
                forall|i: int| 0 <= i < at ==> (#[trigger] self.profiles@[i])@.name != name@,
            decreases self.profiles@.len() - at,
        {
            if self.profiles[at].name == *name {
                return Some(at);
            }
            at += 1;
        }
        None
    }

    /// The profile called `name`, where there is one.
    pub fn get(&self, name: &str) -> (profile: Option<&Profile>)
        ensures
            match profile {
                Some(p) => self@.contains_key(name@) && p@.name == name@ && p@.properties
                    == self@[name@] && p@.properties.dom().finite(),
                None => !self@.contains_key(name@),
            },
    {
        proof {
            use_type_invariant(self);
        }
        let wanted = name.to_owned();
        match self.position(&wanted) {
            Some(at) => {
                proof {
                    lemma_index_of_name(self.profiles@, at as int);
                }
                Some(&self.profiles[at])
            },
            None => None,
        }
    }

    /// The number of profiles.
    pub fn len(&self) -> (n: usize)
        ensures
            self@.dom().finite(),
            n == self@.len(),
    {
        proof {
            use_type_invariant(self);
            let names = self.profiles@.map_values(|p: Profile| p@.name);
            assert forall|i: int, j: int|
                0 <= i < names.len() && 0 <= j < names.len() && i != j implies names[i]
                != names[j] by {
                assert(self.profiles@[i]@.name != self.profiles@[j]@.name);
            }
            assert(names.no_duplicates());
            names.unique_seq_to_set();
            vstd::seq_lib::seq_to_set_is_finite(names);
            assert forall|name: Seq<char>|
                names.to_set().contains(name) implies self@.dom().contains(name) by {
                let i = choose|i: int| 0 <= i < names.len() && names[i] == name;
                assert(self.profiles@[i]@.name == name);
            }
            assert forall|name: Seq<char>|
                self@.dom().contains(name) implies names.to_set().contains(name) by {
                let i = index_of_name(self.profiles@, name);
                assert(names[i] == name);
            }
            assert(self@.dom() =~= names.to_set());
        }
        self.profiles.len()
    }

    /// Sets `key` to `value` in the profile called `profile`, which is added
    /// where it is not there yet.
    pub fn set(&mut self, profile: String, key: String, value: String)
        ensures
            final(self)@ == with_property(old(self)@, profile@, key@, value@),
    {
        let mut taken = Config::new();
        core::mem::swap(self, &mut taken);
        proof {
            use_type_invariant(&taken);
        }
        let ghost before = taken.profiles@;
        let found = taken.position(&profile);
        let mut profiles = taken.profiles;
        match found {
            Some(at) => {
                profiles[at].properties.insert(key, value);
                proof {
                    let after = profiles@;
                    assert(after[at as int]@.properties =~= before[at as int]@.properties.insert(
                        key@,
                        value@,
                    ));
                    assert forall|i: int| 0 <= i < after.len() implies (#[trigger] after[i])@.name
                        == before[i]@.name by {}
                    lemma_same_names(before, after);
                    lemma_index_of_name(before, at as int);
                    assert(after[at as int]@.properties.dom() =~= before[at
                        as int]@.properties.dom().insert(key@));
                    assert(finite_profiles(after));
                }
            },
            None => {
                let mut properties: StringHashMap<String> = StringHashMap::new();
                properties.insert(key, value);
                profiles.push(Profile { name: profile, properties });
                proof {
                    let after = profiles@;
                    let last = after.len() - 1;
                    assert(after[last]@.properties =~= Map::<Seq<char>, Seq<char>>::empty().insert(
                        key@,
                        value@,
                    ));
                    assert forall|i: int| 0 <= i < before.len() implies (#[trigger] after[i])
                        == before[i] by {}
                    assert(distinct_names(after));
                    assert(after[last]@.properties.dom() =~= Set::<Seq<char>>::empty().insert(
                        key@,
                    ));
                    assert(finite_profiles(after));
                    lemma_index_of_name(after, last);
                    assert forall|name: Seq<char>| has_name(before, name) implies has_name(
                        after,
                        name,
                    ) && index_of_name(after, name) == index_of_name(before, name) by {
                        let i = index_of_name(before, name);
                        assert(after[i]@.name == name);
                        lemma_index_of_name(after, i);
                    }
                    assert forall|name: Seq<char>|
                        has_name(after, name) && name != profile@ implies has_name(
                        before,
                        name,
                    ) by {
                        let i = index_of_name(after, name);
                        assert(before[i]@.name == name);
                    }
                }
            },
        }
        *self = Config { profiles };
        assert(self@ =~~= with_property(old(self)@, profile@, key@, value@));
    }
}

} // verus!

//! Keeps named account profiles and the selected identity.
//!
//! The store is a table of profiles sorted by name, so that names are unique
//! and listed in order, together with the name of the selected profile. It is
//! read from and written to disk by the caller; every change of selection or
//! content is decided here.

use vstd::prelude::*;

use crate::text::{
    blank, chars_of, compare_chars, is_blank, lemma_lex_irreflexive, lemma_lex_transitive, lex_lt,
    same_text, Order,
};

verus! {

/// Holds one complete account identity.
pub struct Profile {
    /// Identifies the account.
    pub user_name: String,
    /// Authenticates the account.
    pub api_key: String,
}

impl Clone for Profile {
    fn clone(&self) -> (r: Self)
        ensures
            r == *self,
    {
        Profile { user_name: self.user_name.clone(), api_key: self.api_key.clone() }
    }
}

/// A byte range `start..end` of the configuration text.
#[derive(Debug, PartialEq, Eq, Structural, Clone, Copy)]
pub struct Span {
    pub start: usize,
    pub end: usize,
}

/// Describes configuration failures without retaining file contents.
#[derive(Debug, PartialEq, Eq, Structural, Clone, Copy)]
pub enum Error {
    /// Reports configuration I/O failure.
    Io,
    /// Refuses malformed configuration instead of replacing it; carries the
    /// malformed byte range where the decoder reports one.
    Decode { span: Option<Span> },
    /// Reports serialization failure.
    Encode,
    /// Reports atomic replacement failure.
    Persist,
    /// Rejects unknown or invalid profile selections.
    MissingProfile,
    /// Rejects empty local profile names.
    EmptyName,
}

/// Why no account could be chosen.
#[derive(Debug, PartialEq, Eq, Structural, Clone, Copy)]
pub enum CredentialError {
    /// Only one of user name and key came from the environment.
    Partial,
    /// Neither the environment nor a selected profile names an account.
    Missing,
}

/// The names of a profile table, in table order.
pub open spec fn table_names(t: Seq<(String, Profile)>) -> Seq<Seq<char>> {
    t.map_values(|e: (String, Profile)| e.0@)
}

/// Whether some entry of the table carries the name `k`.
pub open spec fn table_has(t: Seq<(String, Profile)>, k: Seq<char>) -> bool {
    exists|i: int| 0 <= i < t.len() && #[trigger] t[i].0@ == k
}

/// The table read as a map from names to profiles, later entries replacing
/// earlier ones of the same name.
pub open spec fn table_map(t: Seq<(String, Profile)>) -> Map<Seq<char>, Profile>
    decreases t.len(),
{
    if t.len() == 0 {
        Map::empty()
    } else {
        table_map(t.drop_last()).insert(t.last().0@, t.last().1)
    }
}

/// Names strictly increase along the table, so that none occurs twice.
pub open spec fn table_sorted(t: Seq<(String, Profile)>) -> bool {
    forall|i: int, j: int| 0 <= i < j < t.len() ==> lex_lt(#[trigger] t[i].0@, #[trigger] t[j].0@)
}

proof fn lemma_table_map(t: Seq<(String, Profile)>)
    requires
        table_sorted(t),
    ensures
        forall|k: Seq<char>| #[trigger] table_map(t).contains_key(k) == table_has(t, k),
        forall|i: int| 0 <= i < t.len() ==> table_map(t)[#[trigger] t[i].0@] == t[i].1,
    decreases t.len(),
{
    if t.len() > 0 {
        let t0 = t.drop_last();
        let last = t.last();
        assert forall|a: int, b: int| 0 <= a < b < t0.len() implies lex_lt(
            #[trigger] t0[a].0@,
            #[trigger] t0[b].0@,
        ) by {
            assert(t0[a] == t[a] && t0[b] == t[b]);
        }
        lemma_table_map(t0);
        assert(table_map(t) == table_map(t0).insert(last.0@, last.1));
        assert forall|k: Seq<char>| #[trigger] table_map(t).contains_key(k) == table_has(t, k) by {
            if table_has(t, k) {
                let i: int = choose|i: int| 0 <= i < t.len() && #[trigger] t[i].0@ == k;
                if i < t.len() - 1 {
                    assert(t0[i] == t[i]);
                    assert(table_has(t0, k));
                }
            }
            if table_has(t0, k) {
                let i: int = choose|i: int| 0 <= i < t0.len() && #[trigger] t0[i].0@ == k;
                assert(t[i] == t0[i]);
            }
            if k == last.0@ {
                assert(t[t.len() - 1].0@ == k);
            }
        }
        assert forall|i: int| 0 <= i < t.len() implies table_map(t)[#[trigger] t[i].0@] == t[i].1 by {
            if i < t.len() - 1 {
                assert(t0[i] == t[i]);
                assert(lex_lt(t[i].0@, t[t.len() - 1].0@));
                lemma_lex_irreflexive(t[i].0@);
            }
        }
    }
}

proof fn lemma_table_index(t: Seq<(String, Profile)>, idx: int)
    requires
        table_sorted(t),
        0 <= idx < t.len(),
    ensures
        table_map(t).contains_key(t[idx].0@),
        table_map(t)[t[idx].0@] == t[idx].1,
{
    lemma_table_map(t);
    assert(table_has(t, t[idx].0@));
}

/// Where a name stands in a sorted table: at an index, or before the first
/// larger name.
proof fn lemma_table_absent(t: Seq<(String, Profile)>, k: Seq<char>, pos: int)
    requires
        table_sorted(t),
        0 <= pos <= t.len(),
        forall|j: int| 0 <= j < pos ==> lex_lt(#[trigger] t[j].0@, k),
        forall|j: int| pos <= j < t.len() ==> lex_lt(k, #[trigger] t[j].0@),
    ensures
        !table_map(t).contains_key(k),
{
    lemma_table_map(t);
    if table_has(t, k) {
        let j: int = choose|i: int| 0 <= i < t.len() && #[trigger] t[i].0@ == k;
        lemma_lex_irreflexive(k);
    }
}

/// Replacing the profile of an entry replaces it in the map.
proof fn lemma_replaced_map(old_t: Seq<(String, Profile)>, t: Seq<(String, Profile)>, i: int)
    requires
        table_sorted(old_t),
        table_sorted(t),
        0 <= i < old_t.len(),
        t.len() == old_t.len(),
        t[i].0@ == old_t[i].0@,
        forall|j: int| 0 <= j < t.len() && j != i ==> t[j] == old_t[j],
    ensures
        table_map(t) == table_map(old_t).insert(t[i].0@, t[i].1),
{
    lemma_table_map(t);
    lemma_table_map(old_t);
    let n = t[i].0@;
    let expected = table_map(old_t).insert(n, t[i].1);
    assert forall|k: Seq<char>| #[trigger] table_map(t).contains_key(k) == expected.contains_key(k) by {
        if table_has(t, k) {
            let j: int = choose|j: int| 0 <= j < t.len() && #[trigger] t[j].0@ == k;
            if j != i {
                assert(old_t[j].0@ == k);
            }
        }
        if table_has(old_t, k) {
            let j: int = choose|j: int| 0 <= j < old_t.len() && #[trigger] old_t[j].0@ == k;
            if j != i {
                assert(t[j].0@ == k);
            } else {
                assert(t[i].0@ == k);
            }
        }
        if k == n {
            assert(t[i].0@ == k);
        }
    }
    assert forall|k: Seq<char>| #[trigger] table_map(t).contains_key(k) implies table_map(t)[k]
        == expected[k] by {
        let j: int = choose|j: int| 0 <= j < t.len() && #[trigger] t[j].0@ == k;
        if j != i {
            if j < i {
                assert(lex_lt(t[j].0@, t[i].0@));
            } else {
                assert(lex_lt(t[i].0@, t[j].0@));
            }
            lemma_lex_irreflexive(k);
            assert(old_t[j].0@ == k);
        }
    }
    assert(table_map(t) =~= expected);
}

/// Inserting a new entry at its place adds it to the map.
proof fn lemma_inserted_map(old_t: Seq<(String, Profile)>, t: Seq<(String, Profile)>, pos: int)
    requires
        table_sorted(old_t),
        table_sorted(t),
        0 <= pos <= old_t.len(),
        t == old_t.insert(pos, t[pos]),
    ensures
        table_map(t) == table_map(old_t).insert(t[pos].0@, t[pos].1),
{
    lemma_table_map(t);
    lemma_table_map(old_t);
    let n = t[pos].0@;
    let expected = table_map(old_t).insert(n, t[pos].1);
    assert forall|k: Seq<char>| #[trigger] table_map(t).contains_key(k) == expected.contains_key(k) by {
        if table_has(t, k) {
            let j: int = choose|j: int| 0 <= j < t.len() && #[trigger] t[j].0@ == k;
            if j < pos {
                assert(old_t[j].0@ == k);
            } else if j > pos {
                assert(old_t[j - 1].0@ == k);
            }
        }
        if table_has(old_t, k) {
            let j: int = choose|j: int| 0 <= j < old_t.len() && #[trigger] old_t[j].0@ == k;
            if j < pos {
                assert(t[j].0@ == k);
            } else {
                assert(t[j + 1].0@ == k);
            }
        }
        if k == n {
            assert(t[pos].0@ == k);
        }
    }
    assert forall|k: Seq<char>| #[trigger] table_map(t).contains_key(k) implies table_map(t)[k]
        == expected[k] by {
        let j: int = choose|j: int| 0 <= j < t.len() && #[trigger] t[j].0@ == k;
        if j != pos {
            if j < pos {
                assert(lex_lt(t[j].0@, t[pos].0@));
                assert(old_t[j] == t[j]);
            } else {
                assert(lex_lt(t[pos].0@, t[j].0@));
                assert(old_t[j - 1] == t[j]);
            }
            lemma_lex_irreflexive(k);
        }
    }
    assert(table_map(t) =~= expected);
}

/// Removing an entry removes its name from the map.
proof fn lemma_removed_map(old_t: Seq<(String, Profile)>, t: Seq<(String, Profile)>, i: int)
    requires
        table_sorted(old_t),
        table_sorted(t),
        0 <= i < old_t.len(),
        t == old_t.remove(i),
    ensures
        table_map(t) == table_map(old_t).remove(old_t[i].0@),
{
    lemma_table_map(t);
    lemma_table_map(old_t);
    let n = old_t[i].0@;
    let expected = table_map(old_t).remove(n);
    assert forall|k: Seq<char>| #[trigger] table_map(t).contains_key(k) == expected.contains_key(k) by {
        if table_has(t, k) {
            let j: int = choose|j: int| 0 <= j < t.len() && #[trigger] t[j].0@ == k;
            if j < i {
                assert(old_t[j].0@ == k);
                assert(lex_lt(old_t[j].0@, old_t[i].0@));
            } else {
                assert(old_t[j + 1].0@ == k);
                assert(lex_lt(old_t[i].0@, old_t[j + 1].0@));
            }
            lemma_lex_irreflexive(k);
        }
        if table_has(old_t, k) && k != n {
            let j: int = choose|j: int| 0 <= j < old_t.len() && #[trigger] old_t[j].0@ == k;
            if j < i {
                assert(t[j].0@ == k);
            } else {
                assert(j != i);
                assert(t[j - 1].0@ == k);
            }
        }
    }
    assert forall|k: Seq<char>| #[trigger] table_map(t).contains_key(k) implies table_map(t)[k]
        == expected[k] by {
        let j: int = choose|j: int| 0 <= j < t.len() && #[trigger] t[j].0@ == k;
        if j < i {
            assert(old_t[j] == t[j]);
        } else {
            assert(old_t[j + 1] == t[j]);
        }
    }
    assert(table_map(t) =~= expected);
}

/// Holds the table of named accounts and the selected identity.
struct Profiles {
    /// Selects the account used when environment credentials are absent.
    profile_active: Option<String>,
    /// Maps local names to complete account identities, sorted by name.
    profiles: Vec<(String, Profile)>,
}

/// How the store is seen: the selected name and the profiles by name.
pub struct ConfigModel {
    pub active: Option<Seq<char>>,
    pub profiles: Map<Seq<char>, Profile>,
}

impl ConfigModel {
    /// The selection, where there is one, names a stored profile.
    pub open spec fn wf(self) -> bool {
        self.active matches Some(n) ==> self.profiles.contains_key(n)
    }

    /// The profile that is used when environment credentials are absent.
    pub open spec fn active_profile(self) -> Option<Profile> {
        match self.active {
            Some(n) => if self.profiles.contains_key(n) {
                Some(self.profiles[n])
            } else {
                None
            },
            None => None,
        }
    }

    /// The store after saving `p` under `n`: stored and selected.
    pub open spec fn saved(self, n: Seq<char>, p: Profile) -> ConfigModel {
        ConfigModel { active: Some(n), profiles: self.profiles.insert(n, p) }
    }

    /// The store after selecting the stored profile `n`.
    pub open spec fn selected(self, n: Seq<char>) -> ConfigModel {
        ConfigModel { active: Some(n), profiles: self.profiles }
    }

    /// The store after deleting `n`: an unrelated selection stays.
    pub open spec fn deleted(self, n: Seq<char>) -> ConfigModel {
        ConfigModel {
            active: if self.active == Some(n) {
                None
            } else {
                self.active
            },
            profiles: self.profiles.remove(n),
        }
    }

    /// The store without any profile.
    pub open spec fn cleared(self) -> ConfigModel {
        ConfigModel { active: None, profiles: Map::empty() }
    }
}

/// Clearing leaves no profile stored, none selected and none active,
/// whatever was stored before.
pub proof fn clearing_leaves_no_profile(m: ConfigModel, k: Seq<char>)
    ensures
        !m.cleared().profiles.contains_key(k),
        m.cleared().active is None,
        m.cleared().active_profile() is None,
        m.cleared().profiles.dom().len() == 0,
{
    assert(m.cleared().profiles.dom() =~= Set::<Seq<char>>::empty());
}

/// Saving a profile selects it: afterwards it is the active profile.
pub proof fn saved_profile_is_active(m: ConfigModel, n: Seq<char>, p: Profile)
    ensures
        m.saved(n, p).active_profile() == Some(p),
{
}

/// Saving leaves every other name as it was.
pub proof fn save_keeps_other_profiles(m: ConfigModel, n: Seq<char>, p: Profile, k: Seq<char>)
    requires
        k != n,
    ensures
        m.saved(n, p).profiles.contains_key(k) == m.profiles.contains_key(k),
        m.profiles.contains_key(k) ==> m.saved(n, p).profiles[k] == m.profiles[k],
{
}

/// Selecting a stored profile makes it the active profile.
pub proof fn selected_profile_is_active(m: ConfigModel, n: Seq<char>)
    requires
        m.profiles.contains_key(n),
    ensures
        m.selected(n).active_profile() == Some(m.profiles[n]),
{
}

/// Deleting the selected profile leaves no selection and no active profile.
pub proof fn deleting_selection_clears_it(m: ConfigModel, n: Seq<char>)
    requires
        m.active == Some(n),
    ensures
        m.deleted(n).active is None,
        m.deleted(n).active_profile() is None,
{
}

/// Deleting any other profile keeps the active profile.
pub proof fn deleting_other_keeps_active(m: ConfigModel, n: Seq<char>)
    requires
        m.wf(),
        m.active != Some(n),
    ensures
        m.deleted(n).active_profile() == m.active_profile(),
{
}

/// Every change keeps the selection among the stored profiles.
pub proof fn changes_keep_selection_stored(m: ConfigModel, n: Seq<char>, p: Profile)
    requires
        m.wf(),
    ensures
        m.saved(n, p).wf(),
        m.profiles.contains_key(n) ==> m.selected(n).wf(),
        m.deleted(n).wf(),
        m.cleared().wf(),
{
}

/// Deleting a profile that was just saved under a new name gives back the
/// profiles as they were.
pub proof fn delete_undoes_new_save(m: ConfigModel, n: Seq<char>, p: Profile)
    requires
        !m.profiles.contains_key(n),
    ensures
        m.saved(n, p).deleted(n).profiles == m.profiles,
{
    assert(m.saved(n, p).deleted(n).profiles =~= m.profiles);
}

/// Saving the same profile under the same name twice is saving it once.
pub proof fn save_is_idempotent(m: ConfigModel, n: Seq<char>, p: Profile)
    ensures
        m.saved(n, p).saved(n, p) == m.saved(n, p),
{
    assert(m.saved(n, p).saved(n, p).profiles =~= m.saved(n, p).profiles);
}

/// Owns an explicitly loaded profile store.
pub struct LxpConfig {
    /// Locates the persistent configuration.
    path: String,
    /// Holds validated account selection and profile data.
    profiles: Profiles,
}

impl View for LxpConfig {
    type V = ConfigModel;

    closed spec fn view(&self) -> ConfigModel {
        ConfigModel {
            active: match self.profiles.profile_active {
                Some(n) => Some(n@),
                None => None,
            },
            profiles: table_map(self.profiles.profiles@),
        }
    }
}

impl Profiles {
    /// Finds `name`: its index, or the index before which it belongs.
    fn find(&self, name: &Vec<char>) -> (r: Result<usize, usize>)
        requires
            table_sorted(self.profiles@),
        ensures
            r matches Ok(i) ==> i < self.profiles@.len() && self.profiles@[i as int].0@ == name@,
            r matches Err(pos) ==> {
                &&& pos <= self.profiles@.len()
                &&& forall|j: int| 0 <= j < pos ==> lex_lt(#[trigger] self.profiles@[j].0@, name@)
                &&& forall|j: int|
                    pos <= j < self.profiles@.len() ==> lex_lt(name@, #[trigger] self.profiles@[j].0@)
            },
    {
        let mut i: usize = 0;
        while i < self.profiles.len()
            invariant
                table_sorted(self.profiles@),
                i <= self.profiles@.len(),
                forall|j: int| 0 <= j < i ==> lex_lt(#[trigger] self.profiles@[j].0@, name@),
            decreases self.profiles@.len() - i,
        {
            let current = chars_of(self.profiles[i].0.as_str());
            match compare_chars(&current, name) {
                Order::Equal => {
                    return Ok(i);
                },
                Order::Greater => {
                    assert forall|j: int| i <= j < self.profiles@.len() implies lex_lt(
                        name@,
                        #[trigger] self.profiles@[j].0@,
                    ) by {
                        if j > i {
                            lemma_lex_transitive(name@, self.profiles@[i as int].0@, self.profiles@[j].0@);
                        }
                    }
                    return Err(i);
                },
                Order::Less => {},
            }
            i = i + 1;
        }
        Err(i)
    }

    /// Stores `profile` under `name`, replacing a profile of the same name.
    fn insert(&mut self, name: String, profile: Profile)
        requires
            table_sorted(old(self).profiles@),
        ensures
            table_sorted(final(self).profiles@),
            table_map(final(self).profiles@) == table_map(old(self).profiles@).insert(name@, profile),
            final(self).profile_active == old(self).profile_active,
    {
        let ghost old_t = self.profiles@;
        let ghost n = name@;
        let key = chars_of(name.as_str());
        match self.find(&key) {
            Ok(i) => {
                self.profiles.remove(i);
                self.profiles.insert(i, (name, profile));
                let ghost t = self.profiles@;
                assert(t =~= old_t.update(i as int, (name, profile)));
                assert forall|a: int, b: int| 0 <= a < b < t.len() implies lex_lt(
                    #[trigger] t[a].0@,
                    #[trigger] t[b].0@,
                ) by {
                    assert(lex_lt(old_t[a].0@, old_t[b].0@));
                }
                proof {
                    lemma_table_map(t);
                    lemma_table_map(old_t);
                    lemma_replaced_map(old_t, t, i as int);
                }
            },
            Err(pos) => {
                self.profiles.insert(pos, (name, profile));
                let ghost t = self.profiles@;
                assert(t =~= old_t.insert(pos as int, (name, profile)));
                assert forall|a: int, b: int| 0 <= a < b < t.len() implies lex_lt(
                    #[trigger] t[a].0@,
                    #[trigger] t[b].0@,
                ) by {
                    if b < pos {
                        assert(lex_lt(old_t[a].0@, old_t[b].0@));
                    } else if b == pos {
                        assert(lex_lt(old_t[a].0@, key@));
                    } else if a < pos {
                        assert(lex_lt(old_t[a].0@, key@));
                        assert(lex_lt(key@, old_t[b - 1].0@));
                        lemma_lex_transitive(old_t[a].0@, key@, old_t[b - 1].0@);
                    } else if a == pos {
                        assert(lex_lt(key@, old_t[b - 1].0@));
                    } else {
                        assert(lex_lt(old_t[a - 1].0@, old_t[b - 1].0@));
                    }
                }
                proof {
                    lemma_table_map(t);
                    lemma_table_map(old_t);
                    lemma_inserted_map(old_t, t, pos as int);
                }
            },
        }
    }

    /// Removes the profile named `name`; reports whether there was one.
    fn remove(&mut self, name: &str) -> (found: bool)
        requires
            table_sorted(old(self).profiles@),
        ensures
            found == table_map(old(self).profiles@).contains_key(name@),
            table_sorted(final(self).profiles@),
            table_map(final(self).profiles@) == table_map(old(self).profiles@).remove(name@),
            final(self).profile_active == old(self).profile_active,
    {
        let ghost old_t = self.profiles@;
        let key = chars_of(name);
        match self.find(&key) {
            Ok(i) => {
                proof {
                    lemma_table_index(old_t, i as int);
                }
                self.profiles.remove(i);
                let ghost t = self.profiles@;
                assert(t =~= old_t.remove(i as int));
                assert forall|a: int, b: int| 0 <= a < b < t.len() implies lex_lt(
                    #[trigger] t[a].0@,
                    #[trigger] t[b].0@,
                ) by {
                    if b < i {
                        assert(lex_lt(old_t[a].0@, old_t[b].0@));
                    } else if a < i {
                        assert(lex_lt(old_t[a].0@, old_t[b + 1].0@));
                    } else {
                        assert(lex_lt(old_t[a + 1].0@, old_t[b + 1].0@));
                    }
                }
                proof {
                    lemma_removed_map(old_t, t, i as int);
                }
                true
            },
            Err(pos) => {
                proof {
                    lemma_table_absent(old_t, key@, pos as int);
                    assert(table_map(old_t).remove(name@) =~= table_map(old_t));
                }
                false
            },
        }
    }

    /// Returns the profile stored under `name`.
    fn get(&self, name: &str) -> (r: Option<&Profile>)
        requires
            table_sorted(self.profiles@),
        ensures
            r matches Some(p) ==> table_map(self.profiles@).contains_key(name@) && *p == table_map(
                self.profiles@,
            )[name@],
            r is None ==> !table_map(self.profiles@).contains_key(name@),
    {
        let key = chars_of(name);
        match self.find(&key) {
            Ok(i) => {
                proof {
                    lemma_table_index(self.profiles@, i as int);
                }
                Some(&self.profiles[i].1)
            },
            Err(pos) => {
                proof {
                    lemma_table_absent(self.profiles@, key@, pos as int);
                }
                None
            },
        }
    }
}


/// The listing line of a profile name: `*` marks the selection.
pub open spec fn list_line(active: Option<Seq<char>>, name: Seq<char>) -> Seq<char> {
    (if active == Some(name) {
        seq!['*']
    } else {
        seq![' ']
    }) + seq![' '] + name
}

impl LxpConfig {
    /// The table is sorted by name and the selection names a stored profile.
    pub closed spec fn wf(&self) -> bool {
        &&& table_sorted(self.profiles.profiles@)
        &&& self@.wf()
    }

    /// The stored names, in increasing order.
    pub closed spec fn names(&self) -> Seq<Seq<char>> {
        table_names(self.profiles.profiles@)
    }

    /// The location of the persistent configuration.
    pub closed spec fn location(&self) -> Seq<char> {
        self.path@
    }

    /// Builds a store from decoded contents at `path`, the profiles inserted
    /// in order; refuses a selection that names no stored profile.
    pub fn load(path: String, profile_active: Option<String>, profiles: Vec<(String, Profile)>) -> (r:
        Result<Self, Error>)
        ensures
            r is Err <==> (profile_active matches Some(n) && !table_map(profiles@).contains_key(n@)),
            r matches Err(e) ==> e == Error::MissingProfile,
            r matches Ok(c) ==> {
                &&& c.wf()
                &&& c@.profiles == table_map(profiles@)
                &&& c@.active == (match profile_active {
                    Some(n) => Some(n@),
                    None => None,
                })
                &&& c.location() == path@
            },
    {
        let mut table = Profiles { profile_active: None, profiles: Vec::new() };
        let mut input = profiles;
        let ghost all = input@;
        let ghost mut done: int = 0;
        assert(all.take(0) =~= Seq::<(String, Profile)>::empty());
        assert(all.skip(0) =~= all);
        while input.len() > 0
            invariant
                0 <= done <= all.len(),
                input@ == all.skip(done),
                table_sorted(table.profiles@),
                table_map(table.profiles@) == table_map(all.take(done)),
                table.profile_active is None,
            decreases input@.len(),
        {
            let (name, profile) = input.remove(0);
            proof {
                assert(all.take(done + 1).drop_last() =~= all.take(done));
                assert(all.take(done + 1).last() == all[done]);
                assert(all[done] == (name, profile));
            }
            table.insert(name, profile);
            proof {
                assert(all.skip(done).drop_first() =~= all.skip(done + 1));
                done = done + 1;
            }
        }
        assert(all.take(done) =~= all);
        match profile_active {
            Some(n) => {
                if table.get(n.as_str()).is_none() {
                    return Err(Error::MissingProfile);
                }
                table.profile_active = Some(n);
            },
            None => {},
        }
        Ok(LxpConfig { path, profiles: table })
    }

    /// Returns the selected account.
    pub fn active(&self) -> (r: Option<Profile>)
        requires
            self.wf(),
        ensures
            r == self@.active_profile(),
    {
        match &self.profiles.profile_active {
            Some(n) => match self.profiles.get(n.as_str()) {
                Some(p) => Some(p.clone()),
                None => None,
            },
            None => None,
        }
    }

    /// Saves and selects a named account; a blank name is refused.
    pub fn save(&mut self, name: String, profile: Profile) -> (r: Result<(), Error>)
        requires
            old(self).wf(),
        ensures
            final(self).wf(),
            final(self).location() == old(self).location(),
            is_blank(name@) ==> r == Err::<(), Error>(Error::EmptyName) && final(self)@ == old(self)@,
            !is_blank(name@) ==> r is Ok && final(self)@ == old(self)@.saved(name@, profile),
    {
        if blank(name.as_str()) {
            return Err(Error::EmptyName);
        }
        let selected = name.clone();
        self.profiles.insert(name, profile);
        self.profiles.profile_active = Some(selected);
        assert(self@ =~= old(self)@.saved(name@, profile));
        Ok(())
    }

    /// Selects an existing profile.
    pub fn select(&mut self, name: String) -> (r: Result<(), Error>)
        requires
            old(self).wf(),
        ensures
            final(self).wf(),
            final(self).location() == old(self).location(),
            old(self)@.profiles.contains_key(name@) ==> r is Ok && final(self)@ == old(self)@.selected(
                name@,
            ),
            !old(self)@.profiles.contains_key(name@) ==> r == Err::<(), Error>(Error::MissingProfile)
                && final(self)@ == old(self)@,
    {
        if self.profiles.get(name.as_str()).is_none() {
            return Err(Error::MissingProfile);
        }
        self.profiles.profile_active = Some(name);
        Ok(())
    }

    /// Deletes a profile; the selection is cleared only when it named the
    /// deleted profile.
    pub fn delete(&mut self, name: &str) -> (r: Result<(), Error>)
        requires
            old(self).wf(),
        ensures
            final(self).wf(),
            final(self).location() == old(self).location(),
            old(self)@.profiles.contains_key(name@) ==> r is Ok && final(self)@ == old(self)@.deleted(
                name@,
            ),
            !old(self)@.profiles.contains_key(name@) ==> r == Err::<(), Error>(Error::MissingProfile)
                && final(self)@ == old(self)@,
    {
        if !self.profiles.remove(name) {
            assert(self@.profiles =~= old(self)@.profiles);
            return Err(Error::MissingProfile);
        }
        let clear = match &self.profiles.profile_active {
            Some(n) => same_text(n.as_str(), name),
            None => false,
        };
        if clear {
            self.profiles.profile_active = None;
        }
        assert(self@ =~= old(self)@.deleted(name@));
        Ok(())
    }

    /// Deletes every profile and the selection.
    pub fn clear(&mut self)
        requires
            old(self).wf(),
        ensures
            final(self).wf(),
            final(self).location() == old(self).location(),
            final(self)@ == old(self)@.cleared(),
            final(self)@.active is None,
            forall|k: Seq<char>| !final(self)@.profiles.contains_key(k),
            final(self).names().len() == 0,
    {
        self.profiles = Profiles { profile_active: None, profiles: Vec::new() };
        assert(table_map(self.profiles.profiles@) =~= Map::<Seq<char>, Profile>::empty());
    }

    /// Lists names in increasing order, marking the selected one with `*`,
    /// without exposing authentication material.
    pub fn list(&self) -> (lines: Vec<String>)
        requires
            self.wf(),
        ensures
            lines@.len() == self.names().len(),
            forall|i: int| 0 <= i < lines@.len() ==> #[trigger] lines@[i]@ == list_line(self@.active, self.names()[i]),
            forall|i: int, j: int| 0 <= i < j < self.names().len() ==> lex_lt(#[trigger] self.names()[i], #[trigger] self.names()[j]),
            forall|k: Seq<char>| self@.profiles.contains_key(k) <==> #[trigger] self.names().contains(k),
    {
        proof {
            lemma_table_map(self.profiles.profiles@);
        }
        let ghost t = self.profiles.profiles@;
        let mut lines: Vec<String> = Vec::new();
        let mut i: usize = 0;
        while i < self.profiles.profiles.len()
            invariant
                t == self.profiles.profiles@,
                i <= t.len(),
                lines@.len() == i,
                forall|j: int| 0 <= j < i ==> #[trigger] lines@[j]@ == list_line(self@.active, t[j].0@),
            decreases t.len() - i,
        {
            let name = &self.profiles.profiles[i].0;
            let selected = match &self.profiles.profile_active {
                Some(n) => same_text(n.as_str(), name.as_str()),
                None => false,
            };
            proof {
                reveal_strlit("*");
                reveal_strlit(" ");
            }
            let mut line = if selected {
                String::from_str("*")
            } else {
                String::from_str(" ")
            };
            line.append(" ");
            line.append(name.as_str());
            lines.push(line);
            i = i + 1;
        }
        proof {
            assert forall|k: Seq<char>| self@.profiles.contains_key(k) <==> #[trigger] self.names().contains(k) by {
                if self@.profiles.contains_key(k) {
                    let j: int = choose|j: int| 0 <= j < t.len() && #[trigger] t[j].0@ == k;
                    assert(self.names()[j] == k);
                }
                if self.names().contains(k) {
                    let j: int = choose|j: int| 0 <= j < self.names().len() && self.names()[j] == k;
                    assert(t[j].0@ == k);
                }
            }
        }
        lines
    }

    /// The location of the persistent configuration.
    pub fn path(&self) -> (r: &String)
        ensures
            r@ == self.location(),
    {
        &self.path
    }

    /// The selected name, for storing the configuration.
    pub fn profile_active(&self) -> (r: Option<&String>)
        ensures
            r matches Some(n) ==> self@.active == Some(n@),
            r is None ==> self@.active is None,
    {
        match &self.profiles.profile_active {
            Some(n) => Some(n),
            None => None,
        }
    }

    /// The stored profiles in name order, for storing the configuration.
    pub fn profiles(&self) -> (r: &Vec<(String, Profile)>)
        requires
            self.wf(),
        ensures
            table_sorted(r@),
            table_map(r@) == self@.profiles,
            table_names(r@) == self.names(),
    {
        &self.profiles.profiles
    }
}

/// A well-formed store loads again from what it hands out for storing: its
/// selection names a stored profile, so loading is not refused, and the loaded
/// store has the same selection and profiles.
pub proof fn stored_store_loads_again(c: &LxpConfig, table: Seq<(String, Profile)>)
    requires
        c.wf(),
        table_map(table) == c@.profiles,
    ensures
        !(c@.active matches Some(n) && !table_map(table).contains_key(n)),
        (ConfigModel { active: c@.active, profiles: table_map(table) }) == c@,
{
}

} // verus!

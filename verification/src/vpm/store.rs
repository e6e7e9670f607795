//! The records that `vpm` keeps on disk: the lock file (`void.lock`) and the
//! saved logins (`auth.json`), as maps keyed by text.
use vstd::prelude::*;

use crate::text::trim_end_char;
use crate::vpm::names::normalize_registry;

verus! {

/// A map from text keys to values, keeping each key once.
pub struct Entries<V> {
    items: Vec<(String, V)>,
}

impl<V: View> Entries<V> {
    pub closed spec fn wf(&self) -> bool {
        forall|i: int, j: int|
            0 <= i < self.items@.len() && 0 <= j < self.items@.len() && i != j ==> (
            #[trigger] self.items@[i]).0@ != (#[trigger] self.items@[j]).0@
    }

    pub closed spec fn has(&self, k: Seq<char>) -> bool {
        exists|i: int| 0 <= i < self.items@.len() && (#[trigger] self.items@[i]).0@ == k
    }

    /// The entries, as a map.
    pub closed spec fn map(&self) -> Map<Seq<char>, V::V> {
        Map::new(
            |k: Seq<char>| self.has(k),
            |k: Seq<char>|
                self.items@[choose|i: int|
                    0 <= i < self.items@.len() && (#[trigger] self.items@[i]).0@ == k].1@,
        )
    }

    proof fn lemma_at(&self, i: int)
        requires
            self.wf(),
            0 <= i < self.items@.len(),
        ensures
            self.map().contains_key(self.items@[i].0@),
            self.map()[self.items@[i].0@] == self.items@[i].1@,
    {
        let k = self.items@[i].0@;
        assert(self.has(k));
        let j = choose|j: int| 0 <= j < self.items@.len() && (#[trigger] self.items@[j]).0@ == k;
        assert(j == i);
    }

    pub fn new() -> (e: Self)
        ensures
            e.wf(),
            e.map() == Map::<Seq<char>, V::V>::empty(),
    {
        let e = Entries { items: Vec::new() };
        assert(e.map() =~= Map::<Seq<char>, V::V>::empty());
        e
    }

    pub fn len(&self) -> (n: usize)
        requires
            self.wf(),
        ensures
            n == self.map().len(),
    {
        proof {
            self.lemma_len();
        }
        self.items.len()
    }

    proof fn lemma_len(&self)
        requires
            self.wf(),
        ensures
            self.items@.len() == self.map().len(),
    {
        let keys = self.items@.map_values(|p: (String, V)| p.0@);
        assert forall|i: int, j: int| 0 <= i < keys.len() && 0 <= j < keys.len() && i != j implies keys[i]
            != keys[j] by {
            assert(keys[i] == self.items@[i].0@);
            assert(keys[j] == self.items@[j].0@);
        }
        assert(keys.no_duplicates());
        keys.unique_seq_to_set();
        assert forall|k: Seq<char>| keys.to_set().contains(k) <==> self.map().dom().contains(k) by {
            if keys.to_set().contains(k) {
                let i = choose|i: int| 0 <= i < keys.len() && keys[i] == k;
                assert(self.items@[i].0@ == k);
            }
            if self.map().dom().contains(k) {
                let i = choose|i: int| 0 <= i < self.items@.len() && (#[trigger] self.items@[i]).0@ == k;
                assert(keys[i] == k);
            }
        }
        assert(keys.to_set() =~= self.map().dom());
    }

    fn find(&self, key: &str) -> (r: Option<usize>)
        requires
            self.wf(),
        ensures
            match r {
                Some(i) => i < self.items@.len() && self.items@[i as int].0@ == key@,
                None => !self.has(key@),
            },
    {
        let mut i: usize = 0;
        while i < self.items.len()
            invariant
                i <= self.items@.len(),
                forall|j: int| 0 <= j < i ==> (#[trigger] self.items@[j]).0@ != key@,
            decreases self.items.len() - i,
        {
            if crate::text::str_eq(self.items[i].0.as_str(), key) {
                return Some(i);
            }
            i = i + 1;
        }
        None
    }

    pub fn get(&self, key: &str) -> (r: Option<&V>)
        requires
            self.wf(),
        ensures
            match r {
                Some(v) => self.map().contains_key(key@) && self.map()[key@] == v@,
                None => !self.map().contains_key(key@),
            },
    {
        match self.find(key) {
            Some(i) => {
                proof {
                    self.lemma_at(i as int);
                }
                Some(&self.items[i].1)
            },
            None => None,
        }
    }

    /// Sets the value of `key`, replacing any value it had.
    pub fn insert(&mut self, key: String, value: V)
        requires
            old(self).wf(),
        ensures
            final(self).wf(),
            final(self).map() == old(self).map().insert(key@, value@),
    {
        let ghost k = key@;
        let ghost v = value@;
        let ghost before = *self;
        match self.find(key.as_str()) {
            Some(i) => {
                self.items.set(i, (key, value));
                proof {
                    assert forall|a: int, b: int|
                        0 <= a < self.items@.len() && 0 <= b < self.items@.len() && a != b implies (
                        #[trigger] self.items@[a]).0@ != (#[trigger] self.items@[b]).0@ by {
                        assert(before.items@[a].0@ != before.items@[b].0@);
                    }
                    assert forall|x: Seq<char>| #[trigger]
                        self.map().contains_key(x) <==> before.map().insert(k, v).contains_key(x) by {
                        if before.has(x) {
                            let j = choose|j: int|
                                0 <= j < before.items@.len() && (#[trigger] before.items@[j]).0@
                                    == x;
                            assert(self.items@[j].0@ == x);
                        }
                        if self.has(x) {
                            let j = choose|j: int|
                                0 <= j < self.items@.len() && (#[trigger] self.items@[j]).0@ == x;
                            assert(before.items@[j].0@ == x);
                        }
                    }
                    assert forall|x: Seq<char>| #[trigger]
                        self.map().contains_key(x) implies self.map()[x] == before.map().insert(
                        k,
                        v,
                    )[x] by {
                        let j = choose|j: int|
                            0 <= j < self.items@.len() && (#[trigger] self.items@[j]).0@ == x;
                        self.lemma_at(j);
                        if j != i {
                            before.lemma_at(j);
                        }
                    }
                    assert(self.map() =~= before.map().insert(k, v));
                }
            },
            None => {
                self.items.push((key, value));
                proof {
                    let n = before.items@.len() as int;
                    assert forall|a: int, b: int|
                        0 <= a < self.items@.len() && 0 <= b < self.items@.len() && a != b implies (
                        #[trigger] self.items@[a]).0@ != (#[trigger] self.items@[b]).0@ by {
                        if a < n && b < n {
                            assert(before.items@[a].0@ != before.items@[b].0@);
                        } else if a == n {
                            assert(self.items@[b] == before.items@[b]);
                        } else {
                            assert(self.items@[a] == before.items@[a]);
                        }
                    }
                    assert forall|x: Seq<char>| #[trigger]
                        self.map().contains_key(x) <==> before.map().insert(k, v).contains_key(x) by {
                        if before.has(x) {
                            let j = choose|j: int|
                                0 <= j < before.items@.len() && (#[trigger] before.items@[j]).0@
                                    == x;
                            assert(self.items@[j].0@ == x);
                        }
                        if x == k {
                            assert(self.items@[n].0@ == x);
                        }
                        if self.has(x) {
                            let j = choose|j: int|
                                0 <= j < self.items@.len() && (#[trigger] self.items@[j]).0@ == x;
                            if j < n {
                                assert(before.items@[j].0@ == x);
                            }
                        }
                    }
                    assert forall|x: Seq<char>| #[trigger]
                        self.map().contains_key(x) implies self.map()[x] == before.map().insert(
                        k,
                        v,
                    )[x] by {
                        let j = choose|j: int|
                            0 <= j < self.items@.len() && (#[trigger] self.items@[j]).0@ == x;
                        self.lemma_at(j);
                        if j < n {
                            before.lemma_at(j);
                        }
                    }
                    assert(self.map() =~= before.map().insert(k, v));
                }
            },
        }
    }

    /// Takes `key` out, giving back its value if it had one.
    pub fn remove(&mut self, key: &str) -> (r: Option<V>)
        requires
            old(self).wf(),
        ensures
            final(self).wf(),
            final(self).map() == old(self).map().remove(key@),
            match r {
                Some(v) => old(self).map().contains_key(key@) && old(self).map()[key@] == v@,
                None => !old(self).map().contains_key(key@),
            },
    {
        let ghost k = key@;
        let ghost before = *self;
        match self.find(key) {
            Some(i) => {
                proof {
                    before.lemma_at(i as int);
                }
                let (_, v) = self.items.remove(i);
                proof {
                    let n = before.items@.len() as int;
                    assert forall|j: int| 0 <= j < self.items@.len() implies #[trigger] self.items@[j]
                        == before.items@[if j < i { j } else { j + 1 }] by {}
                    assert forall|a: int, b: int|
                        0 <= a < self.items@.len() && 0 <= b < self.items@.len() && a != b implies (
                        #[trigger] self.items@[a]).0@ != (#[trigger] self.items@[b]).0@ by {
                        let a2 = if a < i { a } else { a + 1 };
                        let b2 = if b < i { b } else { b + 1 };
                        assert(before.items@[a2].0@ != before.items@[b2].0@);
                    }
                    assert forall|x: Seq<char>| #[trigger]
                        self.map().contains_key(x) <==> before.map().remove(k).contains_key(x) by {
                        if before.has(x) && x != k {
                            let j = choose|j: int|
                                0 <= j < before.items@.len() && (#[trigger] before.items@[j]).0@
                                    == x;
                            assert(j != i);
                            let j2 = if j < i { j } else { j - 1 };
                            assert(self.items@[j2] == before.items@[j]);
                        }
                        if self.has(x) {
                            let j = choose|j: int|
                                0 <= j < self.items@.len() && (#[trigger] self.items@[j]).0@ == x;
                            let j2 = if j < i { j } else { j + 1 };
                            assert(before.items@[j2].0@ == x);
                            assert(j2 != i);
                            assert(x != k);
                        }
                    }
                    assert forall|x: Seq<char>| #[trigger]
                        self.map().contains_key(x) implies self.map()[x] == before.map().remove(
                        k,
                    )[x] by {
                        let j = choose|j: int|
                            0 <= j < self.items@.len() && (#[trigger] self.items@[j]).0@ == x;
                        self.lemma_at(j);
                        let j2 = if j < i { j } else { j + 1 };
                        before.lemma_at(j2);
                    }
                    assert(self.map() =~= before.map().remove(k));
                }
                Some(v)
            },
            None => {
                assert(self.map() =~= before.map().remove(k));
                None
            },
        }
    }

    /// The keys, in the order they were first set.
    pub fn keys(&self) -> (r: Vec<String>)
        requires
            self.wf(),
        ensures
            r@.len() == self.map().len(),
            forall|i: int| 0 <= i < r@.len() ==> self.map().contains_key(#[trigger] r@[i]@),
            forall|k: Seq<char>|
                self.map().contains_key(k) ==> exists|i: int| 0 <= i < r@.len() && #[trigger] r@[i]@ == k,
    {
        proof {
            self.lemma_len();
        }
        let mut out: Vec<String> = Vec::new();
        let mut i: usize = 0;
        while i < self.items.len()
            invariant
                self.wf(),
                i <= self.items@.len(),
                out@.len() == i,
                forall|j: int| 0 <= j < i ==> #[trigger] out@[j]@ == self.items@[j].0@,
            decreases self.items.len() - i,
        {
            out.push(self.items[i].0.clone());
            i = i + 1;
        }
        proof {
            assert forall|j: int| 0 <= j < out@.len() implies self.map().contains_key(
                #[trigger] out@[j]@,
            ) by {
                self.lemma_at(j);
            }
            assert forall|k: Seq<char>| self.map().contains_key(k) implies exists|j: int|
                0 <= j < out@.len() && #[trigger] out@[j]@ == k by {
                let j = choose|j: int| 0 <= j < self.items@.len() && (#[trigger] self.items@[j]).0@ == k;
                assert(out@[j]@ == k);
            }
        }
        out
    }
}

// ---------------------------------------------------------------------------
// The lock file
// ---------------------------------------------------------------------------

/// Where an installed package came from.
pub struct LockPackage {
    pub version: String,
    pub registry: String,
    pub tarball_url: String,
    pub github_repo: String,
}

pub struct LockPackageV {
    pub version: Seq<char>,
    pub registry: Seq<char>,
    pub tarball_url: Seq<char>,
    pub github_repo: Seq<char>,
}

impl View for LockPackage {
    type V = LockPackageV;

    open spec fn view(&self) -> LockPackageV {
        LockPackageV {
            version: self.version@,
            registry: self.registry@,
            tarball_url: self.tarball_url@,
            github_repo: self.github_repo@,
        }
    }
}

/// `void.lock`: the installed packages by name.
pub struct LockFile {
    pub packages: Entries<LockPackage>,
}

impl LockFile {
    pub open spec fn wf(&self) -> bool {
        self.packages.wf()
    }

    pub open spec fn view_map(&self) -> Map<Seq<char>, LockPackageV> {
        self.packages.map()
    }

    pub fn new() -> (l: Self)
        ensures
            l.wf(),
            l.view_map() == Map::<Seq<char>, LockPackageV>::empty(),
    {
        LockFile { packages: Entries::new() }
    }

    /// Records `name` at `version` from `registry` (kept without trailing slashes).
    pub fn update(
        &mut self,
        name: &str,
        version: &str,
        registry: &str,
        tarball_url: &str,
        github_repo: &str,
    )
        requires
            old(self).wf(),
        ensures
            final(self).wf(),
            final(self).view_map() == old(self).view_map().insert(
                name@,
                LockPackageV {
                    version: version@,
                    registry: trim_end_char(registry@, '/'),
                    tarball_url: tarball_url@,
                    github_repo: github_repo@,
                },
            ),
    {
        let entry = LockPackage {
            version: String::from_str(version),
            registry: normalize_registry(registry),
            tarball_url: String::from_str(tarball_url),
            github_repo: String::from_str(github_repo),
        };
        self.packages.insert(String::from_str(name), entry);
    }

    /// Drops `name`; tells whether it was there.
    pub fn remove(&mut self, name: &str) -> (removed: bool)
        requires
            old(self).wf(),
        ensures
            final(self).wf(),
            final(self).view_map() == old(self).view_map().remove(name@),
            removed == old(self).view_map().contains_key(name@),
    {
        self.packages.remove(name).is_some()
    }
}

// ---------------------------------------------------------------------------
// Saved logins
// ---------------------------------------------------------------------------

pub struct AuthSession {
    pub token: String,
    pub username: String,
    pub saved_at: String,
}

pub struct AuthSessionV {
    pub token: Seq<char>,
    pub username: Seq<char>,
    pub saved_at: Seq<char>,
}

impl View for AuthSession {
    type V = AuthSessionV;

    open spec fn view(&self) -> AuthSessionV {
        AuthSessionV { token: self.token@, username: self.username@, saved_at: self.saved_at@ }
    }
}

impl AuthSession {
    pub fn copy(&self) -> (r: Self)
        ensures
            r@ == self@,
    {
        AuthSession {
            token: self.token.clone(),
            username: self.username.clone(),
            saved_at: self.saved_at.clone(),
        }
    }
}

/// The saved logins, one per registry (its URL without trailing slashes).
pub struct AuthStore {
    pub sessions: Entries<AuthSession>,
}

impl AuthStore {
    pub open spec fn wf(&self) -> bool {
        self.sessions.wf()
    }

    pub open spec fn view_map(&self) -> Map<Seq<char>, AuthSessionV> {
        self.sessions.map()
    }

    pub fn new() -> (s: Self)
        ensures
            s.wf(),
            s.view_map() == Map::<Seq<char>, AuthSessionV>::empty(),
    {
        AuthStore { sessions: Entries::new() }
    }

    /// Saves a login for `registry`, replacing any earlier one.
    pub fn save_auth_session(&mut self, registry: &str, username: &str, token: &str, saved_at: &str)
        requires
            old(self).wf(),
        ensures
            final(self).wf(),
            final(self).view_map() == old(self).view_map().insert(
                trim_end_char(registry@, '/'),
                AuthSessionV { token: token@, username: username@, saved_at: saved_at@ },
            ),
    {
        let session = AuthSession {
            token: String::from_str(token),
            username: String::from_str(username),
            saved_at: String::from_str(saved_at),
        };
        self.sessions.insert(normalize_registry(registry), session);
    }

    /// The login saved for `registry`, if any.
    pub fn load_auth_session(&self, registry: &str) -> (r: Option<AuthSession>)
        requires
            self.wf(),
        ensures
            match r {
                Some(s) => self.view_map().contains_key(trim_end_char(registry@, '/'))
                    && self.view_map()[trim_end_char(registry@, '/')] == s@,
                None => !self.view_map().contains_key(trim_end_char(registry@, '/')),
            },
    {
        let key = normalize_registry(registry);
        match self.sessions.get(key.as_str()) {
            Some(s) => Some(s.copy()),
            None => None,
        }
    }

    /// Forgets the login for `registry`; tells whether there was one.
    pub fn remove_auth_session(&mut self, registry: &str) -> (removed: bool)
        requires
            old(self).wf(),
        ensures
            final(self).wf(),
            final(self).view_map() == old(self).view_map().remove(trim_end_char(registry@, '/')),
            removed == old(self).view_map().contains_key(trim_end_char(registry@, '/')),
    {
        let key = normalize_registry(registry);
        self.sessions.remove(key.as_str()).is_some()
    }
}

/// A login saved for a registry is what a later load for that registry gives
/// back, whatever trailing slashes either URL has.
pub proof fn law_load_after_save(
    store: Map<Seq<char>, AuthSessionV>,
    saved_for: Seq<char>,
    loaded_for: Seq<char>,
    session: AuthSessionV,
)
    requires
        trim_end_char(saved_for, '/') == trim_end_char(loaded_for, '/'),
    ensures
        store.insert(trim_end_char(saved_for, '/'), session).contains_key(
            trim_end_char(loaded_for, '/'),
        ),
        store.insert(trim_end_char(saved_for, '/'), session)[trim_end_char(loaded_for, '/')]
            == session,
{
}

/// After a logout from a registry no login is left for it, and the logins for
/// other registries are untouched.
pub proof fn law_logout_forgets(
    store: Map<Seq<char>, AuthSessionV>,
    registry: Seq<char>,
    other: Seq<char>,
)
    requires
        trim_end_char(other, '/') != trim_end_char(registry, '/'),
    ensures
        !store.remove(trim_end_char(registry, '/')).contains_key(trim_end_char(registry, '/')),
        store.remove(trim_end_char(registry, '/')).contains_key(trim_end_char(other, '/'))
            == store.contains_key(trim_end_char(other, '/')),
        store.contains_key(trim_end_char(other, '/')) ==> store.remove(
            trim_end_char(registry, '/'),
        )[trim_end_char(other, '/')] == store[trim_end_char(other, '/')],
{
}

/// Removing a package just recorded in the lock file leaves the file as it
/// was without that package.
pub proof fn law_remove_undoes_update(
    lock: Map<Seq<char>, LockPackageV>,
    name: Seq<char>,
    entry: LockPackageV,
)
    ensures
        lock.insert(name, entry).remove(name) == lock.remove(name),
{
    assert(lock.insert(name, entry).remove(name) =~= lock.remove(name));
}

} // verus!

use std::collections::HashMap;
use vstd::prelude::*;
use vstd::string::StringExecFns;
use vstd::std_specs::hash::{axiom_spec_hash_map_iter, spec_hash_map_iter};
use vstd::std_specs::iter::IteratorSpec;

use crate::errors::{LocketError, StoreError};
use crate::ids::{draw_id, is_random_id};
use crate::outcome::CreateOutcome;
use crate::wire::{debug_text, quoted};

verus! {

broadcast use vstd::std_specs::hash::group_hash_axioms;

/// One stored credential. The three fields are kept exactly as given.
#[derive(Debug)]
pub struct Login {
    pub name: String,
    pub username: String,
    pub password: String,
}

/// What a [`Login`] holds, as plain character sequences.
pub struct LoginView {
    pub name: Seq<char>,
    pub username: Seq<char>,
    pub password: Seq<char>,
}

impl View for Login {
    type V = LoginView;

    open spec fn view(&self) -> LoginView {
        LoginView { name: self.name@, username: self.username@, password: self.password@ }
    }
}

/// The line that shows a record on the console.
pub open spec fn description(login: LoginView) -> Seq<char> {
    "Login { name: "@ + debug_text(login.name) + ", username: "@ + debug_text(login.username)
        + " }"@
}

impl Login {
    /// Builds a record from its three fields, unchanged.
    pub fn new(name: String, username: String, password: String) -> (login: Login)
        ensures
            login.name == name,
            login.username == username,
            login.password == password,
    {
        Login { name, username, password }
    }

    /// The name, by which a record is searched.
    pub fn name(&self) -> (name: &str)
        ensures
            name@ == self@.name,
    {
        self.name.as_str()
    }

    /// The record in one line for the console: its name and user name,
    /// quoted, and never its password.
    pub fn describe(&self) -> (text: String)
        ensures
            text@ == description(self@),
    {
        let mut text = "Login { name: ".to_owned();
        text.append(quoted(self.name.as_str()).as_str());
        text.append(", username: ");
        text.append(quoted(self.username.as_str()).as_str());
        text.append(" }");
        text
    }

    /// A second record with the same three texts.
    pub fn duplicate(&self) -> (copy: Login)
        ensures
            copy@ == self@,
    {
        Login {
            name: self.name.clone(),
            username: self.username.clone(),
            password: self.password.clone(),
        }
    }
}

/// Where the store's file is, and on which port the server listens.
#[derive(Debug)]
pub struct Config {
    pub path: String,
    pub port: u16,
}

/// The port that is offered when the user is asked for one.
pub const DEFAULT_PORT: u16 = 56423;

/// Whether the user may enter this port: any but 0 and the largest.
pub open spec fn port_allowed(port: u16) -> bool {
    0 < port && port < u16::MAX
}

impl Config {
    /// A configuration for the store at `path` and the server on `port`.
    pub fn new(path: &str, port: u16) -> (config: Config)
        ensures
            config.path@ == path@,
            config.port == port,
    {
        Config { path: path.to_owned(), port }
    }

    /// Judges a port that the user entered.
    pub fn check_port(port: u16) -> (verdict: Result<(), &'static str>)
        ensures
            verdict is Ok <==> port_allowed(port),
            verdict matches Err(why) ==> why@ == "Not a valid port number"@,
    {
        if 0 < port && port < u16::MAX {
            Ok(())
        } else {
            Err("Not a valid port number")
        }
    }

    /// Whether a configuration file may be written: only where none exists
    /// yet.
    pub fn init(exists: bool) -> (go: Result<(), LocketError>)
        ensures
            !exists ==> go is Ok,
            exists ==> go == Err::<(), LocketError>(LocketError::ConfigAlreadyExistsError),
    {
        if exists {
            Err(LocketError::ConfigAlreadyExistsError)
        } else {
            Ok(())
        }
    }
}

/// Whether the store holds a record under an identifier of the random form,
/// which is the form of every identifier that is drawn.
pub open spec fn holds_random_id(store: Map<u128, LoginView>) -> bool {
    exists|id: u128| is_random_id(id) && #[trigger] store.contains_key(id)
}

/// The collection of records together with the file it is bound to.
///
/// Records are keyed by a 128-bit identifier that the store draws itself when
/// a record is added; a caller never chooses one.
#[derive(Debug)]
pub struct Database {
    pub logins: HashMap<u128, Login>,
    pub path: String,
}

impl View for Database {
    type V = Map<u128, LoginView>;

    /// The records by identifier; the path is not part of the collection.
    open spec fn view(&self) -> Map<u128, LoginView> {
        self.logins@.map_values(|login: Login| login@)
    }
}

impl Database {
    /// A store bound to `path` after an attempt to create its file anew.
    ///
    /// Only a file that this attempt created gives a store, and that store is
    /// empty. A file that was already there is reported as such, and any other
    /// failure is handed on with the system's message.
    pub fn init(path: &str, created: CreateOutcome) -> (store: Result<Database, StoreError>)
        ensures
            match created {
                CreateOutcome::Created => (store matches Ok(db) && db@ == Map::<u128, LoginView>::empty()
                    && db.path@ == path@),
                CreateOutcome::AlreadyExists => (store matches Err(StoreError::AlreadyExists(e))
                    && e == LocketError::DatabaseAlreadyExistsError),
                CreateOutcome::Failed(why) => (store matches Err(StoreError::Io(text)) && text == why),
            },
    {
        match created {
            CreateOutcome::Created => {
                let db = Database { logins: HashMap::new(), path: path.to_owned() };
                assert(db@ =~= Map::<u128, LoginView>::empty());
                Ok(db)
            },
            CreateOutcome::AlreadyExists => Err(
                StoreError::AlreadyExists(LocketError::DatabaseAlreadyExistsError),
            ),
            CreateOutcome::Failed(why) => Err(StoreError::Io(why)),
        }
    }

    /// How many records the store holds.
    pub fn len(&self) -> (n: usize)
        ensures
            n == self@.len(),
    {
        proof {
            lemma_view_dom(self.logins@);
        }
        self.logins.len()
    }

    /// Whether `id` names a record of the store.
    pub fn contains(&self, id: u128) -> (found: bool)
        ensures
            found == self@.contains_key(id),
    {
        self.logins.contains_key(&id)
    }

    /// The record that `id` names, if there is one.
    pub fn get(&self, id: u128) -> (found: Option<&Login>)
        ensures
            match found {
                Some(login) => self@.contains_key(id) && self@[id] == login@,
                None => !self@.contains_key(id),
            },
    {
        self.logins.get(&id)
    }

    /// Puts `login` under `id`, unless `id` is taken.
    ///
    /// With a free identifier the store gains exactly this record and the
    /// identifier is returned. With one in use nothing changes and the
    /// collision is reported.
    pub fn insert_with_id(&mut self, id: u128, login: Login) -> (added: Result<u128, StoreError>)
        ensures
            final(self).path == old(self).path,
            match added {
                Ok(given) => given == id && !old(self)@.contains_key(id)
                    && final(self)@ == old(self)@.insert(id, login@),
                Err(e) => e is IdCollision && old(self)@.contains_key(id)
                    && final(self)@ == old(self)@,
            },
    {
        if self.logins.contains_key(&id) {
            Err(StoreError::IdCollision)
        } else {
            self.logins.insert(id, login);
            assert(self@ =~= old(self)@.insert(id, login@));
            Ok(id)
        }
    }

    /// Adds `login` under a newly drawn identifier and returns that identifier.
    ///
    /// The identifier is random. Should it already be in use, which its size
    /// makes all but impossible, the store is left as it was and the collision
    /// is reported. That is the only way to fail: a store that holds no
    /// identifier of the random form, such as an empty one, always takes the
    /// record.
    pub fn add_login(&mut self, login: Login) -> (added: Result<u128, StoreError>)
        ensures
            final(self).path == old(self).path,
            match added {
                Ok(id) => is_random_id(id) && !old(self)@.contains_key(id)
                    && final(self)@ == old(self)@.insert(id, login@),
                Err(e) => e is IdCollision && final(self)@ == old(self)@ && holds_random_id(
                    old(self)@,
                ),
            },
    {
        let id = draw_id();
        let added = self.insert_with_id(id, login);
        proof {
            if added is Err {
                assert(is_random_id(id) && old(self)@.contains_key(id));
            }
        }
        added
    }

    /// Takes the record that `id` names out of the store and returns it.
    ///
    /// An unknown identifier is no error: nothing changes and `None` is
    /// returned.
    pub fn remove(&mut self, id: u128) -> (removed: Option<Login>)
        ensures
            final(self).path == old(self).path,
            final(self)@ == old(self)@.remove(id),
            match removed {
                Some(login) => old(self)@.contains_key(id) && login@ == old(self)@[id],
                None => !old(self)@.contains_key(id),
            },
    {
        let removed = self.logins.remove(&id);
        assert(self@ =~= old(self)@.remove(id));
        removed
    }

    /// Removes the record that the user picked from a list of identifiers.
    ///
    /// `choice` is the place in `options` that was picked, if any. Without
    /// a choice, or with one beyond the list, nothing is removed.
    pub fn remove_selected(&mut self, options: &Vec<u128>, choice: Option<usize>) -> (removed:
        Option<Login>)
        ensures
            final(self).path == old(self).path,
            match choice {
                Some(at) => if at < options.len() {
                    &&& final(self)@ == old(self)@.remove(options@[at as int])
                    &&& match removed {
                        Some(login) => old(self)@.contains_key(options@[at as int]) && login@
                            == old(self)@[options@[at as int]],
                        None => !old(self)@.contains_key(options@[at as int]),
                    }
                } else {
                    removed is None && final(self)@ == old(self)@
                },
                None => removed is None && final(self)@ == old(self)@,
            },
    {
        match choice {
            Some(at) => {
                if at < options.len() {
                    self.remove(options[at])
                } else {
                    None
                }
            },
            None => None,
        }
    }
}

/// The identifiers of a listing, in its order.
pub open spec fn ids_of(listing: Seq<(u128, &Login)>) -> Seq<u128> {
    listing.map_values(|entry: (u128, &Login)| entry.0)
}

/// Whether `ids` names every record of `store` exactly once.
pub open spec fn lists_all(store: Map<u128, LoginView>, ids: Seq<u128>) -> bool {
    &&& ids.no_duplicates()
    &&& forall|id: u128| ids.contains(id) <==> store.contains_key(id)
}

impl Database {
    /// Every record of the store with its identifier, each exactly once, in
    /// no particular order.
    pub fn entries(&self) -> (all: Vec<(u128, &Login)>)
        ensures
            lists_all(self@, ids_of(all@)),
            all.len() == self@.len(),
            forall|i: int| 0 <= i < all.len() ==> (#[trigger] all[i]).1@ == self@[all[i].0],
    {
        let mut all: Vec<(u128, &Login)> = Vec::new();
        let ghost listed = spec_hash_map_iter(&self.logins).remaining();
        proof {
            axiom_spec_hash_map_iter(&self.logins);
        }
        for pair in it: self.logins.iter()
            invariant
                it.seq() == listed,
                listed.no_duplicates(),
                all.len() == it.index(),
                forall|k: int|
                    0 <= k < all.len() ==> (#[trigger] all@[k]).0 == *listed[k].0 && all@[k].1
                        == listed[k].1,
        {
            let (id, login) = pair;
            all.push((*id, login));
        }
        proof {
            lemma_view_dom(self.logins@);
            let ids = ids_of(all@);
            assert forall|a: int, b: int| 0 <= a < ids.len() && 0 <= b < ids.len() && a != b implies ids[a] != ids[b] by {
                if ids[a] == ids[b] {
                    assert(self.logins@[*listed[a].0] == *listed[a].1);
                    assert(self.logins@[*listed[b].0] == *listed[b].1);
                    assert(listed[a] == listed[b]);
                }
            }
            assert forall|id: u128| ids.contains(id) <==> self@.contains_key(id) by {
                if ids.contains(id) {
                    let at = choose|at: int| 0 <= at < ids.len() && ids[at] == id;
                    assert(self.logins@.contains_key(*listed[at].0));
                }
                if self@.contains_key(id) {
                    assert(self.logins@.contains_key(id));
                    assert(listed.contains((&id, &self.logins@[id])));
                    let at = choose|at: int|
                        0 <= at < listed.len() && listed[at] == (&id, &self.logins@[id]);
                    assert(ids[at] == id);
                }
            }
            assert forall|i: int| 0 <= i < all.len() implies (#[trigger] all[i]).1@ == self@[all[i].0] by {
                assert(self.logins@.contains_key(*listed[i].0));
                assert(self.logins@[*listed[i].0] == *listed[i].1);
            }
        }
        all
    }
}

/// The contents of the given records, in their order.
pub open spec fn views_of(logins: Seq<Login>) -> Seq<LoginView> {
    logins.map_values(|login: Login| login@)
}

/// The store after each of `logins` was put under the identifier at the same
/// place in `ids`, one after the other.
pub open spec fn with_all(
    store: Map<u128, LoginView>,
    ids: Seq<u128>,
    logins: Seq<LoginView>,
) -> Map<u128, LoginView>
    decreases ids.len(),
{
    if ids.len() == 0 || logins.len() == 0 {
        store
    } else {
        with_all(store, ids.drop_last(), logins.drop_last()).insert(ids.last(), logins.last())
    }
}

/// Whether `after` is `before` with each of `logins` added under the
/// identifier at the same place in `ids`, all of them new and distinct.
pub open spec fn added_under(
    before: Map<u128, LoginView>,
    after: Map<u128, LoginView>,
    ids: Seq<u128>,
    logins: Seq<LoginView>,
) -> bool {
    &&& ids.len() == logins.len()
    &&& ids.no_duplicates()
    &&& forall|i: int| 0 <= i < ids.len() ==> !before.contains_key(#[trigger] ids[i])
    &&& after == with_all(before, ids, logins)
}

/// Whether a record can be added under each of `ids`: there is one
/// identifier for each of the `count` records, none occurs twice, and none is
/// in use.
pub open spec fn can_add(store: Map<u128, LoginView>, ids: Seq<u128>, count: int) -> bool {
    &&& ids.len() == count
    &&& ids.no_duplicates()
    &&& forall|i: int| 0 <= i < ids.len() ==> !store.contains_key(#[trigger] ids[i])
}

impl Database {
    /// Adds every one of `logins`, each under the identifier at the same
    /// place in `ids`, and returns the identifiers.
    ///
    /// Nothing is changed unless everything can be added: there must be one
    /// identifier for each record, no identifier twice, and none that is in
    /// use. Otherwise the store is left as it was and the collision is
    /// reported.
    pub fn append_with_ids(&mut self, ids: Vec<u128>, logins: Vec<Login>) -> (added: Result<
        Vec<u128>,
        StoreError,
    >)
        ensures
            final(self).path == old(self).path,
            added is Ok <==> can_add(old(self)@, ids@, logins.len() as int),
            match added {
                Ok(given) => given@ == ids@ && added_under(
                    old(self)@,
                    final(self)@,
                    ids@,
                    views_of(logins@),
                ),
                Err(e) => e is IdCollision && final(self)@ == old(self)@,
            },
    {
        if ids.len() != logins.len() {
            return Err(StoreError::IdCollision);
        }
        let mut i: usize = 0;
        while i < ids.len()
            invariant
                0 <= i <= ids.len(),
                *self == *old(self),
                ids@.take(i as int).no_duplicates(),
                forall|k: int| 0 <= k < i ==> !old(self)@.contains_key(#[trigger] ids@[k]),
            decreases ids.len() - i,
        {
            let id = ids[i];
            if self.contains(id) {
                return Err(StoreError::IdCollision);
            }
            let mut j: usize = 0;
            while j < i
                invariant
                    0 <= j <= i < ids.len(),
                    id == ids@[i as int],
                    forall|k: int| 0 <= k < j ==> ids@[k] != id,
                decreases i - j,
            {
                if ids[j] == id {
                    return Err(StoreError::IdCollision);
                }
                j = j + 1;
            }
            i = i + 1;
        }
        proof {
            assert(ids@.take(ids.len() as int) =~= ids@);
        }
        let ghost views = views_of(logins@);
        let mut at: usize = 0;
        for login in it: logins
            invariant
                at == it.index(),
                it.seq() == logins@,
                ids.len() == logins.len(),
                ids@.no_duplicates(),
                views == views_of(logins@),
                self.path == old(self).path,
                forall|k: int| 0 <= k < ids.len() ==> !old(self)@.contains_key(#[trigger] ids@[k]),
                self@ == with_all(old(self)@, ids@.take(at as int), views.take(at as int)),
        {
            let id = ids[at];
            proof {
                lemma_with_all_dom(old(self)@, ids@.take(at as int), views.take(at as int), id);
                assert(!ids@.take(at as int).contains(id));
                assert(ids@.take(at + 1).drop_last() =~= ids@.take(at as int));
                assert(views.take(at + 1).drop_last() =~= views.take(at as int));
                assert(views.take(at + 1).last() == login@);
            }
            let _ = self.insert_with_id(id, login);
            at = at + 1;
        }
        proof {
            assert(ids@.take(ids.len() as int) =~= ids@);
            assert(views.take(views.len() as int) =~= views);
        }
        Ok(ids)
    }

    /// Adds every one of `logins`, each under an identifier of its own, and
    /// returns the identifiers in the order of the records.
    ///
    /// All identifiers are drawn before anything is changed, and the records
    /// are added as [`Database::append_with_ids`] says. Should a drawn
    /// identifier be in use already, or be drawn twice, the store is left as
    /// it was and the collision is reported. A single record fails only on
    /// an identifier that is in use; no record at all never fails.
    pub fn append_logins(&mut self, logins: Vec<Login>) -> (added: Result<Vec<u128>, StoreError>)
        ensures
            final(self).path == old(self).path,
            logins.len() == 0 ==> added is Ok,
            match added {
                Ok(ids) => added_under(old(self)@, final(self)@, ids@, views_of(logins@)),
                Err(e) => e is IdCollision && final(self)@ == old(self)@ && (logins.len() >= 2
                    || holds_random_id(old(self)@)),
            },
    {
        let mut ids: Vec<u128> = Vec::new();
        let mut i: usize = 0;
        while i < logins.len()
            invariant
                0 <= i <= logins.len(),
                ids.len() == i,
                forall|k: int| 0 <= k < ids.len() ==> is_random_id(#[trigger] ids@[k]),
            decreases logins.len() - i,
        {
            ids.push(draw_id());
            i = i + 1;
        }
        let ghost drawn = ids@;
        let added = self.append_with_ids(ids, logins);
        proof {
            if added is Err && drawn.len() == 1 {
                assert(is_random_id(drawn[0]));
                assert(old(self)@.contains_key(drawn[0]));
            }
        }
        added
    }
}

/// After [`with_all`] the store holds what it held before and the given
/// identifiers, and nothing else.
pub proof fn lemma_with_all_dom(
    store: Map<u128, LoginView>,
    ids: Seq<u128>,
    logins: Seq<LoginView>,
    id: u128,
)
    requires
        ids.len() == logins.len(),
    ensures
        with_all(store, ids, logins).contains_key(id) <==> store.contains_key(id) || ids.contains(
            id,
        ),
    decreases ids.len(),
{
    if ids.len() > 0 {
        lemma_with_all_dom(store, ids.drop_last(), logins.drop_last(), id);
        if ids.contains(id) {
            let at = choose|at: int| 0 <= at < ids.len() && ids[at] == id;
            if at < ids.len() - 1 {
                assert(ids.drop_last()[at] == id);
            }
        }
        if ids.drop_last().contains(id) {
            let at = choose|at: int| 0 <= at < ids.drop_last().len() && ids.drop_last()[at] == id;
            assert(ids[at] == id);
        }
    }
}

/// What [`with_all`] comes to for identifiers that are distinct and new: the
/// store grows by one record for each, every record is found under its
/// identifier, and what was there before is there unchanged.
pub proof fn lemma_with_all_holds(
    store: Map<u128, LoginView>,
    ids: Seq<u128>,
    logins: Seq<LoginView>,
)
    requires
        ids.len() == logins.len(),
        ids.no_duplicates(),
        forall|i: int| 0 <= i < ids.len() ==> !store.contains_key(#[trigger] ids[i]),
        store.dom().finite(),
    ensures
        with_all(store, ids, logins).dom().finite(),
        with_all(store, ids, logins).len() == store.len() + ids.len(),
        forall|i: int|
            0 <= i < ids.len() ==> with_all(store, ids, logins).contains_key(#[trigger] ids[i])
                && with_all(store, ids, logins)[ids[i]] == logins[i],
        forall|id: u128| #[trigger]
            store.contains_key(id) ==> with_all(store, ids, logins).contains_key(id) && with_all(
                store,
                ids,
                logins,
            )[id] == store[id],
    decreases ids.len(),
{
    if ids.len() > 0 {
        let head = ids.drop_last();
        let rest = logins.drop_last();
        let earlier = with_all(store, head, rest);
        assert forall|i: int| 0 <= i < head.len() implies !store.contains_key(
            #[trigger] head[i],
        ) by {
            assert(head[i] == ids[i]);
        }
        lemma_with_all_holds(store, head, rest);
        lemma_with_all_dom(store, head, rest, ids.last());
        assert(!head.contains(ids.last())) by {
            if head.contains(ids.last()) {
                let at = choose|at: int| 0 <= at < head.len() && head[at] == ids.last();
                assert(ids[at] == ids[ids.len() - 1]);
            }
        }
        assert(!store.contains_key(ids[ids.len() - 1]));
        assert(!earlier.contains_key(ids.last()));
        let after = with_all(store, ids, logins);
        assert(after == earlier.insert(ids.last(), logins.last()));
        assert forall|i: int| 0 <= i < ids.len() implies after.contains_key(#[trigger] ids[i])
            && after[ids[i]] == logins[i] by {
            if i < head.len() {
                assert(head[i] == ids[i]);
                assert(rest[i] == logins[i]);
                assert(earlier.contains_key(head[i]));
            }
        }
    }
}

/// An identifier that names no record names none after a record was added
/// under another identifier or a record was removed.
pub proof fn lemma_absent_stays_absent(
    store: Map<u128, LoginView>,
    id: u128,
    other: u128,
    login: LoginView,
)
    requires
        !store.contains_key(id),
        other != id,
    ensures
        !store.insert(other, login).contains_key(id),
        !store.remove(other).contains_key(id),
        !store.remove(id).contains_key(id),
        store.remove(id) == store,
{
    assert(store.remove(id) =~= store);
}

/// Removing the same identifier a second time finds nothing and changes
/// nothing.
pub proof fn lemma_remove_twice(store: Map<u128, LoginView>, id: u128)
    ensures
        !store.remove(id).contains_key(id),
        store.remove(id).remove(id) == store.remove(id),
{
    assert(store.remove(id).remove(id) =~= store.remove(id));
}

/// Viewing the records keeps the identifiers.
pub proof fn lemma_view_dom(logins: Map<u128, Login>)
    ensures
        logins.map_values(|login: Login| login@).dom() == logins.dom(),
{
    assert(logins.map_values(|login: Login| login@).dom() =~= logins.dom());
}

} // verus!

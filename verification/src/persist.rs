use std::collections::HashMap;
use vstd::prelude::*;

use crate::codec::{decoded, encoded, pack, unpack};
use crate::errors::StoreError;
use crate::models::{ids_of, lemma_view_dom, lists_all, Database, LoginView};
use crate::outcome::{ReadOutcome, WriteOutcome};

verus! {

broadcast use vstd::std_specs::hash::group_hash_axioms;

/// The records that a file with the given content stands for: none for an
/// empty file, else what the bytes decode to, if they decode.
pub open spec fn stored_records(content: Seq<u8>) -> Option<Map<u128, LoginView>> {
    if content.len() == 0 {
        Some(Map::empty())
    } else {
        decoded(content)
    }
}

/// The content that a sync of `store` gives the file: the encoding of the
/// records, where there is one and it stands for exactly these records.
pub open spec fn sync_content(store: Map<u128, LoginView>) -> Option<Seq<u8>> {
    match encoded(store) {
        Some(content) => if stored_records(content) == Some(store) {
            Some(content)
        } else {
            None
        },
        None => None,
    }
}

impl Database {
    /// The store that the content of a file stands for, bound to `path`.
    ///
    /// An empty file is an empty store. Any other content must decode as a
    /// whole; if it does not, nothing is loaded.
    pub fn from_bytes(path: &str, content: &[u8]) -> (store: Result<Database, StoreError>)
        ensures
            match store {
                Ok(db) => stored_records(content@) == Some(db@) && db.path@ == path@,
                Err(e) => e is Malformed && stored_records(content@) is None,
            },
    {
        if content.len() == 0 {
            let db = Database { logins: HashMap::new(), path: path.to_owned() };
            assert(db@ =~= Map::<u128, LoginView>::empty());
            Ok(db)
        } else {
            match unpack(content) {
                Ok(logins) => Ok(Database { logins, path: path.to_owned() }),
                Err(_) => Err(StoreError::Malformed),
            }
        }
    }

    /// The store bound to `path` after an attempt to read its file.
    ///
    /// A missing file is reported, never made up for. A file that was read
    /// is loaded as [`Database::from_bytes`] says.
    pub fn open(path: &str, read: ReadOutcome) -> (store: Result<Database, StoreError>)
        ensures
            match read {
                ReadOutcome::Content(bytes) => match store {
                    Ok(db) => stored_records(bytes@) == Some(db@) && db.path@ == path@,
                    Err(e) => e is Malformed && stored_records(bytes@) is None,
                },
                ReadOutcome::NotFound => store matches Err(StoreError::NotFound),
                ReadOutcome::Failed(why) => (store matches Err(StoreError::Io(text)) && text == why),
            },
    {
        match read {
            ReadOutcome::Content(bytes) => Database::from_bytes(path, bytes.as_slice()),
            ReadOutcome::NotFound => Err(StoreError::NotFound),
            ReadOutcome::Failed(why) => Err(StoreError::Io(why)),
        }
    }

    /// What became of a sync, after the attempt to replace the file.
    pub fn written(outcome: WriteOutcome) -> (done: Result<(), StoreError>)
        ensures
            match outcome {
                WriteOutcome::Written => done is Ok,
                WriteOutcome::Failed(why) => (done matches Err(StoreError::Io(text)) && text
                    == why),
            },
    {
        match outcome {
            WriteOutcome::Written => Ok(()),
            WriteOutcome::Failed(why) => Err(StoreError::Io(why)),
        }
    }

    /// Whether two stores hold the same records under the same identifiers.
    pub fn same_records(&self, other: &Database) -> (same: bool)
        ensures
            same == (self@ == other@),
    {
        if self.len() != other.len() {
            return false;
        }
        let all = self.entries();
        let mut i: usize = 0;
        while i < all.len()
            invariant
                0 <= i <= all.len(),
                lists_all(self@, ids_of(all@)),
                forall|k: int| 0 <= k < all.len() ==> (#[trigger] all@[k]).1@ == self@[all@[k].0],
                forall|k: int|
                    0 <= k < i ==> other@.contains_key((#[trigger] all@[k]).0) && other@[all@[k].0]
                        == all@[k].1@,
            decreases all.len() - i,
        {
            match other.get(all[i].0) {
                Some(login) => {
                    let mine = all[i].1;
                    if !(mine.name == login.name && mine.username == login.username
                        && mine.password == login.password) {
                        proof {
                            assert(ids_of(all@)[i as int] == all@[i as int].0);
                            assert(ids_of(all@).contains(all@[i as int].0));
                            assert(self@[all@[i as int].0] != other@[all@[i as int].0]);
                        }
                        return false;
                    }
                },
                None => {
                    proof {
                        assert(ids_of(all@)[i as int] == all@[i as int].0);
                        assert(ids_of(all@).contains(all@[i as int].0));
                    }
                    return false;
                },
            }
            i = i + 1;
        }
        proof {
            lemma_view_dom(self.logins@);
            lemma_view_dom(other.logins@);
            assert forall|id: u128| self@.contains_key(id) implies other@.contains_key(id)
                && other@[id] == self@[id] by {
                assert(ids_of(all@).contains(id));
                let at = choose|at: int| 0 <= at < all.len() && ids_of(all@)[at] == id;
                assert(all@[at].0 == id);
            }
            assert forall|id: u128| self@.dom().contains(id) implies other@.dom().contains(id) by {
                assert(ids_of(all@).contains(id));
                let at = choose|at: int| 0 <= at < all.len() && ids_of(all@)[at] == id;
                assert(other@.contains_key(all@[at].0));
            }
            assert(self@.dom().subset_of(other@.dom()));
            vstd::set_lib::lemma_subset_equality(self@.dom(), other@.dom());
            assert(self@ =~= other@);
        }
        true
    }

    /// The bytes that the file must hold for the store to be found again as
    /// it is now.
    ///
    /// The collection is encoded as a whole and the result is read back
    /// before it is handed out. The bytes come back exactly if the records
    /// encode and the encoding stands for these records again; they are then
    /// the whole new content of the file.
    pub fn sync(&self) -> (bytes: Result<Vec<u8>, StoreError>)
        ensures
            match bytes {
                Ok(content) => sync_content(self@) == Some(content@),
                Err(e) => e is Unencodable && sync_content(self@) is None,
            },
    {
        match pack(self) {
            Ok(content) => {
                match Database::from_bytes(self.path.as_str(), content.as_slice()) {
                    Ok(back) => {
                        if self.same_records(&back) {
                            Ok(content)
                        } else {
                            Err(StoreError::Unencodable)
                        }
                    },
                    Err(_) => Err(StoreError::Unencodable),
                }
            },
            Err(_) => Err(StoreError::Unencodable),
        }
    }
}

/// Writing a store and reading the file again gives the same records.
///
/// The content that [`Database::sync`] hands out for the records `written`
/// is content on which [`Database::from_bytes`] does not fail, and what it
/// loads is exactly what was written.
pub proof fn lemma_sync_then_open(written: Map<u128, LoginView>, content: Seq<u8>)
    requires
        sync_content(written) == Some(content),
    ensures
        stored_records(content) == Some(written),
{
}

/// A file without content stands for a store without records.
pub proof fn lemma_empty_file_is_empty_store(content: Seq<u8>)
    requires
        content.len() == 0,
    ensures
        stored_records(content) == Some(Map::<u128, LoginView>::empty()),
{
}

} // verus!

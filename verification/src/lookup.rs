//! The user lookup table: a mapping from user identifier to an optional
//! user record, where a present-but-empty entry models "reserved but not
//! yet populated". Built once before a merge and read-only during it;
//! its view is the finite map the entries denote, later entries for the
//! same identifier shadowing earlier ones.

use vstd::prelude::*;
use crate::records::UserRecord;
use crate::records::UserRecordView;
use crate::records::opt_user_view;
use crate::text::str_eq;

verus! {

/// One stored entry: a user identifier and the record reserved for it.
pub struct LookupEntry {
    pub id: String,
    pub user: Option<UserRecord>,
}

/// The finite map a run of entries denotes, later entries shadowing
/// earlier ones with the same identifier.
pub open spec fn map_of(s: Seq<LookupEntry>) -> Map<Seq<char>, Option<UserRecordView>>
    decreases s.len(),
{
    if s.len() == 0 {
        Map::<Seq<char>, Option<UserRecordView>>::empty()
    } else {
        map_of(s.drop_last()).insert(s.last().id@, opt_user_view(s.last().user))
    }
}

/// A mapping from user identifier to an optional user record.
pub struct UserIdLookup {
    entries: Vec<LookupEntry>,
}

impl View for UserIdLookup {
    type V = Map<Seq<char>, Option<UserRecordView>>;

    closed spec fn view(&self) -> Map<Seq<char>, Option<UserRecordView>> {
        map_of(self.entries@)
    }
}

proof fn lemma_map_of_match(s: Seq<LookupEntry>, j: int, key: Seq<char>)
    requires
        0 <= j < s.len(),
        s[j].id@ == key,
        forall|k: int| j < k < s.len() ==> s[k].id@ != key,
    ensures
        map_of(s).contains_key(key),
        map_of(s)[key] == opt_user_view(s[j].user),
    decreases s.len(),
{
    if j == s.len() - 1 {
        assert(s.last() == s[j]);
    } else {
        assert(s.last().id@ != key);
        lemma_map_of_match(s.drop_last(), j, key);
    }
}

proof fn lemma_map_of_no_match(s: Seq<LookupEntry>, key: Seq<char>)
    requires
        forall|k: int| 0 <= k < s.len() ==> s[k].id@ != key,
    ensures
        !map_of(s).contains_key(key),
    decreases s.len(),
{
    if s.len() != 0 {
        lemma_map_of_no_match(s.drop_last(), key);
    }
}

impl UserIdLookup {
    /// A fresh, empty lookup: its map holds no identifier.
    pub fn new() -> (r: Self)
        ensures
            r@ == Map::<Seq<char>, Option<UserRecordView>>::empty(),
    {
        UserIdLookup { entries: Vec::new() }
    }

    /// Binds `id` to `user`, replacing any earlier binding of the same
    /// identifier.
    pub fn insert(&mut self, id: String, user: Option<UserRecord>)
        ensures
            final(self)@ == old(self)@.insert(id@, opt_user_view(user)),
    {
        let ghost before = self.entries@;
        self.entries.push(LookupEntry { id, user });
        proof {
            assert(self.entries@.drop_last() =~= before);
        }
    }

    /// Looks an author identifier up and hands back a copy of its
    /// populated record. The result is empty exactly when the identifier
    /// is unknown or its entry is still unpopulated — the two conditions
    /// a merge treats as an integrity violation.
    pub fn resolve(&self, id: &str) -> (r: Option<UserRecord>)
        ensures
            match r {
                Some(u) => self@.contains_key(id@) && self@[id@] == Some(u@),
                None => !(self@.contains_key(id@) && self@[id@] is Some),
            },
    {
        let mut j: usize = self.entries.len();
        while j > 0
            invariant
                j <= self.entries.len(),
                forall|k: int| j <= k < self.entries@.len() ==> self.entries@[k].id@ != id@,
            decreases j,
        {
            j = j - 1;
            let e = &self.entries[j];
            if str_eq(e.id.as_str(), id) {
                proof {
                    lemma_map_of_match(self.entries@, j as int, id@);
                }
                match &e.user {
                    Some(u) => {
                        return Some(u.clone());
                    },
                    None => {
                        return None;
                    },
                }
            }
        }
        proof {
            lemma_map_of_no_match(self.entries@, id@);
        }
        None
    }

    /// How many entries the table holds.
    pub fn len(&self) -> (n: usize)
        ensures
            n == self.spec_len(),
    {
        self.entries.len()
    }

    /// The entry count (not the key count: a shadowed binding still
    /// occupies its slot).
    pub closed spec fn spec_len(&self) -> nat {
        self.entries@.len()
    }
}

} // verus!

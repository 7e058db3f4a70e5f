//! An in-memory record store realising the contract a storage engine must
//! satisfy to back the task domain model: identifier issuance at creation,
//! field-level partial (merge) updates in strict mode, idempotent deletes,
//! and the quoted-string rendering of text fields on read-back.

use vstd::prelude::*;
use crate::codec::dec_digits;
use crate::codec::lemma_dec_digits_injective;
use crate::codec::lemma_dec_digits_value;
use crate::codec::str_eq;
use crate::codec::quote;
use crate::codec::quoted;
use crate::codec::u64_to_dec;
use crate::codec::valid_record_id;

verus! {

/// The identifier token issued for key `k`: `task:` followed by the base-10
/// digits of `k`.
pub open spec fn task_id_chars(k: u64) -> Seq<char> {
    seq!['t', 'a', 's', 'k', ':'] + dec_digits(k as nat)
}

/// A stored task record: the key and the `table:key` token issued at
/// creation, the raw (unquoted) text fields, and the numeric field.
pub struct StoredRow {
    pub key: u64,
    pub id: String,
    pub title: String,
    pub status: String,
    pub priority: u8,
}

impl StoredRow {
    /// The row's identifier token agrees with its key.
    pub open spec fn wf(&self) -> bool {
        self.id@ == task_id_chars(self.key)
    }
}

/// A raw row as the store renders it on read-back: the identifier bare, the
/// text fields wrapped in one layer of quotes, the numeric field as base-10
/// digits.
pub struct RawRow {
    pub id: String,
    pub title: String,
    pub status: String,
    pub priority: String,
}

/// One entry of a raw query response: a structured row, or a value that is
/// no row at all (a storage engine may answer with a scalar or a null where
/// a record was expected).
pub enum RawEntry {
    Row(RawRow),
    NotARow,
}

/// The in-memory record store: the rows of the task table in insertion
/// order, and the next identifier key to issue.
pub struct Store {
    pub rows: Vec<StoredRow>,
    pub next_key: u64,
}

/// Identifier tokens of distinct keys are distinct.
pub proof fn lemma_task_id_injective(a: u64, b: u64)
    requires
        task_id_chars(a) == task_id_chars(b),
    ensures
        a == b,
{
    lemma_dec_digits_value(a as nat);
    lemma_dec_digits_value(b as nat);
    let sa = task_id_chars(a);
    let sb = task_id_chars(b);
    assert(dec_digits(a as nat) =~= sa.subrange(5, sa.len() as int));
    assert(dec_digits(b as nat) =~= sb.subrange(5, sb.len() as int));
    lemma_dec_digits_injective(a as nat, b as nat);
}

/// Every issued identifier token is non-empty and well-formed.
pub proof fn lemma_task_id_valid(k: u64)
    ensures
        valid_record_id(task_id_chars(k)),
        task_id_chars(k).len() > 0,
{
    lemma_dec_digits_value(k as nat);
    let s = task_id_chars(k);
    assert(s[4] == ':');
    assert(s.len() >= 6);
    assert(0 < 4 < s.len() - 1 && s[4] == ':');
}

/// The store transition made by creating one record: one row appended, with
/// the issued identifier and the given field values, everything else kept.
pub open spec fn created(
    pre: Store,
    post: Store,
    id: Seq<char>,
    title: Seq<char>,
    status: Seq<char>,
    priority: u8,
) -> bool {
    &&& post.next_key == pre.next_key + 1
    &&& post.rows@.len() == pre.rows@.len() + 1
    &&& (forall|i: int| 0 <= i < pre.rows@.len() ==> #[trigger] post.rows@[i] == pre.rows@[i])
    &&& id == task_id_chars(pre.next_key)
    &&& post.rows@.last().key == pre.next_key
    &&& post.rows@.last().id@ == id
    &&& post.rows@.last().title@ == title
    &&& post.rows@.last().status@ == status
    &&& post.rows@.last().priority == priority
}

/// The view of an optional replacement text field.
pub open spec fn opt_chars(o: Option<&str>) -> Option<Seq<char>> {
    match o {
        Some(t) => Some(t@),
        None => None,
    }
}

/// The rows of `post` are those of `pre` with the row at `i` partially
/// merged: each supplied field takes the new value, an absent field keeps
/// the old one; identifier and key never change, nor any other row.
pub open spec fn rows_merged(
    pre: Seq<StoredRow>,
    post: Seq<StoredRow>,
    i: int,
    title: Option<Seq<char>>,
    status: Option<Seq<char>>,
    priority: Option<u8>,
) -> bool {
    &&& 0 <= i < pre.len()
    &&& post.len() == pre.len()
    &&& (forall|j: int| 0 <= j < pre.len() && j != i ==> #[trigger] post[j] == pre[j])
    &&& post[i].key == pre[i].key
    &&& post[i].id == pre[i].id
    &&& post[i].title@ == (match title {
        Some(t) => t,
        None => pre[i].title@,
    })
    &&& post[i].status@ == (match status {
        Some(t) => t,
        None => pre[i].status@,
    })
    &&& post[i].priority == (match priority {
        Some(p) => p,
        None => pre[i].priority,
    })
}

impl Store {
    /// Every row's identifier token agrees with its key, keys are pairwise
    /// distinct, and every stored key lies below `next_key`.
    pub open spec fn wf(&self) -> bool {
        &&& (forall|i: int| 0 <= i < self.rows@.len() ==> (#[trigger] self.rows@[i]).wf())
        &&& (forall|i: int|
            0 <= i < self.rows@.len() ==> (#[trigger] self.rows@[i]).key < self.next_key)
        &&& (forall|i: int, j: int|
            0 <= i < j < self.rows@.len() ==> self.rows@[i].key != self.rows@[j].key)
    }

    /// Whether some row carries the identifier `id`.
    pub open spec fn has_id(&self, id: Seq<char>) -> bool {
        exists|i: int| 0 <= i < self.rows@.len() && (#[trigger] self.rows@[i]).id@ == id
    }

    /// The index of the row carrying `id`.
    pub open spec fn index_of_id(&self, id: Seq<char>) -> int {
        choose|i: int| 0 <= i < self.rows@.len() && (#[trigger] self.rows@[i]).id@ == id
    }

    /// Distinct rows of a well-formed store carry distinct identifiers.
    pub proof fn lemma_ids_distinct(&self, i: int, j: int)
        requires
            self.wf(),
            0 <= i < self.rows@.len(),
            0 <= j < self.rows@.len(),
            i != j,
        ensures
            self.rows@[i].id@ != self.rows@[j].id@,
    {
        if self.rows@[i].id@ == self.rows@[j].id@ {
            lemma_task_id_injective(self.rows@[i].key, self.rows@[j].key);
        }
    }

    /// In a well-formed store, `index_of_id` is the one index carrying `id`.
    pub proof fn lemma_index_of_id(&self, id: Seq<char>)
        requires
            self.wf(),
            self.has_id(id),
        ensures
            0 <= self.index_of_id(id) < self.rows@.len(),
            self.rows@[self.index_of_id(id)].id@ == id,
            forall|j: int|
                0 <= j < self.rows@.len() && j != self.index_of_id(id)
                    ==> (#[trigger] self.rows@[j]).id@ != id,
    {
        let i = self.index_of_id(id);
        assert forall|j: int|
            0 <= j < self.rows@.len() && j != i implies (#[trigger] self.rows@[j]).id@ != id by {
            self.lemma_ids_distinct(i, j);
        }
    }

    /// A fresh store: no rows, first identifier key 0.
    pub fn new() -> (s: Store)
        ensures
            s.wf(),
            s.rows@.len() == 0,
            s.next_key == 0,
    {
        Store { rows: Vec::new(), next_key: 0 }
    }

    fn make_id(k: u64) -> (id: String)
        ensures
            id@ == task_id_chars(k),
    {
        let digits = u64_to_dec(k);
        let mut id = String::from_str("task:");
        id.append(digits.as_str());
        proof {
            reveal_strlit("task:");
            assert(id@ =~= task_id_chars(k));
        }
        id
    }

    /// Creates a record with the given field values; the store issues a
    /// fresh, well-formed, non-empty identifier and returns it.
    pub fn insert_row(&mut self, title: &str, status: &str, priority: u8) -> (id: String)
        requires
            old(self).wf(),
            old(self).next_key < u64::MAX,
        ensures
            final(self).wf(),
            created(*old(self), *final(self), id@, title@, status@, priority),
            id@.len() > 0,
            valid_record_id(id@),
            !old(self).has_id(id@),
    {
        let key = self.next_key;
        let id = Self::make_id(key);
        let row = StoredRow {
            key,
            id: id.clone(),
            title: String::from_str(title),
            status: String::from_str(status),
            priority,
        };
        self.next_key = self.next_key + 1;
        self.rows.push(row);
        proof {
            lemma_task_id_valid(key);
            assert forall|i: int|
                0 <= i < old(self).rows@.len() implies (#[trigger] old(self).rows@[i]).id@
                != id@ by {
                if old(self).rows@[i].id@ == id@ {
                    lemma_task_id_injective(old(self).rows@[i].key, key);
                }
            }
        }
        id
    }

    /// Strict partial merge: only the supplied fields of the record carrying
    /// `id` change; absent fields and every other record are untouched.
    /// Returns whether the record exists; an absent record changes nothing.
    pub fn merge_row(
        &mut self,
        id: &str,
        title: Option<&str>,
        status: Option<&str>,
        priority: Option<u8>,
    ) -> (found: bool)
        requires
            old(self).wf(),
        ensures
            final(self).wf(),
            final(self).next_key == old(self).next_key,
            found == old(self).has_id(id@),
            !found ==> *final(self) == *old(self),
            found ==> rows_merged(
                old(self).rows@,
                final(self).rows@,
                old(self).index_of_id(id@),
                opt_chars(title),
                opt_chars(status),
                priority,
            ),
    {
        let n = self.rows.len();
        let mut i: usize = 0;
        while i < n
            invariant
                old(self).wf(),
                n == self.rows@.len(),
                i <= n,
                *self == *old(self),
                forall|j: int| 0 <= j < i ==> (#[trigger] self.rows@[j]).id@ != id@,
            decreases n - i,
        {
            if str_eq(self.rows[i].id.as_str(), id) {
                let new_title = match title {
                    Some(t) => String::from_str(t),
                    None => self.rows[i].title.clone(),
                };
                let new_status = match status {
                    Some(t) => String::from_str(t),
                    None => self.rows[i].status.clone(),
                };
                let new_priority = match priority {
                    Some(p) => p,
                    None => self.rows[i].priority,
                };
                let row = StoredRow {
                    key: self.rows[i].key,
                    id: self.rows[i].id.clone(),
                    title: new_title,
                    status: new_status,
                    priority: new_priority,
                };
                self.rows[i] = row;
                proof {
                    let oi = old(self).index_of_id(id@);
                    assert(old(self).has_id(id@));
                    old(self).lemma_index_of_id(id@);
                    if oi != i {
                        old(self).lemma_ids_distinct(oi, i as int);
                    }
                    assert(oi == i);
                }
                return true;
            }
            i += 1;
        }
        false
    }

    /// Unconditional delete of the record carrying `id`; an absent record
    /// changes nothing. Returns whether a record was removed.
    pub fn remove_row(&mut self, id: &str) -> (found: bool)
        requires
            old(self).wf(),
        ensures
            final(self).wf(),
            final(self).next_key == old(self).next_key,
            found == old(self).has_id(id@),
            !found ==> *final(self) == *old(self),
            found ==> final(self).rows@ == old(self).rows@.remove(old(self).index_of_id(id@)),
    {
        let n = self.rows.len();
        let mut i: usize = 0;
        while i < n
            invariant
                old(self).wf(),
                n == self.rows@.len(),
                i <= n,
                *self == *old(self),
                forall|j: int| 0 <= j < i ==> (#[trigger] self.rows@[j]).id@ != id@,
            decreases n - i,
        {
            if str_eq(self.rows[i].id.as_str(), id) {
                self.rows.remove(i);
                proof {
                    let oi = old(self).index_of_id(id@);
                    assert(old(self).has_id(id@));
                    old(self).lemma_index_of_id(id@);
                    if oi != i {
                        old(self).lemma_ids_distinct(oi, i as int);
                    }
                    assert(oi == i);
                    assert forall|a: int, b: int|
                        0 <= a < b < self.rows@.len() implies self.rows@[a].key
                        != self.rows@[b].key by {
                        assert(self.rows@[a] == old(self).rows@[if a < i { a } else { a + 1 }]);
                        assert(self.rows@[b] == old(self).rows@[if b < i { b } else { b + 1 }]);
                    }
                }
                return true;
            }
            i += 1;
        }
        false
    }

    /// Renders every row as the store returns it on a listing: identifiers
    /// bare, text fields wrapped in one layer of quotes, the numeric field
    /// in base 10, in insertion order.
    pub fn list_raw(&self) -> (out: Vec<RawEntry>)
        ensures
            out@.len() == self.rows@.len(),
            forall|i: int|
                0 <= i < out@.len() ==> ((#[trigger] out@[i]) matches RawEntry::Row(r)
                    && r.id@ == self.rows@[i].id@ && r.title@ == quoted(self.rows@[i].title@)
                    && r.status@ == quoted(self.rows@[i].status@) && r.priority@ == dec_digits(
                    self.rows@[i].priority as nat,
                )),
    {
        let n = self.rows.len();
        let mut out: Vec<RawEntry> = Vec::new();
        let mut i: usize = 0;
        while i < n
            invariant
                n == self.rows@.len(),
                i <= n,
                out@.len() == i,
                forall|j: int|
                    0 <= j < i ==> ((#[trigger] out@[j]) matches RawEntry::Row(r)
                        && r.id@ == self.rows@[j].id@ && r.title@ == quoted(self.rows@[j].title@)
                        && r.status@ == quoted(self.rows@[j].status@) && r.priority@ == dec_digits(
                        self.rows@[j].priority as nat,
                    )),
            decreases n - i,
        {
            let row = RawRow {
                id: self.rows[i].id.clone(),
                title: quote(self.rows[i].title.as_str()),
                status: quote(self.rows[i].status.as_str()),
                priority: u64_to_dec(self.rows[i].priority as u64),
            };
            out.push(RawEntry::Row(row));
            i += 1;
        }
        out
    }
}

} // verus!

//! The storage adapter: the sole translation point between task-domain
//! operations and the record store's query/response model. It owns
//! identifier validation and the decoding of raw stored values.

use vstd::prelude::*;
use crate::codec::dec_digits;
use crate::codec::is_valid_record_id;
use crate::codec::lemma_dec_digits_value;
use crate::codec::lemma_unquote_quote;
use crate::codec::parse_u8;
use crate::codec::parse_u8_spec;
use crate::codec::strip_quotes;
use crate::codec::unquoted;
use crate::codec::valid_record_id;
use crate::error::StoreError;
use crate::status::Status;
use crate::status::status_label;
use crate::store::RawEntry;
use crate::store::Store;
use crate::store::created;
use crate::store::rows_merged;

verus! {

/// Creates a task record with the given field values; the store issues a
/// fresh, non-empty, well-formed identifier, which is returned.
pub fn create_task(store: &mut Store, title: &str, priority: u8, status: &str) -> (r: Result<
    String,
    StoreError,
>)
    requires
        old(store).wf(),
        old(store).next_key < u64::MAX,
    ensures
        final(store).wf(),
        r matches Ok(id) && created(*old(store), *final(store), id@, title@, status@, priority)
            && id@.len() > 0 && valid_record_id(id@) && !old(store).has_id(id@),
{
    let id = store.insert_row(title, status, priority);
    Ok(id)
}

/// Full-field merge update of an existing record, in strict mode: the
/// identifier must be well-formed and the record must exist. Echoes the
/// identifier on success.
pub fn update_task<'a>(
    store: &mut Store,
    task_id: &'a str,
    title: &'a str,
    status: &'a str,
    priority: u8,
) -> (r: Result<&'a str, StoreError>)
    requires
        old(store).wf(),
    ensures
        final(store).wf(),
        final(store).next_key == old(store).next_key,
        !valid_record_id(task_id@) ==> (r matches Err(e) && e == StoreError::InvalidId
            && *final(store) == *old(store)),
        valid_record_id(task_id@) && !old(store).has_id(task_id@) ==> (r matches Err(e) && e
            == StoreError::RecordNotFound && *final(store) == *old(store)),
        valid_record_id(task_id@) && old(store).has_id(task_id@) ==> (r matches Ok(s) && s@
            == task_id@ && rows_merged(
            old(store).rows@,
            final(store).rows@,
            old(store).index_of_id(task_id@),
            Some(title@),
            Some(status@),
            Some(priority),
        )),
{
    if !is_valid_record_id(task_id) {
        return Err(StoreError::InvalidId);
    }
    let found = store.merge_row(task_id, Some(title), Some(status), Some(priority));
    if found {
        Ok(task_id)
    } else {
        Err(StoreError::RecordNotFound)
    }
}

/// Status-only merge update that force-sets the record's status to the
/// display string of `Archived`, leaving title and priority untouched.
pub fn archive_task<'a>(store: &mut Store, task_id: &'a str) -> (r: Result<&'a str, StoreError>)
    requires
        old(store).wf(),
    ensures
        final(store).wf(),
        final(store).next_key == old(store).next_key,
        !valid_record_id(task_id@) ==> (r matches Err(e) && e == StoreError::InvalidId
            && *final(store) == *old(store)),
        valid_record_id(task_id@) && !old(store).has_id(task_id@) ==> (r matches Err(e) && e
            == StoreError::RecordNotFound && *final(store) == *old(store)),
        valid_record_id(task_id@) && old(store).has_id(task_id@) ==> (r matches Ok(s) && s@
            == task_id@ && rows_merged(
            old(store).rows@,
            final(store).rows@,
            old(store).index_of_id(task_id@),
            None,
            Some(status_label(Status::Archived)),
            None,
        )),
{
    if !is_valid_record_id(task_id) {
        return Err(StoreError::InvalidId);
    }
    let label = Status::Archived.label();
    let found = store.merge_row(task_id, None, Some(label), None);
    if found {
        Ok(task_id)
    } else {
        Err(StoreError::RecordNotFound)
    }
}

/// Hard delete. The identifier must be well-formed; deleting a record that
/// does not exist is success, not an error. Echoes the identifier.
pub fn hard_delete_task<'a>(store: &mut Store, task_id: &'a str) -> (r: Result<
    &'a str,
    StoreError,
>)
    requires
        old(store).wf(),
    ensures
        final(store).wf(),
        final(store).next_key == old(store).next_key,
        !valid_record_id(task_id@) ==> (r matches Err(e) && e == StoreError::InvalidId
            && *final(store) == *old(store)),
        valid_record_id(task_id@) && !old(store).has_id(task_id@) ==> (r matches Ok(s) && s@
            == task_id@ && *final(store) == *old(store)),
        valid_record_id(task_id@) && old(store).has_id(task_id@) ==> (r matches Ok(s) && s@
            == task_id@ && final(store).rows@ == old(store).rows@.remove(
            old(store).index_of_id(task_id@),
        )),
{
    if !is_valid_record_id(task_id) {
        return Err(StoreError::InvalidId);
    }
    store.remove_row(task_id);
    Ok(task_id)
}

/// Decodes one raw response entry into `(id, title, status, priority)`:
/// strips one quote layer from the text fields and strictly parses the
/// numeric field. A non-row entry, or a numeric field that fails strict
/// base-10 parsing, is a `MalformedRow`, never a silent default.
pub fn decode_raw_record(entry: &RawEntry) -> (r: Result<(String, String, String, u8), StoreError>)
    ensures
        entry matches RawEntry::NotARow ==> (r matches Err(e) && e == StoreError::MalformedRow),
        entry matches RawEntry::Row(raw) ==> (match parse_u8_spec(raw.priority@) {
            Some(p) => (r matches Ok(t) && t.0@ == raw.id@ && t.1@ == unquoted(raw.title@) && t.2@
                == unquoted(raw.status@) && t.3 == p),
            None => (r matches Err(e) && e == StoreError::MalformedRow),
        }),
{
    match entry {
        RawEntry::NotARow => Err(StoreError::MalformedRow),
        RawEntry::Row(raw) => {
            let p = match parse_u8(raw.priority.as_str()) {
                Some(p) => p,
                None => {
                    return Err(StoreError::MalformedRow);
                },
            };
            let title = strip_quotes(raw.title.as_str());
            let status = strip_quotes(raw.status.as_str());
            Ok((raw.id.clone(), title, status, p))
        },
    }
}

/// Lists every task record and decodes each row into
/// `(id, title, status, priority)`, in store order: the quote layer is
/// stripped from the text fields and the numeric field is parsed back.
pub fn get_all_tasks(store: &Store) -> (r: Result<Vec<(String, String, String, u8)>, StoreError>)
    ensures
        r matches Ok(v) && v@.len() == store.rows@.len() && (forall|i: int|
            0 <= i < v@.len() ==> (#[trigger] v@[i]).0@ == store.rows@[i].id@ && v@[i].1@
                == store.rows@[i].title@ && v@[i].2@ == store.rows@[i].status@ && v@[i].3
                == store.rows@[i].priority),
{
    let raw = store.list_raw();
    let n = raw.len();
    let mut tasks: Vec<(String, String, String, u8)> = Vec::new();
    let mut i: usize = 0;
    while i < n
        invariant
            n == raw@.len(),
            n == store.rows@.len(),
            i <= n,
            tasks@.len() == i,
            forall|j: int|
                0 <= j < raw@.len() ==> ((#[trigger] raw@[j]) matches RawEntry::Row(rr)
                    && rr.id@ == store.rows@[j].id@ && rr.title@ == crate::codec::quoted(
                    store.rows@[j].title@,
                ) && rr.status@ == crate::codec::quoted(store.rows@[j].status@) && rr.priority@
                    == dec_digits(store.rows@[j].priority as nat)),
            forall|j: int|
                0 <= j < i ==> (#[trigger] tasks@[j]).0@ == store.rows@[j].id@ && tasks@[j].1@
                    == store.rows@[j].title@ && tasks@[j].2@ == store.rows@[j].status@
                    && tasks@[j].3 == store.rows@[j].priority,
        decreases n - i,
    {
        proof {
            lemma_dec_digits_value(store.rows@[i as int].priority as nat);
            lemma_unquote_quote(store.rows@[i as int].title@);
            lemma_unquote_quote(store.rows@[i as int].status@);
        }
        let entry = match decode_raw_record(&raw[i]) {
            Ok(t) => t,
            Err(e) => {
                return Err(e);
            },
        };
        tasks.push(entry);
        i += 1;
    }
    Ok(tasks)
}

} // verus!

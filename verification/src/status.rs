//! The status state machine of a task and its string codec.
//!
//! Each status persists as a canonical display string. A stored status reads
//! back either bare or wrapped in one layer of store quoting; decoding is
//! lenient, with any unrecognised string falling back to `NotStarted`. A
//! strict decode variant surfaces the unrecognised case instead.

use vstd::prelude::*;
use crate::codec::quoted;
use crate::codec::str_eq;

verus! {

/// The lifecycle state of a task. `Archived` marks a soft-deleted record: it
/// stays enumerable, and no operation of this library transitions out of it.
#[derive(Debug, Clone, Copy, PartialEq, Eq, Structural)]
pub enum Status {
    NotStarted,
    Completed,
    Archived,
}

/// The canonical display string of a status, as persisted.
pub open spec fn status_label(s: Status) -> Seq<char> {
    match s {
        Status::NotStarted => seq!['N', 'o', 't', ' ', 'S', 't', 'a', 'r', 't', 'e', 'd'],
        Status::Completed => seq!['C', 'o', 'm', 'p', 'l', 'e', 't', 'e', 'd'],
        Status::Archived => seq!['A', 'r', 'c', 'h', 'i', 'v', 'e', 'd'],
    }
}

/// A string that decodes to a status without falling back to the lenient
/// default: the bare or quoted display string of one of the three states.
pub open spec fn recognized_label(s: Seq<char>) -> bool {
    ||| s == status_label(Status::NotStarted)
    ||| s == quoted(status_label(Status::NotStarted))
    ||| s == status_label(Status::Completed)
    ||| s == quoted(status_label(Status::Completed))
    ||| s == status_label(Status::Archived)
    ||| s == quoted(status_label(Status::Archived))
}

/// Lenient decode: the bare or quoted display string of `Completed` or
/// `Archived` selects that status; any other string is `NotStarted`.
pub open spec fn status_of_label(s: Seq<char>) -> Status {
    if s == status_label(Status::Completed) || s == quoted(status_label(Status::Completed)) {
        Status::Completed
    } else if s == status_label(Status::Archived) || s == quoted(status_label(Status::Archived)) {
        Status::Archived
    } else {
        Status::NotStarted
    }
}

impl Status {
    /// The canonical display string, e.g. `"Not Started"`.
    pub fn label(&self) -> (r: &'static str)
        ensures
            r@ == status_label(*self),
    {
        proof {
            reveal_strlit("Not Started");
            reveal_strlit("Completed");
            reveal_strlit("Archived");
            assert("Not Started"@ =~= status_label(Status::NotStarted));
            assert("Completed"@ =~= status_label(Status::Completed));
            assert("Archived"@ =~= status_label(Status::Archived));
        }
        match self {
            Status::NotStarted => "Not Started",
            Status::Completed => "Completed",
            Status::Archived => "Archived",
        }
    }

    /// Lenient decode of a stored status string, bare or quoted.
    pub fn decode(s: &str) -> (r: Status)
        ensures
            r == status_of_label(s@),
    {
        proof {
            reveal_strlit("Completed");
            reveal_strlit("\"Completed\"");
            reveal_strlit("Archived");
            reveal_strlit("\"Archived\"");
            assert("Completed"@ =~= status_label(Status::Completed));
            assert("\"Completed\""@ =~= quoted(status_label(Status::Completed)));
            assert("Archived"@ =~= status_label(Status::Archived));
            assert("\"Archived\""@ =~= quoted(status_label(Status::Archived)));
        }
        if str_eq(s, "Completed") || str_eq(s, "\"Completed\"") {
            Status::Completed
        } else if str_eq(s, "Archived") || str_eq(s, "\"Archived\"") {
            Status::Archived
        } else {
            Status::NotStarted
        }
    }

    /// Strict decode: `Some` exactly for a recognised bare or quoted display
    /// string, `None` otherwise.
    pub fn decode_strict(s: &str) -> (r: Option<Status>)
        ensures
            r == if recognized_label(s@) {
                Some(status_of_label(s@))
            } else {
                None::<Status>
            },
    {
        proof {
            reveal_strlit("Not Started");
            reveal_strlit("\"Not Started\"");
            reveal_strlit("Completed");
            reveal_strlit("\"Completed\"");
            reveal_strlit("Archived");
            reveal_strlit("\"Archived\"");
            assert("Not Started"@ =~= status_label(Status::NotStarted));
            assert("\"Not Started\""@ =~= quoted(status_label(Status::NotStarted)));
            assert("Completed"@ =~= status_label(Status::Completed));
            assert("\"Completed\""@ =~= quoted(status_label(Status::Completed)));
            assert("Archived"@ =~= status_label(Status::Archived));
            assert("\"Archived\""@ =~= quoted(status_label(Status::Archived)));
            lemma_labels_distinct();
        }
        if str_eq(s, "Completed") || str_eq(s, "\"Completed\"") {
            Some(Status::Completed)
        } else if str_eq(s, "Archived") || str_eq(s, "\"Archived\"") {
            Some(Status::Archived)
        } else if str_eq(s, "Not Started") || str_eq(s, "\"Not Started\"") {
            Some(Status::NotStarted)
        } else {
            None
        }
    }
}

impl From<String> for Status {
    /// Lenient decode of an owned stored status string.
    fn from(value: String) -> (r: Status) {
        Status::decode(value.as_str())
    }
}

impl vstd::std_specs::convert::FromSpecImpl<String> for Status {
    open spec fn obeys_from_spec() -> bool {
        true
    }

    open spec fn from_spec(v: String) -> Status {
        status_of_label(v@)
    }
}

/// The six recognised label strings are pairwise distinct.
proof fn lemma_labels_distinct()
    ensures
        status_label(Status::NotStarted) != status_label(Status::Completed),
        status_label(Status::NotStarted) != quoted(status_label(Status::Completed)),
        status_label(Status::NotStarted) != status_label(Status::Archived),
        status_label(Status::NotStarted) != quoted(status_label(Status::Archived)),
        quoted(status_label(Status::NotStarted)) != status_label(Status::Completed),
        quoted(status_label(Status::NotStarted)) != quoted(status_label(Status::Completed)),
        quoted(status_label(Status::NotStarted)) != status_label(Status::Archived),
        quoted(status_label(Status::NotStarted)) != quoted(status_label(Status::Archived)),
        status_label(Status::Archived) != status_label(Status::Completed),
        status_label(Status::Archived) != quoted(status_label(Status::Completed)),
        quoted(status_label(Status::Archived)) != status_label(Status::Completed),
        quoted(status_label(Status::Archived)) != quoted(status_label(Status::Completed)),
{
    let n = status_label(Status::NotStarted);
    let c = status_label(Status::Completed);
    let a = status_label(Status::Archived);
    assert(n.len() == 11 && c.len() == 9 && a.len() == 8);
    assert(quoted(c).len() == 11 && quoted(a).len() == 10);
    assert(quoted(n).len() == 13);
    assert(n[0] == 'N');
    assert(quoted(c)[0] == '"');
}

/// Round trip: a status encoded to its display string and read back, bare or
/// through one layer of store quoting, decodes to the same status.
pub proof fn lemma_status_round_trip(s: Status)
    ensures
        status_of_label(status_label(s)) == s,
        status_of_label(quoted(status_label(s))) == s,
{
    lemma_labels_distinct();
}

} // verus!

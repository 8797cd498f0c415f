//! Reading user input on the command line: priority and export-format
//! words, and finding a task by identifier or by part of its title.

use vstd::prelude::*;
use crate::models::{ExportFormat, Priority, Task};

verus! {

/// The lowercase form of a text, as `str::to_lowercase` gives it.
pub uninterp spec fn lower_of(s: Seq<char>) -> Seq<char>;

/// The identifier a text spells, as `uuid::Uuid::parse_str` reads it
/// (hyphenated, simple, braced or URN form); none if it spells none.
pub uninterp spec fn uuid_value_of(s: Seq<char>) -> Option<u128>;

/// Relies on str::to_lowercase: the result depends on the characters alone.
#[verifier::external_body]
fn lowercase(s: &str) -> (r: String)
    ensures
        r@ == lower_of(s@),
{
    s.to_lowercase()
}

/// Relies on uuid::Uuid::parse_str, read back with Uuid::as_u128: the
/// identifier `s` spells, if any.
#[verifier::external_body]
fn parse_uuid(s: &str) -> (r: Option<u128>)
    ensures
        r == uuid_value_of(s@),
{
    uuid::Uuid::parse_str(s).ok().map(|u| u.as_u128())
}

/// The priority a lowercase word names: "low"/"l", "high"/"h",
/// "urgent"/"u"; anything else is medium.
pub open spec fn priority_of_word(w: Seq<char>) -> Priority {
    if w == "low"@ || w == "l"@ {
        Priority::Low
    } else if w == "high"@ || w == "h"@ {
        Priority::High
    } else if w == "urgent"@ || w == "u"@ {
        Priority::Urgent
    } else {
        Priority::Medium
    }
}

/// The export format a lowercase word names: "todotxt"/"todo.txt"/"txt",
/// "markdown"/"md", "csv"; anything else is JSON.
pub open spec fn format_of_word(w: Seq<char>) -> ExportFormat {
    if w == "todotxt"@ || w == "todo.txt"@ || w == "txt"@ {
        ExportFormat::TodoTxt
    } else if w == "markdown"@ || w == "md"@ {
        ExportFormat::Markdown
    } else if w == "csv"@ {
        ExportFormat::Csv
    } else {
        ExportFormat::Json
    }
}

/// The priority a lowercase word names (see `priority_of_word`).
pub fn priority_from_word(w: &String) -> (r: Priority)
    ensures
        r == priority_of_word(w@),
{
    if *w == String::from_str("low") || *w == String::from_str("l") {
        Priority::Low
    } else if *w == String::from_str("high") || *w == String::from_str("h") {
        Priority::High
    } else if *w == String::from_str("urgent") || *w == String::from_str("u") {
        Priority::Urgent
    } else {
        Priority::Medium
    }
}

/// The priority a word names, in any case.
pub fn parse_priority(s: &str) -> (r: Priority)
    ensures
        r == priority_of_word(lower_of(s@)),
{
    let w = lowercase(s);
    priority_from_word(&w)
}

/// The export format a lowercase word names (see `format_of_word`).
pub fn format_from_word(w: &String) -> (r: ExportFormat)
    ensures
        r == format_of_word(w@),
{
    if *w == String::from_str("todotxt") || *w == String::from_str("todo.txt") || *w == String::from_str("txt") {
        ExportFormat::TodoTxt
    } else if *w == String::from_str("markdown") || *w == String::from_str("md") {
        ExportFormat::Markdown
    } else if *w == String::from_str("csv") {
        ExportFormat::Csv
    } else {
        ExportFormat::Json
    }
}

/// The export format a word names, in any case.
pub fn parse_export_format(s: &str) -> (r: ExportFormat)
    ensures
        r == format_of_word(lower_of(s@)),
{
    let w = lowercase(s);
    format_from_word(&w)
}

/// `needle` occurs in `hay` at position `i`.
pub open spec fn occurs_at(hay: Seq<char>, needle: Seq<char>, i: int) -> bool {
    0 <= i && i + needle.len() <= hay.len() && hay.subrange(i, i + needle.len()) == needle
}

/// `needle` occurs somewhere in `hay`.
pub open spec fn contains_text(hay: Seq<char>, needle: Seq<char>) -> bool {
    exists|i: int| occurs_at(hay, needle, i)
}

/// Whether `needle` occurs in `hay` (see `contains_text`).
pub fn text_contains(hay: &str, needle: &str) -> (r: bool)
    ensures
        r == contains_text(hay@, needle@),
{
    let n = hay.unicode_len();
    let m = needle.unicode_len();
    if m > n {
        assert forall|i: int| !occurs_at(hay@, needle@, i) by {}
        return false;
    }
    let mut i: usize = 0;
    while i <= n - m
        invariant
            m <= n,
            n == hay@.len(),
            m == needle@.len(),
            forall|k: int| 0 <= k < i ==> !occurs_at(hay@, needle@, k),
        decreases n - m + 1 - i,
    {
        let mut j: usize = 0;
        let mut same = true;
        while j < m
            invariant
                i + m <= n,
                n == hay@.len(),
                m == needle@.len(),
                j <= m,
                same == (forall|k: int| 0 <= k < j ==> hay@[i + k] == needle@[k]),
            decreases m - j,
        {
            if hay.get_char(i + j) != needle.get_char(j) {
                same = false;
            }
            j += 1;
        }
        if same {
            assert(hay@.subrange(i as int, i + m) =~= needle@);
            assert(occurs_at(hay@, needle@, i as int));
            return true;
        }
        assert(!occurs_at(hay@, needle@, i as int)) by {
            let k = choose|k: int| 0 <= k < m && hay@[i + k] != needle@[k];
            assert(hay@.subrange(i as int, i + m)[k] == hay@[i + k]);
        }
        i += 1;
    }
    assert forall|k: int| !occurs_at(hay@, needle@, k) by {
        if 0 <= k && k + m <= n {
            assert(k < i);
        }
    }
    false
}

/// No task before position `n` has identifier `id`.
pub open spec fn id_absent_before(tasks: Seq<Task>, id: u128, n: int) -> bool {
    forall|k: int| 0 <= k < n ==> (#[trigger] tasks[k]).id != id
}

/// No task title before position `n` contains `q`, compared in lowercase.
pub open spec fn title_absent_before(tasks: Seq<Task>, q: Seq<char>, n: int) -> bool {
    forall|k: int| 0 <= k < n ==> !contains_text(lower_of((#[trigger] tasks[k]).title@), lower_of(q))
}

/// The task a query names: when the query spells an identifier, the first
/// task with that identifier; otherwise the first task whose title contains
/// the query, both compared in lowercase.
pub open spec fn task_found(tasks: Seq<Task>, query: Seq<char>, r: Option<usize>) -> bool {
    match uuid_value_of(query) {
        Some(id) => match r {
            Some(i) => i < tasks.len() && tasks[i as int].id == id && id_absent_before(tasks, id, i as int),
            None => id_absent_before(tasks, id, tasks.len() as int),
        },
        None => match r {
            Some(i) => i < tasks.len() && contains_text(lower_of(tasks[i as int].title@), lower_of(query))
                && title_absent_before(tasks, query, i as int),
            None => title_absent_before(tasks, query, tasks.len() as int),
        },
    }
}

/// Finds the task a query names (see `task_found`); returns its position.
pub fn find_task(tasks: &Vec<Task>, query: &str) -> (r: Option<usize>)
    ensures
        task_found(tasks@, query@, r),
{
    let parsed = parse_uuid(query);
    match parsed {
        Some(id) => {
            assert(uuid_value_of(query@) == Some(id));
            let mut i: usize = 0;
            while i < tasks.len()
                invariant
                    i <= tasks@.len(),
                    id_absent_before(tasks@, id, i as int),
                    uuid_value_of(query@) == Some(id),
                decreases tasks@.len() - i,
            {
                if tasks[i].id == id {
                    assert(tasks@[i as int].id == id);
                    return Some(i);
                }
                i += 1;
            }
            None
        },
        None => {
            assert(uuid_value_of(query@).is_none());
            let q = lowercase(query);
            let mut i: usize = 0;
            while i < tasks.len()
                invariant
                    i <= tasks@.len(),
                    q@ == lower_of(query@),
                    title_absent_before(tasks@, query@, i as int),
                    uuid_value_of(query@).is_none(),
                decreases tasks@.len() - i,
            {
                let t = lowercase(tasks[i].title.as_str());
                if text_contains(t.as_str(), q.as_str()) {
                    assert(contains_text(lower_of(tasks@[i as int].title@), lower_of(query@)));
                    return Some(i);
                }
                i += 1;
            }
            None
        },
    }
}

} // verus!

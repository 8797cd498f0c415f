//! Exporting tasks as text: todo.txt lines and CSV rows.

use vstd::prelude::*;
use crate::models::{priority_name, List, Priority, Tag, Task, Timestamp};

verus! {

/// The text chrono's `DateTime::format` writes for the UTC time `t` with
/// format string `fmt`; none where chrono has no date for `t`.
pub uninterp spec fn formatted_time(t: Timestamp, fmt: Seq<char>) -> Option<Seq<char>>;

/// The calendar day of `t` in UTC ("%Y-%m-%d").
pub open spec fn day_text(t: Timestamp) -> Option<Seq<char>> {
    formatted_time(t, "%Y-%m-%d"@)
}

/// The date and time of `t` in UTC ("%Y-%m-%d %H:%M:%S").
pub open spec fn date_time_text(t: Timestamp) -> Option<Seq<char>> {
    formatted_time(t, "%Y-%m-%d %H:%M:%S"@)
}

/// Relies on chrono::DateTime::from_timestamp and DateTime::format: the UTC
/// time `t` written with `fmt`, one of the two formats used here (an invalid
/// format string would make the formatting panic).
#[verifier::external_body]
fn format_time(t: Timestamp, fmt: &str) -> (r: Option<String>)
    requires
        fmt@ == "%Y-%m-%d"@ || fmt@ == "%Y-%m-%d %H:%M:%S"@,
    ensures
        formatted_time(t, fmt@) == match r {
            Some(s) => Some(s@),
            None => None::<Seq<char>>,
        },
{
    chrono::DateTime::from_timestamp(t.secs, t.nanos).map(|d| d.format(fmt).to_string())
}

fn format_day(t: Timestamp) -> (r: Option<String>)
    ensures
        day_text(t) == match r {
            Some(s) => Some(s@),
            None => None::<Seq<char>>,
        },
{
    format_time(t, "%Y-%m-%d")
}

fn format_date_time(t: Timestamp) -> (r: Option<String>)
    ensures
        date_time_text(t) == match r {
            Some(s) => Some(s@),
            None => None::<Seq<char>>,
        },
{
    format_time(t, "%Y-%m-%d %H:%M:%S")
}

/// The text held, or nothing.
pub open spec fn text_or_empty(o: Option<Seq<char>>) -> Seq<char> {
    match o {
        Some(s) => s,
        None => Seq::empty(),
    }
}

fn day_or_empty(t: Timestamp) -> (r: String)
    ensures
        r@ == text_or_empty(day_text(t)),
{
    match format_day(t) {
        Some(s) => s,
        None => String::new(),
    }
}

/// `s` with every space replaced by an underscore.
pub open spec fn underscored(s: Seq<char>) -> Seq<char>
    decreases s.len(),
{
    if s.len() == 0 {
        s
    } else {
        underscored(s.drop_last()).push(if s.last() == ' ' { '_' } else { s.last() })
    }
}

/// The name of the first list with identifier `id`.
pub open spec fn list_name(lists: Seq<List>, id: u128) -> Option<Seq<char>>
    decreases lists.len(),
{
    if lists.len() == 0 {
        None
    } else if lists[0].id == id {
        Some(lists[0].name@)
    } else {
        list_name(lists.drop_first(), id)
    }
}

/// The name of the first tag with identifier `id`.
pub open spec fn tag_name(tags: Seq<Tag>, id: u128) -> Option<Seq<char>>
    decreases tags.len(),
{
    if tags.len() == 0 {
        None
    } else if tags[0].id == id {
        Some(tags[0].name@)
    } else {
        tag_name(tags.drop_first(), id)
    }
}

/// The todo.txt priority letter: A for urgent down to D for low.
pub open spec fn priority_letter(p: Priority) -> Seq<char> {
    match p {
        Priority::Urgent => "A"@,
        Priority::High => "B"@,
        Priority::Medium => "C"@,
        Priority::Low => "D"@,
    }
}

/// The todo.txt contexts of a task: " @name" for each of its tags that is
/// known, spaces in names replaced by underscores.
pub open spec fn contexts(ids: Seq<u128>, tags: Seq<Tag>) -> Seq<char>
    decreases ids.len(),
{
    if ids.len() == 0 {
        Seq::empty()
    } else {
        contexts(ids.drop_last(), tags) + match tag_name(tags, ids.last()) {
            Some(n) => " @"@ + underscored(n),
            None => Seq::empty(),
        }
    }
}

/// The start of a todo.txt line: "x " and the completion day for a
/// completed task, "(A) " and so on for an open one.
pub open spec fn todo_prefix(t: Task) -> Seq<char> {
    if t.completed {
        "x "@ + match t.completed_at {
            Some(c) => text_or_empty(day_text(c)) + " "@,
            None => Seq::empty(),
        }
    } else {
        "("@ + priority_letter(t.priority) + ") "@
    }
}

/// " +list" for a task whose list is known.
pub open spec fn todo_project(t: Task, lists: Seq<List>) -> Seq<char> {
    match list_name(lists, t.list_id) {
        Some(n) => " +"@ + underscored(n),
        None => Seq::empty(),
    }
}

/// " due:day" and " url:..." for a task that has them.
pub open spec fn todo_suffix(t: Task) -> Seq<char> {
    let due = match t.due_date {
        Some(d) => " due:"@ + text_or_empty(day_text(d)),
        None => Seq::empty(),
    };
    let url = match t.url {
        Some(u) => " url:"@ + u@,
        None => Seq::empty(),
    };
    due + url
}

/// One todo.txt line (without its newline): the prefix, the creation day,
/// the title, the project, the contexts and the suffix.
pub open spec fn todo_txt_line(t: Task, lists: Seq<List>, tags: Seq<Tag>) -> Seq<char> {
    todo_prefix(t) + text_or_empty(day_text(t.created_at)) + " "@ + t.title@ + todo_project(t, lists)
        + contexts(t.tag_ids@, tags) + todo_suffix(t)
}

/// The todo.txt export: one line per task, each ended by a newline.
pub open spec fn todo_txt(tasks: Seq<Task>, lists: Seq<List>, tags: Seq<Tag>) -> Seq<char>
    decreases tasks.len(),
{
    if tasks.len() == 0 {
        Seq::empty()
    } else {
        todo_txt(tasks.drop_last(), lists, tags) + todo_txt_line(tasks.last(), lists, tags) + "\n"@
    }
}

/// Replaces spaces by underscores (see `underscored`).
pub fn underscore_spaces(s: &str) -> (r: String)
    ensures
        r@ == underscored(s@),
{
    let n = s.unicode_len();
    let mut out = String::new();
    let mut i: usize = 0;
    while i < n
        invariant
            i <= n == s@.len(),
            out@ == underscored(s@.subrange(0, i as int)),
        decreases n - i,
    {
        let c = s.get_char(i);
        proof {
            assert(s@.subrange(0, i as int + 1).drop_last() =~= s@.subrange(0, i as int));
            assert(s@.subrange(0, i as int + 1).last() == c);
            reveal_strlit("_");
        }
        let ghost prev = out@;
        if c == ' ' {
            out.append("_");
        } else {
            let piece = s.substring_char(i, i + 1);
            assert(piece@ =~= seq![c]);
            out.append(piece);
        }
        assert(out@ =~= prev.push(if c == ' ' { '_' } else { c }));
        i += 1;
    }
    proof {
        assert(s@.subrange(0, n as int) =~= s@);
    }
    out
}

/// The name of the first list with identifier `id`, if any.
pub fn find_list_name(lists: &Vec<List>, id: u128) -> (r: Option<String>)
    ensures
        match r {
            Some(n) => list_name(lists@, id) == Some(n@),
            None => list_name(lists@, id).is_none(),
        },
{
    let mut i: usize = 0;
    assert(lists@.subrange(0, lists@.len() as int) =~= lists@);
    while i < lists.len()
        invariant
            i <= lists@.len(),
            list_name(lists@, id) == list_name(lists@.subrange(i as int, lists@.len() as int), id),
        decreases lists@.len() - i,
    {
        let ghost rest = lists@.subrange(i as int, lists@.len() as int);
        assert(rest.drop_first() =~= lists@.subrange(i as int + 1, lists@.len() as int));
        if lists[i].id == id {
            return Some(lists[i].name.clone());
        }
        i += 1;
    }
    None
}

/// The name of the first tag with identifier `id`, if any.
pub fn find_tag_name(tags: &Vec<Tag>, id: u128) -> (r: Option<String>)
    ensures
        match r {
            Some(n) => tag_name(tags@, id) == Some(n@),
            None => tag_name(tags@, id).is_none(),
        },
{
    let mut i: usize = 0;
    assert(tags@.subrange(0, tags@.len() as int) =~= tags@);
    while i < tags.len()
        invariant
            i <= tags@.len(),
            tag_name(tags@, id) == tag_name(tags@.subrange(i as int, tags@.len() as int), id),
        decreases tags@.len() - i,
    {
        let ghost rest = tags@.subrange(i as int, tags@.len() as int);
        assert(rest.drop_first() =~= tags@.subrange(i as int + 1, tags@.len() as int));
        if tags[i].id == id {
            return Some(tags[i].name.clone());
        }
        i += 1;
    }
    None
}

fn tag_contexts(ids: &Vec<u128>, tags: &Vec<Tag>) -> (r: String)
    ensures
        r@ == contexts(ids@, tags@),
{
    let mut out = String::new();
    let mut i: usize = 0;
    while i < ids.len()
        invariant
            i <= ids@.len(),
            out@ == contexts(ids@.subrange(0, i as int), tags@),
        decreases ids@.len() - i,
    {
        proof {
            assert(ids@.subrange(0, i as int + 1).drop_last() =~= ids@.subrange(0, i as int));
        }
        match find_tag_name(tags, ids[i]) {
            Some(n) => {
                out.append(" @");
                let u = underscore_spaces(n.as_str());
                out.append(u.as_str());
            },
            None => {},
        }
        i += 1;
    }
    proof {
        assert(ids@.subrange(0, ids@.len() as int) =~= ids@);
    }
    out
}

fn todo_prefix_of(t: &Task) -> (r: String)
    ensures
        r@ == todo_prefix(*t),
{
    let mut out = String::new();
    if t.completed {
        out.append("x ");
        match t.completed_at {
            Some(c) => {
                let d = day_or_empty(c);
                out.append(d.as_str());
                out.append(" ");
            },
            None => {},
        }
    } else {
        out.append("(");
        let letter = match t.priority {
            Priority::Urgent => "A",
            Priority::High => "B",
            Priority::Medium => "C",
            Priority::Low => "D",
        };
        out.append(letter);
        out.append(") ");
    }
    assert(out@ =~= todo_prefix(*t));
    out
}

fn todo_project_of(t: &Task, lists: &Vec<List>) -> (r: String)
    ensures
        r@ == todo_project(*t, lists@),
{
    match find_list_name(lists, t.list_id) {
        Some(n) => {
            let u = underscore_spaces(n.as_str());
            String::from_str(" +").concat(u.as_str())
        },
        None => String::new(),
    }
}

fn todo_suffix_of(t: &Task) -> (r: String)
    ensures
        r@ == todo_suffix(*t),
{
    let mut out = String::new();
    match t.due_date {
        Some(d) => {
            out.append(" due:");
            let dd = day_or_empty(d);
            out.append(dd.as_str());
        },
        None => {},
    }
    match &t.url {
        Some(u) => {
            out.append(" url:");
            out.append(u.as_str());
        },
        None => {},
    }
    assert(out@ =~= todo_suffix(*t));
    out
}

/// One todo.txt line (see `todo_txt_line`).
pub fn todo_txt_line_of(t: &Task, lists: &Vec<List>, tags: &Vec<Tag>) -> (r: String)
    ensures
        r@ == todo_txt_line(*t, lists@, tags@),
{
    let mut line = todo_prefix_of(t);
    let created = day_or_empty(t.created_at);
    line.append(created.as_str());
    line.append(" ");
    line.append(t.title.as_str());
    let project = todo_project_of(t, lists);
    line.append(project.as_str());
    let ctx = tag_contexts(&t.tag_ids, tags);
    line.append(ctx.as_str());
    let suffix = todo_suffix_of(t);
    line.append(suffix.as_str());
    assert(line@ =~= todo_txt_line(*t, lists@, tags@));
    line
}

/// The todo.txt export of `tasks` (see `todo_txt`).
pub fn export_todotxt(tasks: &Vec<Task>, lists: &Vec<List>, tags: &Vec<Tag>) -> (r: String)
    ensures
        r@ == todo_txt(tasks@, lists@, tags@),
{
    let mut out = String::new();
    let mut i: usize = 0;
    while i < tasks.len()
        invariant
            i <= tasks@.len(),
            out@ == todo_txt(tasks@.subrange(0, i as int), lists@, tags@),
        decreases tasks@.len() - i,
    {
        proof {
            assert(tasks@.subrange(0, i as int + 1).drop_last() =~= tasks@.subrange(0, i as int));
        }
        let line = todo_txt_line_of(&tasks[i], lists, tags);
        let ghost prev = out@;
        out.append(line.as_str());
        out.append("\n");
        assert(out@ =~= prev + line@ + "\n"@);
        i += 1;
    }
    proof {
        assert(tasks@.subrange(0, tasks@.len() as int) =~= tasks@);
    }
    out
}

/// A CSV field needs quoting when it holds a comma, a double quote or a newline.
pub open spec fn needs_quoting(s: Seq<char>) -> bool {
    exists|i: int| 0 <= i < s.len() && (s[i] == ',' || s[i] == '"' || s[i] == '\n')
}

/// `s` with every double quote doubled.
pub open spec fn quotes_doubled(s: Seq<char>) -> Seq<char>
    decreases s.len(),
{
    if s.len() == 0 {
        s
    } else {
        quotes_doubled(s.drop_last()) + if s.last() == '"' {
            seq!['"', '"']
        } else {
            seq![s.last()]
        }
    }
}

/// The CSV form of a field: quoted, with inner quotes doubled, when it needs
/// quoting; unchanged otherwise.
pub open spec fn csv_field(s: Seq<char>) -> Seq<char> {
    if needs_quoting(s) {
        seq!['"'] + quotes_doubled(s) + seq!['"']
    } else {
        s
    }
}

/// Escapes a string for a CSV field (see `csv_field`).
pub fn csv_escape(s: &str) -> (r: String)
    ensures
        r@ == csv_field(s@),
{
    let n = s.unicode_len();
    let mut quote = false;
    let mut body = String::new();
    let mut i: usize = 0;
    while i < n
        invariant
            i <= n == s@.len(),
            body@ == quotes_doubled(s@.subrange(0, i as int)),
            quote == exists|j: int| 0 <= j < i && (s@[j] == ',' || s@[j] == '"' || s@[j] == '\n'),
        decreases n - i,
    {
        let c = s.get_char(i);
        proof {
            assert(s@.subrange(0, i as int + 1).drop_last() =~= s@.subrange(0, i as int));
            assert(s@.subrange(0, i as int + 1).last() == c);
            assert(s@.subrange(i as int, i as int + 1) =~= seq![c]);
        }
        if c == '"' {
            let ghost prev = body@;
            proof {
                reveal_strlit("\"\"");
                assert("\"\""@ =~= seq!['"', '"']);
            }
            body.append("\"\"");
            assert(quotes_doubled(s@.subrange(0, i as int + 1)) == prev + seq!['"', '"']);
            assert(body@ =~= quotes_doubled(s@.subrange(0, i as int + 1)));
        } else {
            let piece = s.substring_char(i, i + 1);
            let ghost prev = body@;
            assert(piece@ =~= seq![c]);
            body.append(piece);
            assert(quotes_doubled(s@.subrange(0, i as int + 1)) == prev + seq![c]);
            assert(body@ =~= quotes_doubled(s@.subrange(0, i as int + 1)));
        }
        if c == ',' || c == '"' || c == '\n' {
            quote = true;
        }
        i += 1;
    }
    proof {
        assert(s@.subrange(0, n as int) =~= s@);
    }
    if quote {
        proof {
            reveal_strlit("\"");
            assert("\""@ =~= seq!['"']);
        }
        let r = String::from_str("\"").concat(body.as_str()).concat("\"");
        assert(r@ =~= csv_field(s@));
        r
    } else {
        String::from_str(s)
    }
}

/// The names of the known tags among `ids`, in order.
pub open spec fn known_tag_names(ids: Seq<u128>, tags: Seq<Tag>) -> Seq<Seq<char>>
    decreases ids.len(),
{
    if ids.len() == 0 {
        Seq::empty()
    } else {
        let before = known_tag_names(ids.drop_last(), tags);
        match tag_name(tags, ids.last()) {
            Some(n) => before.push(n),
            None => before,
        }
    }
}

/// `names` joined with "; " between neighbours.
pub open spec fn joined(names: Seq<Seq<char>>) -> Seq<char>
    decreases names.len(),
{
    if names.len() == 0 {
        Seq::empty()
    } else if names.len() == 1 {
        names[0]
    } else {
        joined(names.drop_last()) + "; "@ + names.last()
    }
}

/// The CSV header line (without its newline).
pub open spec fn csv_header() -> Seq<char> {
    "Title,Description,URL,Priority,Completed,List,Tags,Due Date,Created At"@
}

/// One CSV row (without its newline): title, description, URL, priority,
/// completion, list name, tag names joined by "; ", due day and creation
/// time; text fields escaped, absent ones empty.
pub open spec fn csv_row(t: Task, lists: Seq<List>, tags: Seq<Tag>) -> Seq<char> {
    let desc = match t.description {
        Some(d) => d@,
        None => Seq::empty(),
    };
    let url = match t.url {
        Some(u) => u@,
        None => Seq::empty(),
    };
    let due = match t.due_date {
        Some(d) => text_or_empty(day_text(d)),
        None => Seq::empty(),
    };
    csv_field(t.title@) + ","@ + csv_field(desc) + ","@ + csv_field(url) + ","@ + priority_name(t.priority)
        + ","@ + (if t.completed { "true"@ } else { "false"@ }) + ","@ + csv_field(
        text_or_empty(list_name(lists, t.list_id)),
    ) + ","@ + csv_field(joined(known_tag_names(t.tag_ids@, tags))) + ","@ + due + ","@
        + text_or_empty(date_time_text(t.created_at))
}

/// The CSV export: the header line, then one row per task, each line ended
/// by a newline.
pub open spec fn csv_text(tasks: Seq<Task>, lists: Seq<List>, tags: Seq<Tag>) -> Seq<char>
    decreases tasks.len(),
{
    if tasks.len() == 0 {
        csv_header() + "\n"@
    } else {
        csv_text(tasks.drop_last(), lists, tags) + csv_row(tasks.last(), lists, tags) + "\n"@
    }
}

fn joined_tag_names(ids: &Vec<u128>, tags: &Vec<Tag>) -> (r: String)
    ensures
        r@ == joined(known_tag_names(ids@, tags@)),
{
    let mut out = String::new();
    let mut count: usize = 0;
    let mut i: usize = 0;
    while i < ids.len()
        invariant
            i <= ids@.len(),
            count == known_tag_names(ids@.subrange(0, i as int), tags@).len(),
            count <= i,
            out@ == joined(known_tag_names(ids@.subrange(0, i as int), tags@)),
        decreases ids@.len() - i,
    {
        let ghost names = known_tag_names(ids@.subrange(0, i as int), tags@);
        proof {
            assert(ids@.subrange(0, i as int + 1).drop_last() =~= ids@.subrange(0, i as int));
        }
        match find_tag_name(tags, ids[i]) {
            Some(n) => {
                if count > 0 {
                    out.append("; ");
                }
                out.append(n.as_str());
                proof {
                    assert(names.push(n@).drop_last() =~= names);
                    if names.len() == 0 {
                        assert(out@ =~= n@);
                    }
                }
                count += 1;
            },
            None => {},
        }
        i += 1;
    }
    proof {
        assert(ids@.subrange(0, ids@.len() as int) =~= ids@);
    }
    out
}

fn text_of(o: &Option<String>) -> (r: &str)
    ensures
        r@ == match o {
            Some(s) => s@,
            None => Seq::<char>::empty(),
        },
{
    proof {
        reveal_strlit("");
    }
    match o {
        Some(s) => s.as_str(),
        None => "",
    }
}

/// One CSV row (see `csv_row`).
pub fn csv_row_of(t: &Task, lists: &Vec<List>, tags: &Vec<Tag>) -> (r: String)
    ensures
        r@ == csv_row(*t, lists@, tags@),
{
    let mut row = csv_escape(t.title.as_str());
    row.append(",");
    let d = csv_escape(text_of(&t.description));
    row.append(d.as_str());
    row.append(",");
    let u = csv_escape(text_of(&t.url));
    row.append(u.as_str());
    row.append(",");
    row.append(t.priority.name());
    row.append(",");
    if t.completed {
        row.append("true");
    } else {
        row.append("false");
    }
    row.append(",");
    let list = find_list_name(lists, t.list_id);
    let l = csv_escape(text_of(&list));
    row.append(l.as_str());
    row.append(",");
    let names = joined_tag_names(&t.tag_ids, tags);
    let g = csv_escape(names.as_str());
    row.append(g.as_str());
    row.append(",");
    match t.due_date {
        Some(dd) => {
            let day = day_or_empty(dd);
            row.append(day.as_str());
        },
        None => {},
    }
    row.append(",");
    match format_date_time(t.created_at) {
        Some(c) => row.append(c.as_str()),
        None => {},
    }
    assert(row@ =~= csv_row(*t, lists@, tags@));
    row
}

/// The CSV export of `tasks` (see `csv_text`).
pub fn export_csv(tasks: &Vec<Task>, lists: &Vec<List>, tags: &Vec<Tag>) -> (r: String)
    ensures
        r@ == csv_text(tasks@, lists@, tags@),
{
    let mut out = String::from_str("Title,Description,URL,Priority,Completed,List,Tags,Due Date,Created At");
    out.append("\n");
    let mut i: usize = 0;
    assert(tasks@.subrange(0, 0) =~= Seq::<Task>::empty());
    while i < tasks.len()
        invariant
            i <= tasks@.len(),
            out@ == csv_text(tasks@.subrange(0, i as int), lists@, tags@),
        decreases tasks@.len() - i,
    {
        proof {
            assert(tasks@.subrange(0, i as int + 1).drop_last() =~= tasks@.subrange(0, i as int));
        }
        let row = csv_row_of(&tasks[i], lists, tags);
        let ghost prev = out@;
        out.append(row.as_str());
        out.append("\n");
        assert(out@ =~= prev + row@ + "\n"@);
        i += 1;
    }
    proof {
        assert(tasks@.subrange(0, tasks@.len() as int) =~= tasks@);
    }
    out
}

/// The names of the known tags among `ids`, each in backticks, joined by
/// single spaces.
pub open spec fn ticked_names(names: Seq<Seq<char>>) -> Seq<char>
    decreases names.len(),
{
    if names.len() == 0 {
        Seq::empty()
    } else if names.len() == 1 {
        "`"@ + names[0] + "`"@
    } else {
        ticked_names(names.drop_last()) + " `"@ + names.last() + "`"@
    }
}

/// The checkbox line of a task: its priority marker, title and tags.
pub open spec fn markdown_head(t: Task, tags: Seq<Tag>) -> Seq<char> {
    let checkbox = if t.completed { "[x]"@ } else { "[ ]"@ };
    let marker = match t.priority {
        Priority::Urgent => "\u{1f534} "@,
        Priority::High => "\u{1f7e0} "@,
        Priority::Medium => ""@,
        Priority::Low => "\u{26aa} "@,
    };
    let names = known_tag_names(t.tag_ids@, tags);
    let tag_part = if names.len() == 0 { Seq::<char>::empty() } else { " "@ + ticked_names(names) };
    "- "@ + checkbox + " "@ + marker + t.title@ + tag_part + "\n"@
}

/// The sub-items of a task: description, URL and due day, where present.
pub open spec fn markdown_subitems(t: Task) -> Seq<char> {
    let desc = match t.description {
        Some(d) => "  - "@ + d@ + "\n"@,
        None => Seq::empty(),
    };
    let url = match t.url {
        Some(u) => "  - \u{1f517} "@ + u@ + "\n"@,
        None => Seq::empty(),
    };
    let due = match t.due_date {
        Some(d) => "  - \u{1f4c5} Due: "@ + text_or_empty(day_text(d)) + "\n"@,
        None => Seq::empty(),
    };
    desc + url + due
}

/// The Markdown lines of one task.
pub open spec fn markdown_task(t: Task, tags: Seq<Tag>) -> Seq<char> {
    markdown_head(t, tags) + markdown_subitems(t)
}

/// The Markdown lines of the tasks of `tasks` that belong to list `id`.
pub open spec fn markdown_tasks_of(tasks: Seq<Task>, id: u128, tags: Seq<Tag>) -> Seq<char>
    decreases tasks.len(),
{
    if tasks.len() == 0 {
        Seq::empty()
    } else {
        markdown_tasks_of(tasks.drop_last(), id, tags) + if tasks.last().list_id == id {
            markdown_task(tasks.last(), tags)
        } else {
            Seq::empty()
        }
    }
}

/// Some task of `tasks` belongs to list `id`.
pub open spec fn has_task_in(tasks: Seq<Task>, id: u128) -> bool {
    exists|i: int| 0 <= i < tasks.len() && (#[trigger] tasks[i]).list_id == id
}

/// The Markdown section of list `l`: its heading and its tasks; nothing for
/// a list without tasks.
pub open spec fn markdown_section(l: List, tasks: Seq<Task>, tags: Seq<Tag>) -> Seq<char> {
    if has_task_in(tasks, l.id) {
        "## "@ + l.icon@ + " "@ + l.name@ + "\n\n"@ + markdown_tasks_of(tasks, l.id, tags) + "\n"@
    } else {
        Seq::empty()
    }
}

/// The sections of `lists`, in order.
pub open spec fn markdown_sections(lists: Seq<List>, tasks: Seq<Task>, tags: Seq<Tag>) -> Seq<char>
    decreases lists.len(),
{
    if lists.len() == 0 {
        Seq::empty()
    } else {
        markdown_sections(lists.drop_last(), tasks, tags) + markdown_section(lists.last(), tasks, tags)
    }
}

/// The Markdown export made at `exported_at`: a title, the export time, then
/// one section per list that has tasks.
pub open spec fn markdown_text(tasks: Seq<Task>, lists: Seq<List>, tags: Seq<Tag>, exported_at: Timestamp) -> Seq<char> {
    "# Tasks\n\nExported: "@ + text_or_empty(date_time_text(exported_at)) + " UTC\n\n"@
        + markdown_sections(lists, tasks, tags)
}

fn ticked_tag_names(ids: &Vec<u128>, tags: &Vec<Tag>) -> (r: (String, usize))
    ensures
        r.0@ == ticked_names(known_tag_names(ids@, tags@)),
        r.1 == known_tag_names(ids@, tags@).len(),
{
    let mut out = String::new();
    let mut count: usize = 0;
    let mut i: usize = 0;
    while i < ids.len()
        invariant
            i <= ids@.len(),
            count == known_tag_names(ids@.subrange(0, i as int), tags@).len(),
            count <= i,
            out@ == ticked_names(known_tag_names(ids@.subrange(0, i as int), tags@)),
        decreases ids@.len() - i,
    {
        let ghost names = known_tag_names(ids@.subrange(0, i as int), tags@);
        proof {
            assert(ids@.subrange(0, i as int + 1).drop_last() =~= ids@.subrange(0, i as int));
        }
        match find_tag_name(tags, ids[i]) {
            Some(n) => {
                if count > 0 {
                    out.append(" `");
                } else {
                    out.append("`");
                }
                out.append(n.as_str());
                out.append("`");
                proof {
                    assert(names.push(n@).drop_last() =~= names);
                    if names.len() == 0 {
                        assert(out@ =~= "`"@ + n@ + "`"@);
                    } else {
                        assert(out@ =~= ticked_names(names) + " `"@ + n@ + "`"@);
                    }
                }
                count += 1;
            },
            None => {},
        }
        i += 1;
    }
    proof {
        assert(ids@.subrange(0, ids@.len() as int) =~= ids@);
    }
    (out, count)
}

fn markdown_head_of(t: &Task, tags: &Vec<Tag>) -> (r: String)
    ensures
        r@ == markdown_head(*t, tags@),
{
    proof {
        reveal_strlit("");
    }
    let mut out = String::from_str("- ");
    if t.completed {
        out.append("[x]");
    } else {
        out.append("[ ]");
    }
    out.append(" ");
    let marker = match t.priority {
        Priority::Urgent => "\u{1f534} ",
        Priority::High => "\u{1f7e0} ",
        Priority::Medium => "",
        Priority::Low => "\u{26aa} ",
    };
    out.append(marker);
    out.append(t.title.as_str());
    let (names, count) = ticked_tag_names(&t.tag_ids, tags);
    if count > 0 {
        out.append(" ");
        out.append(names.as_str());
    }
    out.append("\n");
    assert(out@ =~= markdown_head(*t, tags@));
    out
}

fn markdown_subitems_of(t: &Task) -> (r: String)
    ensures
        r@ == markdown_subitems(*t),
{
    let mut out = String::new();
    match &t.description {
        Some(d) => {
            out.append("  - ");
            out.append(d.as_str());
            out.append("\n");
        },
        None => {},
    }
    match &t.url {
        Some(u) => {
            out.append("  - \u{1f517} ");
            out.append(u.as_str());
            out.append("\n");
        },
        None => {},
    }
    match t.due_date {
        Some(d) => {
            out.append("  - \u{1f4c5} Due: ");
            let day = day_or_empty(d);
            out.append(day.as_str());
            out.append("\n");
        },
        None => {},
    }
    assert(out@ =~= markdown_subitems(*t));
    out
}

fn markdown_task_of(t: &Task, tags: &Vec<Tag>) -> (r: String)
    ensures
        r@ == markdown_task(*t, tags@),
{
    let head = markdown_head_of(t, tags);
    let sub = markdown_subitems_of(t);
    head.concat(sub.as_str())
}

fn markdown_tasks_in(tasks: &Vec<Task>, id: u128, tags: &Vec<Tag>) -> (r: (String, bool))
    ensures
        r.0@ == markdown_tasks_of(tasks@, id, tags@),
        r.1 == has_task_in(tasks@, id),
{
    let mut out = String::new();
    let mut any = false;
    let mut i: usize = 0;
    while i < tasks.len()
        invariant
            i <= tasks@.len(),
            out@ == markdown_tasks_of(tasks@.subrange(0, i as int), id, tags@),
            any == has_task_in(tasks@.subrange(0, i as int), id),
        decreases tasks@.len() - i,
    {
        let ghost pre = tasks@.subrange(0, i as int);
        let ghost next = tasks@.subrange(0, i as int + 1);
        proof {
            assert(next.drop_last() =~= pre);
            assert(next.last() == tasks@[i as int]);
        }
        if tasks[i].list_id == id {
            let item = markdown_task_of(&tasks[i], tags);
            out.append(item.as_str());
            any = true;
            assert(next[i as int].list_id == id);
        } else {
            assert forall|j: int| 0 <= j < next.len() && (#[trigger] next[j]).list_id == id implies 0 <= j
                < pre.len() && pre[j].list_id == id by {
                assert(next[j] == tasks@[j]);
            }
            assert(any ==> has_task_in(next, id)) by {
                if any {
                    let j = choose|j: int| 0 <= j < pre.len() && (#[trigger] pre[j]).list_id == id;
                    assert(next[j] == pre[j]);
                }
            }
        }
        i += 1;
    }
    proof {
        assert(tasks@.subrange(0, tasks@.len() as int) =~= tasks@);
    }
    (out, any)
}

/// The Markdown export made at `exported_at` (see `markdown_text`).
pub fn export_markdown(tasks: &Vec<Task>, lists: &Vec<List>, tags: &Vec<Tag>, exported_at: Timestamp) -> (r: String)
    ensures
        r@ == markdown_text(tasks@, lists@, tags@, exported_at),
{
    let mut out = String::from_str("# Tasks\n\nExported: ");
    match format_date_time(exported_at) {
        Some(c) => out.append(c.as_str()),
        None => {},
    }
    out.append(" UTC\n\n");
    let ghost head = out@;
    assert(head =~= "# Tasks\n\nExported: "@ + text_or_empty(date_time_text(exported_at)) + " UTC\n\n"@);
    let mut i: usize = 0;
    assert(lists@.subrange(0, 0) =~= Seq::<List>::empty());
    while i < lists.len()
        invariant
            i <= lists@.len(),
            out@ == head + markdown_sections(lists@.subrange(0, i as int), tasks@, tags@),
        decreases lists@.len() - i,
    {
        proof {
            assert(lists@.subrange(0, i as int + 1).drop_last() =~= lists@.subrange(0, i as int));
        }
        let l = &lists[i];
        let (body, any) = markdown_tasks_in(tasks, l.id, tags);
        let ghost prev = out@;
        if any {
            out.append("## ");
            out.append(l.icon.as_str());
            out.append(" ");
            out.append(l.name.as_str());
            out.append("\n\n");
            out.append(body.as_str());
            out.append("\n");
            assert(out@ =~= prev + markdown_section(*l, tasks@, tags@));
        } else {
            assert(out@ =~= prev + markdown_section(*l, tasks@, tags@));
        }
        i += 1;
    }
    proof {
        assert(lists@.subrange(0, lists@.len() as int) =~= lists@);
    }
    out
}

} // verus!

//! Data model: priorities, timestamps, tasks, lists and tags.

use vstd::prelude::*;
use crate::sources::{fresh_id, now};

verus! {

/// Priority level for tasks.
#[derive(Debug, Clone, Copy, PartialEq, Eq, Structural, PartialOrd, Ord, Hash)]
pub enum Priority {
    /// Low priority
    Low,
    /// Normal/medium priority (the default)
    Medium,
    /// High priority
    High,
    /// Urgent priority
    Urgent,
}

/// Position of a priority in the cycle Low, Medium, High, Urgent.
pub open spec fn priority_rank(p: Priority) -> int {
    match p {
        Priority::Low => 0,
        Priority::Medium => 1,
        Priority::High => 2,
        Priority::Urgent => 3,
    }
}

/// The priority at a position of the cycle (taken modulo 4).
pub open spec fn priority_at(i: int) -> Priority {
    let k = i % 4;
    if k == 0 {
        Priority::Low
    } else if k == 1 {
        Priority::Medium
    } else if k == 2 {
        Priority::High
    } else {
        Priority::Urgent
    }
}

/// The display name of a priority.
pub open spec fn priority_name(p: Priority) -> Seq<char> {
    match p {
        Priority::Low => "Low"@,
        Priority::Medium => "Medium"@,
        Priority::High => "High"@,
        Priority::Urgent => "Urgent"@,
    }
}

impl Priority {
    /// All priority levels, lowest first.
    pub fn all() -> (r: [Priority; 4])
        ensures
            r@ == seq![Priority::Low, Priority::Medium, Priority::High, Priority::Urgent],
    {
        [Priority::Low, Priority::Medium, Priority::High, Priority::Urgent]
    }

    /// The display name.
    pub fn name(&self) -> (r: &'static str)
        ensures
            r@ == priority_name(*self),
    {
        match self {
            Priority::Low => "Low",
            Priority::Medium => "Medium",
            Priority::High => "High",
            Priority::Urgent => "Urgent",
        }
    }

    /// The icon shown beside a task of this priority.
    pub fn icon(&self) -> (r: &'static str)
        ensures
            r@ == match *self {
                Priority::Low => "\u{25cb}"@,
                Priority::Medium => "\u{25d0}"@,
                Priority::High => "\u{25cf}"@,
                Priority::Urgent => "\u{25c9}"@,
            },
    {
        match self {
            Priority::Low => "\u{25cb}",
            Priority::Medium => "\u{25d0}",
            Priority::High => "\u{25cf}",
            Priority::Urgent => "\u{25c9}",
        }
    }

    /// The next priority, cycling from Urgent back to Low.
    pub fn next(&self) -> (r: Priority)
        ensures
            r == priority_at(priority_rank(*self) + 1),
    {
        match self {
            Priority::Low => Priority::Medium,
            Priority::Medium => Priority::High,
            Priority::High => Priority::Urgent,
            Priority::Urgent => Priority::Low,
        }
    }

    /// The previous priority, cycling from Low back to Urgent.
    pub fn prev(&self) -> (r: Priority)
        ensures
            r == priority_at(priority_rank(*self) + 3),
    {
        match self {
            Priority::Low => Priority::Urgent,
            Priority::Medium => Priority::Low,
            Priority::High => Priority::Medium,
            Priority::Urgent => Priority::High,
        }
    }
}

/// A point in time: whole seconds since the Unix epoch and the
/// nanoseconds within that second.
#[derive(Debug, Clone, Copy, PartialEq, Eq, Structural, PartialOrd, Ord, Hash)]
pub struct Timestamp {
    pub secs: i64,
    pub nanos: u32,
}

/// `a` lies strictly before `b` (seconds first, then nanoseconds).
pub open spec fn ts_before(a: Timestamp, b: Timestamp) -> bool {
    a.secs < b.secs || (a.secs == b.secs && a.nanos < b.nanos)
}

impl Timestamp {
    /// Whether this instant lies strictly after `other`.
    pub fn is_after(&self, other: &Timestamp) -> (r: bool)
        ensures
            r == ts_before(*other, *self),
    {
        self.secs > other.secs || (self.secs == other.secs && self.nanos > other.nanos)
    }
}

/// Records that carry a unique identifier.
pub trait Keyed: Sized {
    spec fn key(&self) -> u128;

    fn id_of(&self) -> (r: u128)
        ensures
            r == self.key(),
    ;
}

/// A task/todo item.
#[derive(Debug, Clone)]
pub struct Task {
    /// Unique identifier
    pub id: u128,
    /// Task title
    pub title: String,
    /// Optional description
    pub description: Option<String>,
    /// Optional URL (can be opened in a browser)
    pub url: Option<String>,
    /// Priority level
    pub priority: Priority,
    /// Whether the task is completed
    pub completed: bool,
    /// The list the task belongs to
    pub list_id: u128,
    /// Tags attached to the task
    pub tag_ids: Vec<u128>,
    /// Creation time
    pub created_at: Timestamp,
    /// Last update time
    pub updated_at: Timestamp,
    /// Completion time (if completed)
    pub completed_at: Option<Timestamp>,
    /// Optional due date
    pub due_date: Option<Timestamp>,
}

/// A list/project that contains tasks.
#[derive(Debug, Clone)]
pub struct List {
    /// Unique identifier
    pub id: u128,
    /// List name
    pub name: String,
    /// Optional description
    pub description: Option<String>,
    /// Icon/emoji for the list
    pub icon: String,
    /// Color for the list (hex code or name)
    pub color: Option<String>,
    /// Whether this is the default inbox list
    pub is_inbox: bool,
    /// Creation time
    pub created_at: Timestamp,
    /// Last update time
    pub updated_at: Timestamp,
    /// Sort order
    pub sort_order: i32,
}

/// A tag that can be attached to tasks.
#[derive(Debug, Clone)]
pub struct Tag {
    /// Unique identifier
    pub id: u128,
    /// Tag name
    pub name: String,
    /// Color for the tag (hex code)
    pub color: String,
    /// Creation time
    pub created_at: Timestamp,
}

impl Keyed for Task {
    open spec fn key(&self) -> u128 {
        self.id
    }

    fn id_of(&self) -> (r: u128) {
        self.id
    }
}

impl Keyed for List {
    open spec fn key(&self) -> u128 {
        self.id
    }

    fn id_of(&self) -> (r: u128) {
        self.id
    }
}

impl Keyed for Tag {
    open spec fn key(&self) -> u128 {
        self.id
    }

    fn id_of(&self) -> (r: u128) {
        self.id
    }
}

/// Colors a new tag may get.
pub open spec fn tag_palette() -> Seq<Seq<char>> {
    seq![
        "#f38ba8"@,
        "#fab387"@,
        "#f9e2af"@,
        "#a6e3a1"@,
        "#94e2d5"@,
        "#89b4fa"@,
        "#cba6f7"@,
        "#f5c2e7"@,
        "#eba0ac"@,
        "#89dceb"@,
    ]
}

/// The palette color picked by `seed`: entry `seed % 10`.
pub fn tag_color_for(seed: u32) -> (r: String)
    ensures
        r@ == tag_palette()[(seed % 10) as int],
{
    let k = seed % 10;
    let c = if k == 0 {
        "#f38ba8"
    } else if k == 1 {
        "#fab387"
    } else if k == 2 {
        "#f9e2af"
    } else if k == 3 {
        "#a6e3a1"
    } else if k == 4 {
        "#94e2d5"
    } else if k == 5 {
        "#89b4fa"
    } else if k == 6 {
        "#cba6f7"
    } else if k == 7 {
        "#f5c2e7"
    } else if k == 8 {
        "#eba0ac"
    } else {
        "#89dceb"
    };
    String::from_str(c)
}

impl Task {
    /// A new open task with a fresh identifier, medium priority, no tags,
    /// and creation and update times set to now.
    pub fn new(title: &str, list_id: u128) -> (r: Task)
        ensures
            r.title@ == title@,
            r.list_id == list_id,
            r.description.is_none(),
            r.url.is_none(),
            r.priority == Priority::Medium,
            !r.completed,
            r.tag_ids@.len() == 0,
            r.created_at == r.updated_at,
            r.completed_at.is_none(),
            r.due_date.is_none(),
    {
        let t = now();
        Task {
            id: fresh_id(),
            title: String::from_str(title),
            description: None,
            url: None,
            priority: Priority::Medium,
            completed: false,
            list_id,
            tag_ids: Vec::new(),
            created_at: t,
            updated_at: t,
            completed_at: None,
            due_date: None,
        }
    }

    /// Mark completed at `at`.
    pub fn complete_at(&mut self, at: Timestamp)
        ensures
            final(self).completed,
            final(self).completed_at == Some(at),
            final(self).updated_at == at,
            final(self).id == old(self).id,
            final(self).title == old(self).title,
            final(self).list_id == old(self).list_id,
            final(self).tag_ids == old(self).tag_ids,
            final(self).priority == old(self).priority,
    {
        self.completed = true;
        self.completed_at = Some(at);
        self.updated_at = at;
    }

    /// Mark not completed, updated at `at`.
    pub fn uncomplete_at(&mut self, at: Timestamp)
        ensures
            !final(self).completed,
            final(self).completed_at.is_none(),
            final(self).updated_at == at,
            final(self).id == old(self).id,
            final(self).title == old(self).title,
            final(self).list_id == old(self).list_id,
            final(self).tag_ids == old(self).tag_ids,
            final(self).priority == old(self).priority,
    {
        self.completed = false;
        self.completed_at = None;
        self.updated_at = at;
    }

    /// Mark completed now.
    pub fn complete(&mut self)
        ensures
            final(self).completed,
            final(self).completed_at == Some(final(self).updated_at),
            final(self).id == old(self).id,
            final(self).title == old(self).title,
            final(self).list_id == old(self).list_id,
            final(self).tag_ids == old(self).tag_ids,
    {
        self.complete_at(now());
    }

    /// Mark not completed, updated now.
    pub fn uncomplete(&mut self)
        ensures
            !final(self).completed,
            final(self).completed_at.is_none(),
            final(self).id == old(self).id,
            final(self).title == old(self).title,
            final(self).list_id == old(self).list_id,
            final(self).tag_ids == old(self).tag_ids,
    {
        self.uncomplete_at(now());
    }

    /// Flip completion.
    pub fn toggle(&mut self)
        ensures
            final(self).completed == !old(self).completed,
            final(self).completed ==> final(self).completed_at == Some(final(self).updated_at),
            !final(self).completed ==> final(self).completed_at.is_none(),
            final(self).id == old(self).id,
            final(self).title == old(self).title,
            final(self).list_id == old(self).list_id,
            final(self).tag_ids == old(self).tag_ids,
    {
        if self.completed {
            self.uncomplete();
        } else {
            self.complete();
        }
    }

    /// Set the description.
    pub fn with_description(self, description: &str) -> (r: Task)
        ensures
            r.description matches Some(d) && d@ == description@,
            r.id == self.id,
            r.title == self.title,
            r.url == self.url,
            r.priority == self.priority,
            r.list_id == self.list_id,
            r.tag_ids == self.tag_ids,
            r.due_date == self.due_date,
    {
        let mut t = self;
        t.description = Some(String::from_str(description));
        t
    }

    /// Set the URL.
    pub fn with_url(self, url: &str) -> (r: Task)
        ensures
            r.url matches Some(u) && u@ == url@,
            r.id == self.id,
            r.title == self.title,
            r.description == self.description,
            r.priority == self.priority,
            r.list_id == self.list_id,
            r.tag_ids == self.tag_ids,
            r.due_date == self.due_date,
    {
        let mut t = self;
        t.url = Some(String::from_str(url));
        t
    }

    /// Set the priority.
    pub fn with_priority(self, priority: Priority) -> (r: Task)
        ensures
            r.priority == priority,
            r.id == self.id,
            r.title == self.title,
            r.description == self.description,
            r.url == self.url,
            r.list_id == self.list_id,
            r.tag_ids == self.tag_ids,
            r.due_date == self.due_date,
    {
        let mut t = self;
        t.priority = priority;
        t
    }

    /// Set the due date.
    pub fn with_due_date(self, due_date: Timestamp) -> (r: Task)
        ensures
            r.due_date == Some(due_date),
            r.id == self.id,
            r.title == self.title,
            r.description == self.description,
            r.url == self.url,
            r.priority == self.priority,
            r.list_id == self.list_id,
            r.tag_ids == self.tag_ids,
    {
        let mut t = self;
        t.due_date = Some(due_date);
        t
    }

    /// Attach a tag, once.
    pub fn with_tag(self, tag_id: u128) -> (r: Task)
        ensures
            r.id == self.id,
            r.title == self.title,
            r.list_id == self.list_id,
            self.tag_ids@.contains(tag_id) ==> r.tag_ids@ == self.tag_ids@,
            !self.tag_ids@.contains(tag_id) ==> r.tag_ids@ == self.tag_ids@.push(tag_id),
    {
        let mut t = self;
        let mut i: usize = 0;
        while i < t.tag_ids.len()
            invariant
                t == self,
                i <= t.tag_ids@.len(),
                forall|j: int| 0 <= j < i ==> t.tag_ids@[j] != tag_id,
            decreases t.tag_ids@.len() - i,
        {
            if t.tag_ids[i] == tag_id {
                return t;
            }
            i += 1;
        }
        t.tag_ids.push(tag_id);
        t
    }
}

impl List {
    /// A new list with a fresh identifier and the clipboard icon, created and
    /// updated now.
    pub fn new(name: &str) -> (r: List)
        ensures
            r.name@ == name@,
            r.description.is_none(),
            r.icon@ == "\u{1f4cb}"@,
            r.color.is_none(),
            !r.is_inbox,
            r.created_at == r.updated_at,
            r.sort_order == 0,
    {
        let t = now();
        List {
            id: fresh_id(),
            name: String::from_str(name),
            description: None,
            icon: String::from_str("\u{1f4cb}"),
            color: None,
            is_inbox: false,
            created_at: t,
            updated_at: t,
            sort_order: 0,
        }
    }

    /// The default Inbox list, sorted first.
    pub fn inbox() -> (r: List)
        ensures
            r.name@ == "Inbox"@,
            r.description matches Some(d) && d@ == "Default list for new tasks"@,
            r.icon@ == "\u{1f4e5}"@,
            r.color.is_none(),
            r.is_inbox,
            r.created_at == r.updated_at,
            r.sort_order == -1,
    {
        let t = now();
        List {
            id: fresh_id(),
            name: String::from_str("Inbox"),
            description: Some(String::from_str("Default list for new tasks")),
            icon: String::from_str("\u{1f4e5}"),
            color: None,
            is_inbox: true,
            created_at: t,
            updated_at: t,
            sort_order: -1,
        }
    }
}

impl List {
    /// Set the icon.
    pub fn with_icon(self, icon: &str) -> (r: List)
        ensures
            r.icon@ == icon@,
            r.id == self.id,
            r.name == self.name,
            r.description == self.description,
            r.color == self.color,
            r.is_inbox == self.is_inbox,
            r.sort_order == self.sort_order,
    {
        let mut l = self;
        l.icon = String::from_str(icon);
        l
    }

    /// Set the color.
    pub fn with_color(self, color: &str) -> (r: List)
        ensures
            r.color matches Some(c) && c@ == color@,
            r.id == self.id,
            r.name == self.name,
            r.description == self.description,
            r.icon == self.icon,
            r.is_inbox == self.is_inbox,
            r.sort_order == self.sort_order,
    {
        let mut l = self;
        l.color = Some(String::from_str(color));
        l
    }

    /// Set the description.
    pub fn with_description(self, description: &str) -> (r: List)
        ensures
            r.description matches Some(d) && d@ == description@,
            r.id == self.id,
            r.name == self.name,
            r.icon == self.icon,
            r.color == self.color,
            r.is_inbox == self.is_inbox,
            r.sort_order == self.sort_order,
    {
        let mut l = self;
        l.description = Some(String::from_str(description));
        l
    }
}

impl Tag {
    /// A new tag with a fresh identifier, created now, with a palette color
    /// picked by the current time.
    pub fn new(name: &str) -> (r: Tag)
        ensures
            r.name@ == name@,
            tag_palette().contains(r.color@),
    {
        let t = now();
        let color = tag_color_for(t.nanos);
        proof {
            assert(tag_palette()[(t.nanos % 10) as int] == color@);
        }
        Tag { id: fresh_id(), name: String::from_str(name), color, created_at: t }
    }

    /// Set the color.
    pub fn with_color(self, color: &str) -> (r: Tag)
        ensures
            r.id == self.id,
            r.name == self.name,
            r.color@ == color@,
            r.created_at == self.created_at,
    {
        let mut g = self;
        g.color = String::from_str(color);
        g
    }
}

/// Export format for tasks.
#[derive(Debug, Clone, Copy, PartialEq, Eq, Structural, Hash)]
pub enum ExportFormat {
    /// JSON format
    Json,
    /// todo.txt format
    TodoTxt,
    /// Markdown format
    Markdown,
    /// CSV format
    Csv,
}

impl ExportFormat {
    /// All export formats.
    pub fn all() -> (r: [ExportFormat; 4])
        ensures
            r@ == seq![ExportFormat::Json, ExportFormat::TodoTxt, ExportFormat::Markdown, ExportFormat::Csv],
    {
        [ExportFormat::Json, ExportFormat::TodoTxt, ExportFormat::Markdown, ExportFormat::Csv]
    }

    /// The display name.
    pub fn name(&self) -> (r: &'static str)
        ensures
            r@ == match *self {
                ExportFormat::Json => "JSON"@,
                ExportFormat::TodoTxt => "todo.txt"@,
                ExportFormat::Markdown => "Markdown"@,
                ExportFormat::Csv => "CSV"@,
            },
    {
        match self {
            ExportFormat::Json => "JSON",
            ExportFormat::TodoTxt => "todo.txt",
            ExportFormat::Markdown => "Markdown",
            ExportFormat::Csv => "CSV",
        }
    }

    /// The file extension.
    pub fn extension(&self) -> (r: &'static str)
        ensures
            r@ == match *self {
                ExportFormat::Json => "json"@,
                ExportFormat::TodoTxt => "txt"@,
                ExportFormat::Markdown => "md"@,
                ExportFormat::Csv => "csv"@,
            },
    {
        match self {
            ExportFormat::Json => "json",
            ExportFormat::TodoTxt => "txt",
            ExportFormat::Markdown => "md",
            ExportFormat::Csv => "csv",
        }
    }
}

} // verus!

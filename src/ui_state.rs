//! Modes, views, focus and editor fields of the terminal interface.

use vstd::prelude::*;
use vstd::view::View as _;

verus! {

/// Input mode of the interface.
#[derive(Debug, Clone, Copy, PartialEq, Eq, Structural)]
pub enum Mode {
    /// Normal navigation mode
    Normal,
    /// Theme picker dialog
    ThemePicker,
    /// Help dialog
    Help,
    /// Adding a new task
    AddTask,
    /// Editing a task
    EditTask,
    /// Adding a new list
    AddList,
    /// Editing a list
    EditList,
    /// Adding a new tag
    AddTag,
    /// Editing a tag
    EditTag,
    /// Confirmation dialog
    Confirm,
    /// Export dialog
    Export,
    /// About dialog
    About,
}

/// Current view/tab.
#[derive(Debug, Clone, Copy, PartialEq, Eq, Structural)]
pub enum View {
    /// All tasks
    Tasks,
    /// Lists
    Lists,
    /// Tags
    Tags,
}

impl View {
    /// All views, in tab order.
    pub fn all() -> (r: [View; 3])
        ensures
            r@ == seq![View::Tasks, View::Lists, View::Tags],
    {
        [View::Tasks, View::Lists, View::Tags]
    }

    /// The tab title.
    pub fn name(&self) -> (r: &'static str)
        ensures
            r@ == match *self {
                View::Tasks => "Tasks"@,
                View::Lists => "Lists"@,
                View::Tags => "Tags"@,
            },
    {
        match self {
            View::Tasks => "Tasks",
            View::Lists => "Lists",
            View::Tags => "Tags",
        }
    }

    /// The tab icon.
    pub fn icon(&self) -> (r: &'static str)
        ensures
            r@ == match *self {
                View::Tasks => "\u{2713}"@,
                View::Lists => "\u{1f4cb}"@,
                View::Tags => "\u{1f3f7}"@,
            },
    {
        match self {
            View::Tasks => "\u{2713}",
            View::Lists => "\u{1f4cb}",
            View::Tags => "\u{1f3f7}",
        }
    }
}

/// Focus area within a view.
#[derive(Debug, Clone, Copy, PartialEq, Eq, Structural)]
pub enum Focus {
    /// Sidebar (lists)
    Sidebar,
    /// Main content area
    Main,
}

/// Editor field being edited.
#[derive(Debug, Clone, Copy, PartialEq, Eq, Structural)]
pub enum EditorField {
    Title,
    Description,
    Url,
    Priority,
    List,
    Tags,
    DueDate,
    Name,
    Icon,
    Color,
}

/// The cycle of fields in the task editor.
pub open spec fn task_field_cycle() -> Seq<EditorField> {
    seq![
        EditorField::Title,
        EditorField::Description,
        EditorField::DueDate,
        EditorField::Priority,
        EditorField::List,
        EditorField::Tags,
    ]
}

impl EditorField {
    /// The field after this one in the task editor's cycle; Title for a
    /// field outside the cycle.
    pub fn next_task_field(&self) -> (r: EditorField)
        ensures
            forall|i: int| 0 <= i < 6 && #[trigger] task_field_cycle()[i] == *self ==> r == task_field_cycle()[(i + 1) % 6],
            !task_field_cycle().contains(*self) ==> r == EditorField::Title,
    {
        match self {
            EditorField::Title => EditorField::Description,
            EditorField::Description => EditorField::DueDate,
            EditorField::DueDate => EditorField::Priority,
            EditorField::Priority => EditorField::List,
            EditorField::List => EditorField::Tags,
            EditorField::Tags => EditorField::Title,
            _ => EditorField::Title,
        }
    }

    /// The field before this one in the task editor's cycle; Title for a
    /// field outside the cycle.
    pub fn prev_task_field(&self) -> (r: EditorField)
        ensures
            forall|i: int| 0 <= i < 6 && #[trigger] task_field_cycle()[i] == *self ==> r == task_field_cycle()[(i + 5) % 6],
            !task_field_cycle().contains(*self) ==> r == EditorField::Title,
    {
        match self {
            EditorField::Title => EditorField::Tags,
            EditorField::Description => EditorField::Title,
            EditorField::DueDate => EditorField::Description,
            EditorField::Priority => EditorField::DueDate,
            EditorField::List => EditorField::Priority,
            EditorField::Tags => EditorField::List,
            _ => EditorField::Title,
        }
    }
}

} // verus!

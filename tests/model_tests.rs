use tickit::reminders::{due_notice, DueNotice};
use tickit::config::{default_date_format, Config};
use tickit::client::default_sync_interval;
use tickit::export::csv_escape;
use tickit::models::{tag_color_for, ExportFormat, List, Priority, Tag, Task, Timestamp};
use tickit::sync_types::RecordType;
use tickit::ui_state::{EditorField, View};
use tickit::update::{parse_u32, version_check_from, version_is_newer, PackageManager, VersionCheck};

#[test]
fn priority_cycles() {
    assert_eq!(Priority::Low.next(), Priority::Medium);
    assert_eq!(Priority::Urgent.next(), Priority::Low);
    assert_eq!(Priority::Low.prev(), Priority::Urgent);
    assert_eq!(Priority::High.prev(), Priority::Medium);
    assert_eq!(Priority::all().len(), 4);
    assert_eq!(Priority::Urgent.name(), "Urgent");
    assert_eq!(Priority::Low.icon(), "\u{25cb}");
    assert!(Priority::Low < Priority::Urgent);
}

#[test]
fn export_formats() {
    assert_eq!(ExportFormat::all().len(), 4);
    assert_eq!(ExportFormat::TodoTxt.name(), "todo.txt");
    assert_eq!(ExportFormat::Markdown.extension(), "md");
    assert_eq!(ExportFormat::Json.extension(), "json");
}

#[test]
fn views_and_editor_fields() {
    assert_eq!(View::all().len(), 3);
    assert_eq!(View::Lists.name(), "Lists");
    assert_eq!(View::Tasks.icon(), "\u{2713}");
    assert_eq!(EditorField::Title.next_task_field(), EditorField::Description);
    assert_eq!(EditorField::Tags.next_task_field(), EditorField::Title);
    assert_eq!(EditorField::Title.prev_task_field(), EditorField::Tags);
    assert_eq!(EditorField::Color.next_task_field(), EditorField::Title);
}

#[test]
fn csv_escaping() {
    assert_eq!(csv_escape("plain"), "plain");
    assert_eq!(csv_escape("a,b"), "\"a,b\"");
    assert_eq!(csv_escape("say \"hi\""), "\"say \"\"hi\"\"\"");
    assert_eq!(csv_escape("two\nlines"), "\"two\nlines\"");
    assert_eq!(csv_escape(""), "");
}

#[test]
fn version_comparison() {
    assert!(version_is_newer("1.2.4", "1.2.3"));
    assert!(version_is_newer("2.0.0", "1.9.9"));
    assert!(!version_is_newer("1.2.3", "1.2.3"));
    assert!(!version_is_newer("1.2", "1.2.0"));
    assert!(version_is_newer("1.3", "1.2.9"));
    assert!(!version_is_newer("0.9.10", "1.0.0"));
    assert!(version_is_newer("1.x.2", "1.1"));
    assert_eq!(parse_u32("+12"), Some(12));
    assert_eq!(parse_u32("4294967295"), Some(u32::MAX));
    assert_eq!(parse_u32("4294967296"), None);
    assert_eq!(parse_u32(""), None);
    assert_eq!(parse_u32("+"), None);
    assert_eq!(parse_u32("1a"), None);
}

#[test]
fn version_check_outcomes() {
    assert_eq!(
        version_check_from(Some("9.0.0".to_string()), "0.1.0"),
        VersionCheck::UpdateAvailable { latest: "9.0.0".to_string(), current: "0.1.0".to_string() }
    );
    assert_eq!(version_check_from(Some("0.1.0".to_string()), "0.1.0"), VersionCheck::UpToDate);
    assert_eq!(
        version_check_from(None, "0.1.0"),
        VersionCheck::CheckFailed("Could not parse crates.io response".to_string())
    );
}

#[test]
fn package_manager_commands() {
    assert_eq!(PackageManager::Cargo.name(), "cargo");
    assert_eq!(PackageManager::Cargo.update_command(), "cargo install tickit");
    let brew = PackageManager::Homebrew { formula: "me/tap/tickit".to_string() };
    assert_eq!(brew.name(), "brew");
    assert_eq!(brew.update_command(), "brew upgrade me/tap/tickit");
}

#[test]
fn record_type_labels() {
    assert_eq!(RecordType::from_label(&"list".to_string()), RecordType::List);
    assert_eq!(RecordType::from_label(&"tag".to_string()), RecordType::Tag);
    assert_eq!(RecordType::from_label(&"task".to_string()), RecordType::Task);
    assert_eq!(RecordType::from_label(&"bogus".to_string()), RecordType::Task);
}

#[test]
fn constructors_use_fresh_ids_and_current_time() {
    let a = Task::new("first", 5);
    let b = Task::new("second", 5);
    assert_ne!(a.id, b.id);
    assert_eq!(a.title, "first");
    assert_eq!(a.priority, Priority::Medium);
    assert_eq!(a.created_at, a.updated_at);
    assert!(a.created_at.secs > 1_600_000_000);
    let inbox = List::inbox();
    assert!(inbox.is_inbox);
    assert_eq!(inbox.sort_order, -1);
    assert_eq!(inbox.name, "Inbox");
    assert_eq!(List::new("Work").icon, "\u{1f4cb}");
    let t = Tag::new("x").with_color("#000000");
    assert_eq!(t.color, "#000000");
    assert!(Tag::new("y").color.starts_with('#'));
}

#[test]
fn task_completion_and_tags() {
    let mut t = Task::new("t", 1);
    t.toggle();
    assert!(t.completed);
    assert_eq!(t.completed_at, Some(t.updated_at));
    t.toggle();
    assert!(!t.completed);
    assert_eq!(t.completed_at, None);
    t.complete_at(Timestamp { secs: 5, nanos: 0 });
    assert_eq!(t.completed_at, Some(Timestamp { secs: 5, nanos: 0 }));
    let t = t.with_tag(9).with_tag(9).with_tag(3);
    assert_eq!(t.tag_ids, vec![9, 3]);
}

#[test]
fn timestamps_order() {
    let a = Timestamp { secs: 1, nanos: 5 };
    let b = Timestamp { secs: 1, nanos: 6 };
    assert!(b.is_after(&a));
    assert!(!a.is_after(&b));
    assert!(!a.is_after(&a));
}

#[test]
fn palette_and_defaults() {
    assert_eq!(tag_color_for(0), "#f38ba8");
    assert_eq!(tag_color_for(19), "#89dceb");
    assert_eq!(default_sync_interval(), 300);
    assert_eq!(default_date_format(), "%Y-%m-%d");
    let c = Config::default();
    assert!(c.show_completed && c.vim_mode && c.notifications);
    assert_eq!(c.sync.interval_secs, 0);
}

#[test]
fn builders_set_one_field() {
    let t = Task::new("t", 1)
        .with_description("d")
        .with_url("https://x")
        .with_priority(Priority::High)
        .with_due_date(Timestamp { secs: 9, nanos: 1 });
    assert_eq!(t.description.as_deref(), Some("d"));
    assert_eq!(t.url.as_deref(), Some("https://x"));
    assert_eq!(t.priority, Priority::High);
    assert_eq!(t.due_date, Some(Timestamp { secs: 9, nanos: 1 }));
    let l = List::new("w").with_icon("I").with_color("red").with_description("dd");
    assert_eq!(l.icon, "I");
    assert_eq!(l.color.as_deref(), Some("red"));
    assert_eq!(l.description.as_deref(), Some("dd"));
    assert_eq!(l.name, "w");
}

#[test]
fn due_reminders() {
    assert_eq!(due_notice(10, 10, false, Priority::Low), Some(DueNotice::Today));
    assert_eq!(due_notice(11, 10, false, Priority::Urgent), Some(DueNotice::Tomorrow));
    assert_eq!(due_notice(11, 10, false, Priority::Medium), None);
    assert_eq!(due_notice(3, 10, false, Priority::Low), Some(DueNotice::Overdue));
    assert_eq!(due_notice(3, 10, true, Priority::Low), None);
    assert_eq!(due_notice(i64::MIN, i64::MAX, false, Priority::High), Some(DueNotice::Overdue));
    assert_eq!(due_notice(20, 10, false, Priority::High), None);
}

fn day(secs: i64) -> Timestamp {
    Timestamp { secs, nanos: 0 }
}

fn export_fixture() -> (Vec<Task>, Vec<List>, Vec<Tag>) {
    // 2024-01-01T00:00:00Z and 2024-01-15T12:30:45Z
    let jan1 = 1_704_067_200;
    let jan15 = 1_705_321_845;
    let inbox = List { id: 1, name: "My Inbox".to_string(), icon: "I".to_string(), ..List::new("x") };
    let other = List { id: 2, name: "Empty".to_string(), icon: "E".to_string(), ..List::new("y") };
    let home = Tag { id: 7, name: "at home".to_string(), color: "#fff".to_string(), created_at: day(jan1) };
    let work = Tag { id: 8, name: "work".to_string(), color: "#000".to_string(), created_at: day(jan1) };
    let open = Task {
        id: 10,
        title: "Buy milk".to_string(),
        description: Some("2, \"fresh\"".to_string()),
        url: Some("https://shop".to_string()),
        priority: Priority::Urgent,
        completed: false,
        list_id: 1,
        tag_ids: vec![7, 99, 8],
        created_at: day(jan1),
        updated_at: day(jan1),
        completed_at: None,
        due_date: Some(day(jan15)),
    };
    let done = Task {
        id: 11,
        title: "Call".to_string(),
        description: None,
        url: None,
        priority: Priority::Medium,
        completed: true,
        list_id: 1,
        tag_ids: vec![],
        created_at: day(jan1),
        updated_at: day(jan15),
        completed_at: Some(day(jan15)),
        due_date: None,
    };
    (vec![open, done], vec![inbox, other], vec![home, work])
}

#[test]
fn todo_txt_export() {
    let (tasks, lists, tags) = export_fixture();
    let text = tickit::export::export_todotxt(&tasks, &lists, &tags);
    assert_eq!(
        text,
        "(A) 2024-01-01 Buy milk +My_Inbox @at_home @work due:2024-01-15 url:https://shop\n\
         x 2024-01-15 2024-01-01 Call +My_Inbox\n"
    );
}

#[test]
fn csv_export() {
    let (tasks, lists, tags) = export_fixture();
    let text = tickit::export::export_csv(&tasks, &lists, &tags);
    assert_eq!(
        text,
        "Title,Description,URL,Priority,Completed,List,Tags,Due Date,Created At\n\
         Buy milk,\"2, \"\"fresh\"\"\",https://shop,Urgent,false,My Inbox,at home; work,2024-01-15,2024-01-01 00:00:00\n\
         Call,,,Medium,true,My Inbox,,,2024-01-01 00:00:00\n"
    );
}

#[test]
fn markdown_export() {
    let (tasks, lists, tags) = export_fixture();
    let text = tickit::export::export_markdown(&tasks, &lists, &tags, day(1_705_321_845));
    assert_eq!(
        text,
        "# Tasks\n\nExported: 2024-01-15 12:30:45 UTC\n\n\
         ## I My Inbox\n\n\
         - [ ] \u{1f534} Buy milk `at home` `work`\n\
         \x20 - 2, \"fresh\"\n\
         \x20 - \u{1f517} https://shop\n\
         \x20 - \u{1f4c5} Due: 2024-01-15\n\
         - [x] Call\n\n"
    );
}

#[test]
fn underscores_and_lookups() {
    let (_, lists, tags) = export_fixture();
    assert_eq!(tickit::export::underscore_spaces("a b  c"), "a_b__c");
    assert_eq!(tickit::export::find_list_name(&lists, 2), Some("Empty".to_string()));
    assert_eq!(tickit::export::find_list_name(&lists, 3), None);
    assert_eq!(tickit::export::find_tag_name(&tags, 8), Some("work".to_string()));
}

#[test]
fn command_line_words() {
    assert_eq!(tickit::lookup::parse_priority("HIGH"), Priority::High);
    assert_eq!(tickit::lookup::parse_priority("u"), Priority::Urgent);
    assert_eq!(tickit::lookup::parse_priority("L"), Priority::Low);
    assert_eq!(tickit::lookup::parse_priority("whatever"), Priority::Medium);
    assert_eq!(tickit::lookup::priority_from_word(&"h".to_string()), Priority::High);
    assert_eq!(tickit::lookup::parse_export_format("Todo.TXT"), ExportFormat::TodoTxt);
    assert_eq!(tickit::lookup::parse_export_format("MD"), ExportFormat::Markdown);
    assert_eq!(tickit::lookup::parse_export_format("csv"), ExportFormat::Csv);
    assert_eq!(tickit::lookup::parse_export_format("xml"), ExportFormat::Json);
    assert_eq!(tickit::lookup::format_from_word(&"txt".to_string()), ExportFormat::TodoTxt);
}

#[test]
fn finding_tasks() {
    let mut a = Task::new("Buy Milk", 1);
    a.id = 0x67e5504410b1426f9247bb680e5fe0c8;
    let b = Task::new("Call mom", 1);
    let tasks = vec![a, b];
    assert_eq!(tickit::lookup::find_task(&tasks, "67e55044-10b1-426f-9247-bb680e5fe0c8"), Some(0));
    assert_eq!(tickit::lookup::find_task(&tasks, "00000000-0000-0000-0000-000000000001"), None);
    assert_eq!(tickit::lookup::find_task(&tasks, "MOM"), Some(1));
    assert_eq!(tickit::lookup::find_task(&tasks, "milk"), Some(0));
    assert_eq!(tickit::lookup::find_task(&tasks, "bread"), None);
    assert!(tickit::lookup::text_contains("hello", "ll"));
    assert!(tickit::lookup::text_contains("hello", ""));
    assert!(!tickit::lookup::text_contains("he", "hello"));
}

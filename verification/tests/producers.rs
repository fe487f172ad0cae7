use gitu::display::{DisplayText, SpanStyle, StyleColor};
use gitu::items::{Item, TargetData};
use gitu::render::LineHighlight;
use gitu::screen::Screen;
use gitu::status::{
    create, create_log_section_items, create_status_items, create_status_section_items,
    staged_entry_status, unstaged_entry_status, StatusEntryInfo, Theme,
};

fn plain_theme() -> Theme {
    Theme {
        section: SpanStyle { fg: Some(StyleColor::Blue), bg: None, bold: true, dim: false },
        untracked_file: SpanStyle {
            fg: Some(StyleColor::LightMagenta),
            bg: None,
            bold: false,
            dim: false,
        },
        unstaged_file: SpanStyle { fg: Some(StyleColor::Red), bg: None, bold: true, dim: false },
        unmerged_file: SpanStyle { fg: Some(StyleColor::Yellow), bg: None, bold: true, dim: false },
        entry: SpanStyle::plain(),
    }
}

fn entry(path: &str) -> StatusEntryInfo {
    StatusEntryInfo {
        path: path.to_string(),
        wt_new: false,
        wt_modified: false,
        index_new: false,
        index_deleted: false,
        index_typechange: false,
        index_renamed: false,
        label: String::new(),
    }
}

fn line_text(it: &Item) -> String {
    let mut s = String::new();
    for line in it.display.lines.iter() {
        for span in line.spans.iter() {
            s.push_str(&span.text);
        }
    }
    s
}

#[test]
fn unstaged_status_wording() {
    let mut e = entry("a.txt");
    e.wt_modified = true;
    assert_eq!(unstaged_entry_status(&e), "modified");
    let mut other = entry("b.txt");
    other.label = "renamed".to_string();
    assert_eq!(unstaged_entry_status(&other), "renamed");
}

#[test]
fn staged_status_wording() {
    let mut e = entry("a.txt");
    e.index_new = true;
    assert_eq!(staged_entry_status(&e), "new file");
    let mut other = entry("b.txt");
    other.label = "typechange".to_string();
    assert_eq!(staged_entry_status(&other), "typechange");
}

#[test]
fn status_items_group_entries_under_counted_headers() {
    let mut a = entry("a.txt");
    a.wt_new = true;
    let mut b = entry("b.txt");
    b.wt_new = true;
    let mut c = entry("c.txt");
    c.wt_modified = true;
    let mut d = entry("d.txt");
    d.index_new = true;
    let items = create_status_items(&vec![a, b, c, d], &plain_theme());
    assert_eq!(items.len(), 7);
    assert_eq!(items[0].id, "untracked");
    assert_eq!(line_text(&items[0]), "Untracked files (2)");
    assert!(items[0].section);
    assert_eq!(line_text(&items[1]), "a.txt");
    assert_eq!(items[1].depth, 1);
    assert_eq!(items[1].target_data, Some(TargetData::File("a.txt".to_string())));
    assert_eq!(line_text(&items[2]), "b.txt");
    assert_eq!(items[3].id, "unstaged");
    assert_eq!(line_text(&items[3]), "Unstaged changes (1)");
    assert_eq!(line_text(&items[4]), "modified   c.txt");
    assert_eq!(items[5].id, "staged");
    assert_eq!(line_text(&items[5]), "Staged changes (1)");
    assert_eq!(line_text(&items[6]), "new file   d.txt");
}

#[test]
fn status_items_skip_empty_groups() {
    let mut c = entry("c.txt");
    c.wt_modified = true;
    let items = create_status_items(&vec![c], &plain_theme());
    assert_eq!(items.len(), 2);
    assert_eq!(items[0].id, "unstaged");
    assert_eq!(line_text(&items[1]), "modified   c.txt");
}

#[test]
fn counted_labels_print_multi_digit_counts() {
    let mut statuses = Vec::new();
    for i in 0..12 {
        let mut e = entry(&format!("f{}.txt", i));
        e.wt_new = true;
        statuses.push(e);
    }
    let items = create_status_items(&statuses, &plain_theme());
    assert_eq!(line_text(&items[0]), "Untracked files (12)");
}

#[test]
fn diff_section_keeps_its_header_only_when_nonempty() {
    let theme = plain_theme();
    let child = Item {
        id: "a.txt".to_string(),
        display: DisplayText::styled_line("a.txt".to_string(), theme.entry),
        depth: 1,
        unselectable: false,
        section: false,
        target_data: Some(TargetData::File("a.txt".to_string())),
    };
    let with = create_status_section_items("Unstaged changes", 1, vec![child.clone()], &theme);
    assert_eq!(with.len(), 3);
    assert!(with[0].unselectable);
    assert_eq!(with[1].id, "Unstaged changes");
    assert_eq!(line_text(&with[1]), "Unstaged changes (1)");
    assert_eq!(with[2], child);
    let without = create_status_section_items("Unstaged changes", 0, Vec::new(), &theme);
    assert!(without.is_empty());
}

#[test]
fn log_section_always_carries_its_header() {
    let theme = plain_theme();
    let items = create_log_section_items("Recent commits", Vec::new(), &theme);
    assert_eq!(items.len(), 2);
    assert!(items[0].unselectable);
    assert_eq!(items[1].id, "Recent commits");
    assert_eq!(line_text(&items[1]), "Recent commits");
}

#[test]
fn full_status_screen_layout() {
    let theme = plain_theme();
    let banner = DisplayText::styled_line("On branch main".to_string(), SpanStyle::plain());
    let items = create(
        Some(banner),
        &vec!["new.txt".to_string()],
        &Vec::new(),
        0,
        Vec::new(),
        0,
        Vec::new(),
        Vec::new(),
        &theme,
    );
    // banner, blank, untracked header, one file, blank, log header
    assert_eq!(items.len(), 6);
    assert_eq!(items[0].id, "status");
    assert!(items[0].unselectable);
    assert_eq!(items[2].id, "untracked");
    assert_eq!(line_text(&items[2]), "Untracked files");
    assert_eq!(line_text(&items[3]), "new.txt");
    assert_eq!(items[3].depth, 1);
    assert_eq!(items[5].id, "Recent commits");
}

#[test]
fn span_widths_come_from_the_text() {
    let t = DisplayText::styled_line("abc".to_string(), SpanStyle::plain());
    assert_eq!(t.lines[0].spans[0].width, 3);
    let empty = DisplayText::styled_line(String::new(), SpanStyle::plain());
    assert_eq!(empty.lines[0].spans[0].width, 0);
}

fn row(text: &str, depth: usize, selectable: bool) -> Item {
    Item {
        id: text.to_string(),
        display: DisplayText::styled_line(text.to_string(), SpanStyle::plain()),
        depth,
        unselectable: !selectable,
        section: false,
        target_data: None,
    }
}

#[test]
fn render_highlights_the_selected_block() {
    let mut sec = row("header", 0, true);
    sec.section = true;
    let items = vec![sec, row("child", 1, true), row("after", 0, true)];
    let mut screen = Screen::new(40, 10, items);
    screen.cursor = 0;
    let frame = screen.render();
    assert_eq!(frame.len(), 3);
    assert_eq!(frame[0].highlight, LineHighlight::Selected);
    assert!(frame[0].cursor_glyph);
    assert_eq!(frame[1].highlight, LineHighlight::Ancestor);
    assert!(!frame[1].cursor_glyph);
    assert_eq!(frame[2].highlight, LineHighlight::Plain);
}

#[test]
fn render_truncates_at_the_viewport_width() {
    let items = vec![row("a very long line of text", 0, true)];
    let screen = Screen::new(10, 5, items);
    let frame = screen.render();
    assert_eq!(frame.len(), 1);
    assert_eq!(frame[0].placements.len(), 1);
    assert_eq!(frame[0].placements[0].x, 1);
    assert_eq!(frame[0].ellipsis_at, Some(9));
}

#[test]
fn render_marks_collapsed_sections_with_an_ellipsis() {
    let mut sec = row("header", 0, true);
    sec.section = true;
    let items = vec![sec, row("child", 1, true)];
    let mut screen = Screen::new(40, 10, items);
    screen.toggle_section();
    let frame = screen.render();
    assert_eq!(frame.len(), 1);
    // the header text is 6 wide and starts at column 1
    assert_eq!(frame[0].ellipsis_at, Some(7));
}

#[test]
fn render_highlight_state_is_window_local() {
    // scrolling past the cursor row leaves its later descendants unbanded:
    // the highlight opens only at a line of the cursor row itself
    let mut sec = row("header", 0, true);
    sec.section = true;
    let mut items = vec![sec];
    for i in 0..3 {
        let mut c = row(&format!("child {}", i), 1, true);
        c.depth = 1;
        items.push(c);
    }
    let mut screen = Screen::new(40, 2, items);
    assert_eq!(screen.cursor, 0);
    screen.scroll = 2;
    let frame = screen.render();
    assert_eq!(frame.len(), 2);
    assert_eq!(frame[0].row, 2);
    assert_eq!(frame[0].highlight, LineHighlight::Plain);
    assert_eq!(frame[1].highlight, LineHighlight::Plain);
}

#[test]
fn render_windows_by_scroll_and_height() {
    let items = vec![
        row("one", 0, true),
        row("two", 0, true),
        row("three", 0, true),
        row("four", 0, true),
    ];
    let mut screen = Screen::new(40, 2, items);
    screen.scroll = 1;
    let frame = screen.render();
    assert_eq!(frame.len(), 2);
    assert_eq!(frame[0].row, 1);
    assert_eq!(frame[1].row, 2);
    screen.scroll = 10;
    assert!(screen.render().is_empty());
}

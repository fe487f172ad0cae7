use gitu::display::{DisplayText, SpanStyle};
use gitu::input::{handle_key, Action, KeyInput};
use gitu::items::{Item, TargetData};
use gitu::screen::{collapsed_items_iter, Screen};

fn styled(text: &str) -> DisplayText {
    DisplayText::styled_line(text.to_string(), SpanStyle::plain())
}

fn file(path: &str) -> Item {
    Item {
        id: path.to_string(),
        display: styled(path),
        depth: 1,
        unselectable: false,
        section: false,
        target_data: Some(TargetData::File(path.to_string())),
    }
}

fn section(label: &str, id: &str) -> Item {
    Item {
        id: id.to_string(),
        display: styled(label),
        depth: 0,
        unselectable: false,
        section: true,
        target_data: None,
    }
}

fn filler(text: &str) -> Item {
    Item {
        id: String::new(),
        display: styled(text),
        depth: 0,
        unselectable: true,
        section: false,
        target_data: None,
    }
}

fn status_forest() -> Vec<Item> {
    vec![
        section("Untracked", "untracked"),
        file("a.txt"),
        file("b.txt"),
        section("Staged", "staged"),
        file("c.txt"),
    ]
}

#[test]
fn collapse_hides_exactly_the_subtree() {
    let mut screen = Screen::new(80, 10, status_forest());
    assert_eq!(screen.cursor, 0);
    screen.toggle_section();
    let visible = collapsed_items_iter(&screen.items, &screen.collapsed);
    assert_eq!(visible, vec![0, 3, 4]);
}

#[test]
fn collapsed_section_with_no_children_keeps_its_header() {
    let items = vec![section("Empty", "empty"), section("Other", "other"), file("x.txt")];
    let mut screen = Screen::new(80, 10, items);
    screen.toggle_section();
    let visible = collapsed_items_iter(&screen.items, &screen.collapsed);
    assert_eq!(visible, vec![0, 1, 2]);
}

#[test]
fn nested_collapse_inside_a_collapsed_section_stays_hidden() {
    let mut items = vec![section("Outer", "outer")];
    let mut inner = section("Inner", "inner");
    inner.depth = 1;
    items.push(inner);
    let mut deep = file("deep.txt");
    deep.depth = 2;
    items.push(deep);
    let mut next = file("next.txt");
    next.depth = 0;
    items.push(next);
    let mut screen = Screen::new(80, 10, items);
    // collapse the inner section first, then the outer one
    screen.cursor = 1;
    screen.toggle_section();
    screen.cursor = 0;
    screen.toggle_section();
    let visible = collapsed_items_iter(&screen.items, &screen.collapsed);
    assert_eq!(visible, vec![0, 3]);
}

#[test]
fn select_next_skips_hidden_rows() {
    let mut screen = Screen::new(80, 10, status_forest());
    screen.toggle_section();
    screen.select_next();
    assert_eq!(screen.cursor, 3);
}

#[test]
fn select_next_skips_unselectable_rows() {
    let items = vec![file("a.txt"), filler("decoration"), file("b.txt")];
    let mut screen = Screen::new(80, 10, items);
    assert_eq!(screen.cursor, 0);
    screen.select_next();
    assert_eq!(screen.cursor, 2);
}

#[test]
fn select_next_stays_put_at_the_end() {
    let items = vec![file("a.txt"), filler("decoration")];
    let mut screen = Screen::new(80, 10, items);
    screen.select_next();
    assert_eq!(screen.cursor, 0);
}

#[test]
fn select_previous_skips_unselectable_rows() {
    let items = vec![file("a.txt"), filler("decoration"), file("b.txt")];
    let mut screen = Screen::new(80, 10, items);
    screen.cursor = 2;
    screen.select_previous();
    assert_eq!(screen.cursor, 0);
}

#[test]
fn select_previous_stays_put_at_the_start() {
    let mut screen = Screen::new(80, 10, status_forest());
    screen.select_previous();
    assert_eq!(screen.cursor, 0);
}

#[test]
fn initial_cursor_prefers_the_first_hunk() {
    let mut hunk = Item {
        id: "h1".to_string(),
        display: styled("@@ -1 +1 @@"),
        depth: 1,
        unselectable: false,
        section: false,
        target_data: Some(TargetData::Hunk("@@ -1 +1 @@".to_string())),
    };
    hunk.depth = 1;
    let items = vec![section("Unstaged", "unstaged"), file("a.txt"), hunk];
    let screen = Screen::new(80, 10, items);
    assert_eq!(screen.cursor, 2);
}

#[test]
fn initial_cursor_falls_back_to_first_selectable() {
    let items = vec![filler("banner"), file("a.txt")];
    let screen = Screen::new(80, 10, items);
    assert_eq!(screen.cursor, 1);
}

#[test]
fn initial_cursor_is_zero_without_selectable_rows() {
    let items = vec![filler("banner"), filler("more")];
    let screen = Screen::new(80, 10, items);
    assert_eq!(screen.cursor, 0);
}

#[test]
fn toggle_round_trip_restores_the_collapsed_view() {
    let mut screen = Screen::new(80, 10, status_forest());
    let before = collapsed_items_iter(&screen.items, &screen.collapsed);
    screen.toggle_section();
    screen.toggle_section();
    let after = collapsed_items_iter(&screen.items, &screen.collapsed);
    assert_eq!(before, after);
    assert!(screen.collapsed.is_empty());
}

#[test]
fn toggle_on_a_non_section_row_does_nothing() {
    let mut screen = Screen::new(80, 10, status_forest());
    screen.cursor = 1;
    screen.toggle_section();
    assert!(screen.collapsed.is_empty());
}

#[test]
fn refresh_preserves_collapse_state_by_identity() {
    let items = vec![section("Unstaged changes (1)", "Unstaged changes"), file("a.txt")];
    let mut screen = Screen::new(80, 10, items);
    screen.toggle_section();
    assert!(screen.is_collapsed(&screen.items[0].clone()));
    let refreshed = vec![
        section("Unstaged changes (2)", "Unstaged changes"),
        file("a.txt"),
        file("b.txt"),
    ];
    screen.update(refreshed);
    let visible = collapsed_items_iter(&screen.items, &screen.collapsed);
    assert_eq!(visible, vec![0]);
}

#[test]
fn refresh_pulls_an_out_of_range_cursor_back() {
    let mut screen = Screen::new(80, 10, status_forest());
    screen.cursor = 4;
    screen.update(vec![file("only.txt")]);
    assert_eq!(screen.cursor, 0);
}

#[test]
fn refresh_of_an_empty_sequence_rests_the_cursor_at_zero() {
    let mut screen = Screen::new(80, 10, status_forest());
    screen.update(Vec::new());
    assert_eq!(screen.cursor, 0);
    assert!(screen.get_selected_item().is_none());
}

#[test]
fn clamp_cursor_moves_off_hidden_rows() {
    // collapsing "untracked" hides "a.txt"; the clamp reclaims the cursor
    // onto the nearest preceding visible selectable row, the header
    let mut screen = Screen::new(80, 10, status_forest());
    screen.toggle_section();
    screen.cursor = 1;
    screen.clamp_cursor();
    assert_eq!(screen.cursor, 0);
}

#[test]
fn clamp_cursor_moves_off_unselectable_rows_forward() {
    let items = vec![filler("banner"), file("a.txt")];
    let mut screen = Screen::new(80, 10, items);
    screen.cursor = 0;
    screen.clamp_cursor();
    assert_eq!(screen.cursor, 1);
}

#[test]
fn select_previous_end_fits_the_viewport() {
    let items = vec![file("a.txt"), file("b.txt"), file("c.txt")];
    let mut screen = Screen::new(80, 1, items);
    screen.cursor = 2;
    screen.select_previous();
    assert_eq!(screen.cursor, 1);
    assert_eq!(screen.scroll, 1);
}

#[test]
fn fit_end_scrolls_the_blocks_last_line_into_view() {
    // viewport height 3; a section at line 5 owning 4 descendant lines:
    // its block ends at line 9, so the scroll must become 9 - 2 = 7
    let mut items = Vec::new();
    for i in 0..5 {
        items.push(filler(&format!("filler {}", i)));
    }
    items.push(section("Big", "big"));
    for i in 0..4 {
        let mut f = file(&format!("f{}.txt", i));
        f.depth = 1;
        items.push(f);
    }
    let mut screen = Screen::new(80, 3, items);
    assert_eq!(screen.cursor, 5);
    screen.scroll_fit_end();
    assert_eq!(screen.scroll, 7);
}

#[test]
fn fit_start_scrolls_back_to_the_selection() {
    let mut screen = Screen::new(80, 3, status_forest());
    screen.scroll = 4;
    screen.scroll_fit_start();
    assert_eq!(screen.scroll, 0);
}

#[test]
fn fit_is_idempotent_on_an_oversized_block() {
    let mut items = Vec::new();
    for i in 0..5 {
        items.push(filler(&format!("filler {}", i)));
    }
    items.push(section("Big", "big"));
    for i in 0..7 {
        let mut f = file(&format!("f{}.txt", i));
        f.depth = 1;
        items.push(f);
    }
    let mut screen = Screen::new(80, 3, items);
    screen.scroll_fit_end();
    screen.scroll_fit_start();
    let once = screen.scroll;
    screen.scroll_fit_end();
    screen.scroll_fit_start();
    assert_eq!(screen.scroll, once);
}

#[test]
fn half_page_scrolling_clamps_at_both_ends() {
    let mut screen = Screen::new(80, 4, status_forest());
    screen.scroll_half_page_up();
    assert_eq!(screen.scroll, 0);
    // 5 lines of content, half page is 2: the limit is 5 - 2 = 3
    screen.scroll_half_page_down();
    assert_eq!(screen.scroll, 2);
    screen.scroll_half_page_down();
    assert_eq!(screen.scroll, 3);
    screen.scroll_half_page_up();
    assert_eq!(screen.scroll, 1);
}

#[test]
fn handle_key_quits_on_q() {
    let mut screen = Screen::new(80, 10, status_forest());
    assert_eq!(handle_key(&mut screen, KeyInput::Char('q')), Action::Quit);
}

#[test]
fn handle_key_navigates_with_j_and_k() {
    let mut screen = Screen::new(80, 10, status_forest());
    assert_eq!(handle_key(&mut screen, KeyInput::Char('j')), Action::Nothing);
    assert_eq!(screen.cursor, 1);
    assert_eq!(handle_key(&mut screen, KeyInput::Char('k')), Action::Nothing);
    assert_eq!(screen.cursor, 0);
}

#[test]
fn handle_key_stages_the_selected_file() {
    let mut screen = Screen::new(80, 10, status_forest());
    screen.cursor = 1;
    assert_eq!(
        handle_key(&mut screen, KeyInput::Char('s')),
        Action::Stage("a.txt".to_string())
    );
    assert_eq!(
        handle_key(&mut screen, KeyInput::Char('u')),
        Action::Unstage("a.txt".to_string())
    );
    screen.cursor = 0;
    assert_eq!(handle_key(&mut screen, KeyInput::Char('s')), Action::Nothing);
}

#[test]
fn handle_key_toggles_sections_with_tab() {
    let mut screen = Screen::new(80, 10, status_forest());
    assert_eq!(handle_key(&mut screen, KeyInput::Tab), Action::Nothing);
    assert_eq!(screen.collapsed, vec!["untracked".to_string()]);
    assert_eq!(handle_key(&mut screen, KeyInput::Other), Action::Nothing);
    assert_eq!(handle_key(&mut screen, KeyInput::Char('x')), Action::Nothing);
}

#[test]
fn collapsed_lines_accounting_reports_offsets_and_counts() {
    let mut screen = Screen::new(80, 10, status_forest());
    screen.toggle_section();
    let lines = screen.collapsed_lines_items_iter();
    assert_eq!(lines, vec![(0, 0, 1), (1, 3, 1), (2, 4, 1)]);
}

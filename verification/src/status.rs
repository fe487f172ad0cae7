//! Producers' assembly logic: given plain repository facts (file lists,
//! diff summaries, pre-built child items), build the flat item sequences
//! the screens display. Querying the repository itself is the caller's
//! concern.

use vstd::prelude::*;
use vstd::string::StringExecFns;
use crate::display::{DisplayText, SpanStyle};
use crate::items::{Item, TargetData};

verus! {

/// The styles the producers hand to the rows they build.
#[derive(Clone, Copy, Debug, PartialEq, Eq)]
pub struct Theme {
    /// Section header rows.
    pub section: SpanStyle,
    /// Untracked files, shown by path alone.
    pub untracked_file: SpanStyle,
    /// Unstaged files in the working tree.
    pub unstaged_file: SpanStyle,
    /// Unmerged (conflicted) files.
    pub unmerged_file: SpanStyle,
    /// File rows prefixed with a status word.
    pub entry: SpanStyle,
}

/// One entry of the repository's status list, as plain values.
#[derive(Clone, Debug, PartialEq, Eq)]
pub struct StatusEntryInfo {
    pub path: String,
    /// New in the working tree (untracked).
    pub wt_new: bool,
    /// Modified in the working tree.
    pub wt_modified: bool,
    /// Newly added to the index.
    pub index_new: bool,
    pub index_deleted: bool,
    pub index_typechange: bool,
    pub index_renamed: bool,
    /// The backend's own wording for any other status.
    pub label: String,
}

/// Whether the entry counts as staged.
pub open spec fn staged_flag(e: StatusEntryInfo) -> bool {
    e.index_new || e.index_deleted || e.index_typechange || e.index_renamed
}

// ---------------------------------------------------------------------
// Decimal rendering of counts.
// ---------------------------------------------------------------------

pub open spec fn digit_char(d: int) -> char {
    if d == 0 {
        '0'
    } else if d == 1 {
        '1'
    } else if d == 2 {
        '2'
    } else if d == 3 {
        '3'
    } else if d == 4 {
        '4'
    } else if d == 5 {
        '5'
    } else if d == 6 {
        '6'
    } else if d == 7 {
        '7'
    } else if d == 8 {
        '8'
    } else {
        '9'
    }
}

/// The decimal digits of `n`, most significant first.
pub open spec fn decimal_digits(n: int) -> Seq<char>
    decreases n,
{
    if n < 10 {
        seq![digit_char(n)]
    } else {
        decimal_digits(n / 10).push(digit_char(n % 10))
    }
}

/// One decimal digit as text.
fn digit_literal(d: usize) -> (r: &'static str)
    requires
        d < 10,
    ensures
        r@ == seq![digit_char(d as int)],
{
    proof {
        reveal_strlit("0");
        reveal_strlit("1");
        reveal_strlit("2");
        reveal_strlit("3");
        reveal_strlit("4");
        reveal_strlit("5");
        reveal_strlit("6");
        reveal_strlit("7");
        reveal_strlit("8");
        reveal_strlit("9");
    }
    let r: &'static str = if d == 0 {
        "0"
    } else if d == 1 {
        "1"
    } else if d == 2 {
        "2"
    } else if d == 3 {
        "3"
    } else if d == 4 {
        "4"
    } else if d == 5 {
        "5"
    } else if d == 6 {
        "6"
    } else if d == 7 {
        "7"
    } else if d == 8 {
        "8"
    } else {
        "9"
    };
    proof {
        assert(r@ =~= seq![digit_char(d as int)]);
    }
    r
}

/// `n` in decimal, most significant digit first.
fn usize_to_string(n: usize) -> (r: String)
    ensures
        r@ == decimal_digits(n as int),
    decreases n,
{
    if n < 10 {
        String::from_str(digit_literal(n))
    } else {
        let prefix = usize_to_string(n / 10);
        let r = prefix.concat(digit_literal(n % 10));
        proof {
            assert(r@ =~= decimal_digits((n / 10) as int).push(digit_char((n % 10) as int)));
        }
        r
    }
}

// ---------------------------------------------------------------------
// Row shapes the producers emit.
// ---------------------------------------------------------------------

/// A display of exactly one line holding one styled span.
pub open spec fn styled_text_ok(t: DisplayText, s: Seq<char>, style: SpanStyle) -> bool {
    &&& t.lines@.len() == 1
    &&& t.lines@[0].spans@.len() == 1
    &&& t.lines@[0].spans@[0].text@ == s
    &&& t.lines@[0].spans@[0].style == style
}

/// An unselectable blank separator row at depth zero.
pub open spec fn blank_item_ok(it: Item) -> bool {
    &&& it.unselectable
    &&& !it.section
    &&& it.depth == 0
    &&& it.target_data is None
    &&& it.display.lines@.len() == 1
    &&& it.display.lines@[0].spans@.len() == 0
}

/// A section header row at depth zero.
pub open spec fn section_item_ok(it: Item, id: Seq<char>, label: Seq<char>, style: SpanStyle) -> bool {
    &&& it.id@ == id
    &&& it.section
    &&& !it.unselectable
    &&& it.depth == 0
    &&& it.target_data is None
    &&& styled_text_ok(it.display, label, style)
}

/// A selectable file row at depth one targeting `path`.
pub open spec fn file_item_ok(it: Item, path: Seq<char>, text: Seq<char>, style: SpanStyle, section: bool) -> bool {
    &&& it.id@ == path
    &&& it.section == section
    &&& !it.unselectable
    &&& it.depth == 1
    &&& (match it.target_data {
        Some(TargetData::File(p)) => p@ == path,
        _ => false,
    })
    &&& styled_text_ok(it.display, text, style)
}

// ---------------------------------------------------------------------
// Status wording.
// ---------------------------------------------------------------------

pub open spec fn unstaged_status_text(e: StatusEntryInfo) -> Seq<char> {
    if e.wt_modified {
        "modified"@
    } else {
        e.label@
    }
}

pub open spec fn staged_status_text(e: StatusEntryInfo) -> Seq<char> {
    if e.index_new {
        "new file"@
    } else {
        e.label@
    }
}

/// The status word shown before an unstaged file's path.
pub fn unstaged_entry_status(e: &StatusEntryInfo) -> (r: String)
    ensures
        r@ == unstaged_status_text(*e),
{
    if e.wt_modified {
        String::from_str("modified")
    } else {
        e.label.clone()
    }
}

/// The status word shown before a staged file's path.
pub fn staged_entry_status(e: &StatusEntryInfo) -> (r: String)
    ensures
        r@ == staged_status_text(*e),
{
    if e.index_new {
        String::from_str("new file")
    } else {
        e.label.clone()
    }
}

// ---------------------------------------------------------------------
// Shared building blocks.
// ---------------------------------------------------------------------

/// A blank separator row.
fn blank_item() -> (it: Item)
    ensures
        blank_item_ok(it),
{
    Item {
        id: String::new(),
        display: DisplayText::blank_line(),
        depth: 0,
        unselectable: true,
        section: false,
        target_data: None,
    }
}

/// A section header row with the given identity and label.
fn section_item(id: String, label: String, style: SpanStyle) -> (it: Item)
    ensures
        section_item_ok(it, id@, label@, style),
{
    Item {
        id,
        display: DisplayText::styled_line(label, style),
        depth: 0,
        unselectable: false,
        section: true,
        target_data: None,
    }
}

/// `label (count)`, as the section headers print it.
fn counted_label(label: &str, count: usize) -> (r: String)
    ensures
        r@ == label@ + " ("@ + decimal_digits(count as int) + ")"@,
{
    let digits = usize_to_string(count);
    let s = String::from_str(label);
    let s = s.concat(" (");
    let s = s.concat(digits.as_str());
    let s = s.concat(")");
    s
}

// ---------------------------------------------------------------------
// Section assembly.
// ---------------------------------------------------------------------

/// A titled diff section: a blank separator and a counted header (when the
/// diff has any deltas), followed by the pre-built diff rows.
pub fn create_status_section_items(
    header: &str,
    delta_count: usize,
    diff_items: Vec<Item>,
    theme: &Theme,
) -> (r: Vec<Item>)
    ensures
        ({
            let lead: int = if delta_count > 0 {
                2int
            } else {
                0int
            };
            &&& r@.len() == lead + diff_items@.len()
            &&& delta_count > 0 ==> blank_item_ok(r@[0]) && section_item_ok(
                r@[1],
                header@,
                header@ + " ("@ + decimal_digits(delta_count as int) + ")"@,
                theme.section,
            )
            &&& forall|k: int|
                0 <= k < diff_items@.len() ==> r@[lead + k] == #[trigger] diff_items@[k]
        }),
{
    let mut r: Vec<Item> = Vec::new();
    if delta_count > 0 {
        r.push(blank_item());
        let label = counted_label(header, delta_count);
        r.push(section_item(String::from_str(header), label, theme.section));
    }
    let mut rest = diff_items;
    r.append(&mut rest);
    r
}

/// A titled log section: a blank separator and a plain header, followed by
/// the pre-built log rows.
pub fn create_log_section_items(header: &str, log_items: Vec<Item>, theme: &Theme) -> (r: Vec<
    Item,
>)
    ensures
        r@.len() == 2 + log_items@.len(),
        blank_item_ok(r@[0]),
        section_item_ok(r@[1], header@, header@, theme.section),
        forall|k: int| 0 <= k < log_items@.len() ==> r@[2 + k] == #[trigger] log_items@[k],
{
    let mut r: Vec<Item> = Vec::new();
    r.push(blank_item());
    r.push(section_item(String::from_str(header), String::from_str(header), theme.section));
    let mut rest = log_items;
    r.append(&mut rest);
    r
}

/// A selectable file row at depth one.
fn file_item(path: String, text: String, style: SpanStyle, section: bool) -> (it: Item)
    ensures
        file_item_ok(it, path@, text@, style, section),
{
    let id = path.clone();
    Item {
        id,
        display: DisplayText::styled_line(text, style),
        depth: 1,
        unselectable: false,
        section,
        target_data: Some(TargetData::File(path)),
    }
}

/// One file row per path, shown by path alone.
fn path_items(paths: &Vec<String>, style: SpanStyle) -> (r: Vec<Item>)
    ensures
        r@.len() == paths@.len(),
        forall|k: int|
            0 <= k < paths@.len() ==> file_item_ok(
                #[trigger] r@[k],
                paths@[k]@,
                paths@[k]@,
                style,
                false,
            ),
{
    let mut r: Vec<Item> = Vec::new();
    let mut i: usize = 0;
    while i < paths.len()
        invariant
            0 <= i <= paths@.len(),
            r@.len() == i,
            forall|k: int|
                0 <= k < i ==> file_item_ok(#[trigger] r@[k], paths@[k]@, paths@[k]@, style, false),
        decreases paths@.len() - i,
    {
        r.push(file_item(paths[i].clone(), paths[i].clone(), style, false));
        i = i + 1;
    }
    r
}

// ---------------------------------------------------------------------
// The status screen's item sequence, from one status list.
// ---------------------------------------------------------------------

/// The subsequence of the first `n` entries satisfying `p`, in order.
pub open spec fn filtered(
    s: Seq<StatusEntryInfo>,
    p: spec_fn(StatusEntryInfo) -> bool,
    n: int,
) -> Seq<StatusEntryInfo>
    decreases n,
{
    if n <= 0 {
        Seq::empty()
    } else if p(s[n - 1]) {
        filtered(s, p, n - 1).push(s[n - 1])
    } else {
        filtered(s, p, n - 1)
    }
}

pub open spec fn untracked_pred() -> spec_fn(StatusEntryInfo) -> bool {
    |e: StatusEntryInfo| e.wt_new
}

pub open spec fn unstaged_pred() -> spec_fn(StatusEntryInfo) -> bool {
    |e: StatusEntryInfo| e.wt_modified
}

pub open spec fn staged_pred() -> spec_fn(StatusEntryInfo) -> bool {
    |e: StatusEntryInfo| staged_flag(e)
}

/// One row per untracked entry, shown by path.
fn untracked_items(statuses: &Vec<StatusEntryInfo>, theme: &Theme) -> (r: Vec<Item>)
    ensures
        ({
            let fl = filtered(statuses@, untracked_pred(), statuses@.len() as int);
            &&& r@.len() == fl.len()
            &&& forall|k: int|
                0 <= k < fl.len() ==> file_item_ok(
                    #[trigger] r@[k],
                    fl[k].path@,
                    fl[k].path@,
                    theme.untracked_file,
                    false,
                )
        }),
{
    let ghost p = untracked_pred();
    let mut r: Vec<Item> = Vec::new();
    let mut i: usize = 0;
    while i < statuses.len()
        invariant
            0 <= i <= statuses@.len(),
            p == untracked_pred(),
            r@.len() == filtered(statuses@, p, i as int).len(),
            forall|k: int|
                0 <= k < r@.len() ==> file_item_ok(
                    #[trigger] r@[k],
                    filtered(statuses@, p, i as int)[k].path@,
                    filtered(statuses@, p, i as int)[k].path@,
                    theme.untracked_file,
                    false,
                ),
        decreases statuses@.len() - i,
    {
        proof {
            assert(p(statuses@[i as int]) == statuses@[i as int].wt_new);
        }
        if statuses[i].wt_new {
            r.push(file_item(statuses[i].path.clone(), statuses[i].path.clone(), theme.untracked_file, false));
        }
        i = i + 1;
    }
    r
}

/// One row per unstaged entry: `status   path`, marked collapsible so a
/// diff subtree can hang under it.
fn unstaged_items(statuses: &Vec<StatusEntryInfo>, theme: &Theme) -> (r: Vec<Item>)
    ensures
        ({
            let fl = filtered(statuses@, unstaged_pred(), statuses@.len() as int);
            &&& r@.len() == fl.len()
            &&& forall|k: int|
                0 <= k < fl.len() ==> file_item_ok(
                    #[trigger] r@[k],
                    fl[k].path@,
                    unstaged_status_text(fl[k]) + "   "@ + fl[k].path@,
                    theme.entry,
                    true,
                )
        }),
{
    let ghost p = unstaged_pred();
    let mut r: Vec<Item> = Vec::new();
    let mut i: usize = 0;
    while i < statuses.len()
        invariant
            0 <= i <= statuses@.len(),
            p == unstaged_pred(),
            r@.len() == filtered(statuses@, p, i as int).len(),
            forall|k: int|
                0 <= k < r@.len() ==> file_item_ok(
                    #[trigger] r@[k],
                    filtered(statuses@, p, i as int)[k].path@,
                    unstaged_status_text(filtered(statuses@, p, i as int)[k]) + "   "@ + filtered(
                        statuses@,
                        p,
                        i as int,
                    )[k].path@,
                    theme.entry,
                    true,
                ),
        decreases statuses@.len() - i,
    {
        proof {
            assert(p(statuses@[i as int]) == statuses@[i as int].wt_modified);
        }
        if statuses[i].wt_modified {
            let word = unstaged_entry_status(&statuses[i]);
            let text = word.concat("   ").concat(statuses[i].path.as_str());
            r.push(file_item(statuses[i].path.clone(), text, theme.entry, true));
        }
        i = i + 1;
    }
    r
}

/// One row per staged entry: `status   path`.
fn staged_items(statuses: &Vec<StatusEntryInfo>, theme: &Theme) -> (r: Vec<Item>)
    ensures
        ({
            let fl = filtered(statuses@, staged_pred(), statuses@.len() as int);
            &&& r@.len() == fl.len()
            &&& forall|k: int|
                0 <= k < fl.len() ==> file_item_ok(
                    #[trigger] r@[k],
                    fl[k].path@,
                    staged_status_text(fl[k]) + "   "@ + fl[k].path@,
                    theme.entry,
                    false,
                )
        }),
{
    let ghost p = staged_pred();
    let mut r: Vec<Item> = Vec::new();
    let mut i: usize = 0;
    while i < statuses.len()
        invariant
            0 <= i <= statuses@.len(),
            p == staged_pred(),
            r@.len() == filtered(statuses@, p, i as int).len(),
            forall|k: int|
                0 <= k < r@.len() ==> file_item_ok(
                    #[trigger] r@[k],
                    filtered(statuses@, p, i as int)[k].path@,
                    staged_status_text(filtered(statuses@, p, i as int)[k]) + "   "@ + filtered(
                        statuses@,
                        p,
                        i as int,
                    )[k].path@,
                    theme.entry,
                    false,
                ),
        decreases statuses@.len() - i,
    {
        proof {
            assert(p(statuses@[i as int]) == staged_flag(statuses@[i as int]));
        }
        if statuses[i].index_new || statuses[i].index_deleted || statuses[i].index_typechange
            || statuses[i].index_renamed {
            let word = staged_entry_status(&statuses[i]);
            let text = word.concat("   ").concat(statuses[i].path.as_str());
            r.push(file_item(statuses[i].path.clone(), text, theme.entry, false));
        }
        i = i + 1;
    }
    r
}

/// The status screen's items from one status list: a counted section of
/// untracked files, one of unstaged changes, and one of staged changes,
/// each present only when it has entries.
pub fn create_status_items(statuses: &Vec<StatusEntryInfo>, theme: &Theme) -> (r: Vec<Item>)
    ensures
        ({
            let n = statuses@.len() as int;
            let un = filtered(statuses@, untracked_pred(), n);
            let us = filtered(statuses@, unstaged_pred(), n);
            let st = filtered(statuses@, staged_pred(), n);
            let hu: int = if un.len() > 0 {
                1int
            } else {
                0int
            };
            let hs: int = if us.len() > 0 {
                1int
            } else {
                0int
            };
            let ht: int = if st.len() > 0 {
                1int
            } else {
                0int
            };
            let ou = hu;
            let os = hu + un.len() + hs;
            let ot = os + us.len() + ht;
            &&& r@.len() == ot + st.len()
            &&& un.len() > 0 ==> section_item_ok(
                r@[0],
                "untracked"@,
                "Untracked files"@ + " ("@ + decimal_digits(un.len() as int) + ")"@,
                theme.section,
            )
            &&& forall|k: int|
                0 <= k < un.len() ==> file_item_ok(
                    r@[ou + k],
                    (#[trigger] un[k]).path@,
                    un[k].path@,
                    theme.untracked_file,
                    false,
                )
            &&& us.len() > 0 ==> section_item_ok(
                r@[hu + un.len()],
                "unstaged"@,
                "Unstaged changes"@ + " ("@ + decimal_digits(us.len() as int) + ")"@,
                theme.section,
            )
            &&& forall|k: int|
                0 <= k < us.len() ==> file_item_ok(
                    r@[os + k],
                    (#[trigger] us[k]).path@,
                    unstaged_status_text(us[k]) + "   "@ + us[k].path@,
                    theme.entry,
                    true,
                )
            &&& st.len() > 0 ==> section_item_ok(
                r@[os + us.len()],
                "staged"@,
                "Staged changes"@ + " ("@ + decimal_digits(st.len() as int) + ")"@,
                theme.section,
            )
            &&& forall|k: int|
                0 <= k < st.len() ==> file_item_ok(
                    r@[ot + k],
                    (#[trigger] st[k]).path@,
                    staged_status_text(st[k]) + "   "@ + st[k].path@,
                    theme.entry,
                    false,
                )
        }),
{
    let mut r: Vec<Item> = Vec::new();
    let mut un = untracked_items(statuses, theme);
    let mut us = unstaged_items(statuses, theme);
    let mut st = staged_items(statuses, theme);
    if un.len() > 0 {
        let label = counted_label("Untracked files", un.len());
        r.push(section_item(String::from_str("untracked"), label, theme.section));
    }
    r.append(&mut un);
    if us.len() > 0 {
        let label = counted_label("Unstaged changes", us.len());
        r.push(section_item(String::from_str("unstaged"), label, theme.section));
    }
    r.append(&mut us);
    if st.len() > 0 {
        let label = counted_label("Staged changes", st.len());
        r.push(section_item(String::from_str("staged"), label, theme.section));
    }
    r.append(&mut st);
    r
}

// ---------------------------------------------------------------------
// The full status screen of the later design: banner, untracked and
// unmerged sections, diff sections, and a log section.
// ---------------------------------------------------------------------

/// An unselectable banner row carrying the repository's status text.
pub open spec fn status_item_ok(it: Item, t: DisplayText) -> bool {
    &&& it.id@ == "status"@
    &&& it.unselectable
    &&& !it.section
    &&& it.depth == 0
    &&& it.target_data is None
    &&& it.display == t
}

/// The status screen's items: an optional banner, a section of untracked
/// files and one of unmerged files (each with a blank separator, present
/// only when nonempty), the unstaged and staged diff sections, and the
/// recent-commits log section.
pub fn create(
    status_text: Option<DisplayText>,
    untracked: &Vec<String>,
    unmerged: &Vec<String>,
    unstaged_count: usize,
    unstaged_items: Vec<Item>,
    staged_count: usize,
    staged_items: Vec<Item>,
    log_items: Vec<Item>,
    theme: &Theme,
) -> (r: Vec<Item>)
    ensures
        ({
            let u = untracked@.len() as int;
            let m = unmerged@.len() as int;
            let s0: int = if status_text is Some {
                1int
            } else {
                0int
            };
            let hu: int = if u > 0 {
                2int
            } else {
                0int
            };
            let hm: int = if m > 0 {
                2int
            } else {
                0int
            };
            let du: int = if unstaged_count > 0 {
                2int
            } else {
                0int
            };
            let ds: int = if staged_count > 0 {
                2int
            } else {
                0int
            };
            let ou = s0 + hu;
            let om = ou + u + hm;
            let ous = om + m;
            let ost = ous + du + unstaged_items@.len();
            let olog = ost + ds + staged_items@.len();
            &&& r@.len() == olog + 2 + log_items@.len()
            &&& (match status_text {
                Some(t) => status_item_ok(r@[0], t),
                None => true,
            })
            &&& u > 0 ==> blank_item_ok(r@[s0]) && section_item_ok(
                r@[s0 + 1],
                "untracked"@,
                "Untracked files"@,
                theme.section,
            )
            &&& forall|k: int|
                0 <= k < u ==> file_item_ok(
                    r@[ou + k],
                    (#[trigger] untracked@[k])@,
                    untracked@[k]@,
                    theme.unstaged_file,
                    false,
                )
            &&& m > 0 ==> blank_item_ok(r@[ou + u]) && section_item_ok(
                r@[ou + u + 1],
                "unmerged"@,
                "Unmerged"@,
                theme.section,
            )
            &&& forall|k: int|
                0 <= k < m ==> file_item_ok(
                    r@[om + k],
                    (#[trigger] unmerged@[k])@,
                    unmerged@[k]@,
                    theme.unmerged_file,
                    false,
                )
            &&& unstaged_count > 0 ==> blank_item_ok(r@[ous]) && section_item_ok(
                r@[ous + 1],
                "Unstaged changes"@,
                "Unstaged changes"@ + " ("@ + decimal_digits(unstaged_count as int) + ")"@,
                theme.section,
            )
            &&& forall|k: int|
                0 <= k < unstaged_items@.len() ==> r@[ous + du + k] == #[trigger] unstaged_items@[k]
            &&& staged_count > 0 ==> blank_item_ok(r@[ost]) && section_item_ok(
                r@[ost + 1],
                "Staged changes"@,
                "Staged changes"@ + " ("@ + decimal_digits(staged_count as int) + ")"@,
                theme.section,
            )
            &&& forall|k: int|
                0 <= k < staged_items@.len() ==> r@[ost + ds + k] == #[trigger] staged_items@[k]
            &&& blank_item_ok(r@[olog]) && section_item_ok(
                r@[olog + 1],
                "Recent commits"@,
                "Recent commits"@,
                theme.section,
            )
            &&& forall|k: int|
                0 <= k < log_items@.len() ==> r@[olog + 2 + k] == #[trigger] log_items@[k]
        }),
{
    let mut r: Vec<Item> = Vec::new();
    match status_text {
        Some(t) => {
            r.push(Item {
                id: String::from_str("status"),
                display: t,
                depth: 0,
                unselectable: true,
                section: false,
                target_data: None,
            });
        },
        None => {},
    }
    if untracked.len() > 0 {
        r.push(blank_item());
        r.push(section_item(
            String::from_str("untracked"),
            String::from_str("Untracked files"),
            theme.section,
        ));
    }
    let mut ui = path_items(untracked, theme.unstaged_file);
    r.append(&mut ui);
    if unmerged.len() > 0 {
        r.push(blank_item());
        r.push(section_item(
            String::from_str("unmerged"),
            String::from_str("Unmerged"),
            theme.section,
        ));
    }
    let mut mi = path_items(unmerged, theme.unmerged_file);
    r.append(&mut mi);
    let mut us = create_status_section_items("Unstaged changes", unstaged_count, unstaged_items, theme);
    r.append(&mut us);
    let mut st = create_status_section_items("Staged changes", staged_count, staged_items, theme);
    r.append(&mut st);
    let mut lg = create_log_section_items("Recent commits", log_items, theme);
    r.append(&mut lg);
    r
}

} // verus!

//! The key-handling decision: from screen state and a decoded key event to
//! the next screen state and the action the caller must perform.

use vstd::prelude::*;
use crate::items::TargetData;
use crate::screen::{
    fit_end_scroll, fit_start_scroll, next_cursor, prev_cursor, Screen,
};

verus! {

/// A key event, already decoded from the terminal.
#[derive(Clone, Copy, Debug, PartialEq, Eq)]
pub enum KeyInput {
    Char(char),
    Tab,
    Other,
}

/// The outside work a handled key asks for: none, quitting, or staging or
/// unstaging the selected file (after which the caller refreshes).
#[derive(Clone, Debug, PartialEq, Eq)]
pub enum Action {
    Nothing,
    Quit,
    Stage(String),
    Unstage(String),
}

/// Handle one key: `q` quits, `j`/`k` move the selection, `s`/`u` ask the
/// caller to stage or unstage the selected file, tab toggles the selected
/// section; anything else does nothing.
pub fn handle_key(screen: &mut Screen, key: KeyInput) -> (a: Action)
    requires
        old(screen).wf(),
        old(screen).cursor_ok(),
    ensures
        final(screen).wf(),
        final(screen).cursor_ok(),
        final(screen).items == old(screen).items,
        final(screen).width == old(screen).width,
        final(screen).height == old(screen).height,
        ({
            let s = *old(screen);
            let items = s.items@;
            let ids = s.collapse_ids();
            match key {
                KeyInput::Char(c) => {
                    if c == 'q' {
                        a == Action::Quit && *final(screen) == s
                    } else if c == 'j' {
                        let nc = next_cursor(items, ids, s.cursor as int);
                        &&& a == Action::Nothing
                        &&& final(screen).cursor as int == nc
                        &&& final(screen).scroll as int == fit_start_scroll(
                            items,
                            ids,
                            nc,
                            fit_end_scroll(items, ids, nc, s.height as int, s.scroll as int),
                        )
                        &&& final(screen).collapsed == s.collapsed
                    } else if c == 'k' {
                        let pc = prev_cursor(items, ids, s.cursor as int);
                        &&& a == Action::Nothing
                        &&& final(screen).cursor as int == pc
                        &&& final(screen).scroll as int == fit_start_scroll(
                            items,
                            ids,
                            pc,
                            fit_end_scroll(items, ids, pc, s.height as int, s.scroll as int),
                        )
                        &&& final(screen).collapsed == s.collapsed
                    } else if c == 's' {
                        &&& *final(screen) == s
                        &&& (if items.len() > 0 {
                            match items[s.cursor as int].target_data {
                                Some(TargetData::File(p)) => a == Action::Stage(p),
                                _ => a == Action::Nothing,
                            }
                        } else {
                            a == Action::Nothing
                        })
                    } else if c == 'u' {
                        &&& *final(screen) == s
                        &&& (if items.len() > 0 {
                            match items[s.cursor as int].target_data {
                                Some(TargetData::File(p)) => a == Action::Unstage(p),
                                _ => a == Action::Nothing,
                            }
                        } else {
                            a == Action::Nothing
                        })
                    } else {
                        a == Action::Nothing && *final(screen) == s
                    }
                },
                KeyInput::Tab => {
                    &&& a == Action::Nothing
                    &&& final(screen).cursor == s.cursor
                    &&& final(screen).scroll == s.scroll
                    &&& (if items.len() > 0 && items[s.cursor as int].section {
                        let id = items[s.cursor as int].id@;
                        if ids.contains(id) {
                            final(screen).collapse_ids() == ids.remove(id)
                        } else {
                            final(screen).collapse_ids() == ids.insert(id)
                        }
                    } else {
                        final(screen).collapse_ids() == ids
                    })
                },
                KeyInput::Other => a == Action::Nothing && *final(screen) == s,
            }
        }),
{
    match key {
        KeyInput::Char(c) => {
            if c == 'q' {
                Action::Quit
            } else if c == 'j' {
                screen.select_next();
                Action::Nothing
            } else if c == 'k' {
                screen.select_previous();
                Action::Nothing
            } else if c == 's' {
                match screen.get_selected_item() {
                    Some(it) => match &it.target_data {
                        Some(TargetData::File(p)) => Action::Stage(p.clone()),
                        _ => Action::Nothing,
                    },
                    None => Action::Nothing,
                }
            } else if c == 'u' {
                match screen.get_selected_item() {
                    Some(it) => match &it.target_data {
                        Some(TargetData::File(p)) => Action::Unstage(p.clone()),
                        _ => Action::Nothing,
                    },
                    None => Action::Nothing,
                }
            } else {
                Action::Nothing
            }
        },
        KeyInput::Tab => {
            screen.toggle_section();
            Action::Nothing
        },
        KeyInput::Other => Action::Nothing,
    }
}

} // verus!

//! Control-socket words (`wake` / `quit`) and Hyprland `cursorpos` replies.

use vstd::prelude::*;
use crate::text::{norm, normalized, eq_str, trim, trim_chars, first_index, find_char, slice_chars, chars_of};
use crate::num::{parse_i32, parse_i32_spec};

verus! {

#[derive(Clone, Copy, Debug, PartialEq, Eq, Structural)]
pub enum WakeCommand {
    Wake,
    Quit,
}

pub open spec fn command_of_word(w: Seq<char>) -> Option<WakeCommand> {
    if w == "wake"@ || w == "show"@ || w == "unhide"@ {
        Some(WakeCommand::Wake)
    } else if w == "quit"@ || w == "exit"@ || w == "die"@ {
        Some(WakeCommand::Quit)
    } else {
        None
    }
}

/// One line from the control socket; case and surrounding whitespace are ignored.
pub fn parse_command(line: &str) -> (c: Option<WakeCommand>)
    ensures
        c == command_of_word(norm(line@)),
{
    let w = normalized(line);
    if eq_str(&w, "wake") || eq_str(&w, "show") || eq_str(&w, "unhide") {
        Some(WakeCommand::Wake)
    } else if eq_str(&w, "quit") || eq_str(&w, "exit") || eq_str(&w, "die") {
        Some(WakeCommand::Quit)
    } else {
        None
    }
}

/// The word a client sends for a command.
pub open spec fn command_word(c: WakeCommand) -> Seq<char> {
    match c {
        WakeCommand::Wake => "wake\n"@,
        WakeCommand::Quit => "quit\n"@,
    }
}

pub fn command_line(c: WakeCommand) -> (s: &'static str)
    ensures
        s@ == command_word(c),
{
    match c {
        WakeCommand::Wake => "wake\n",
        WakeCommand::Quit => "quit\n",
    }
}

/// `"x,y"` (spaces allowed around each number and the whole reply).
pub open spec fn cursorpos_spec(s: Seq<char>) -> Option<(i32, i32)> {
    let t = trim(s);
    let i = first_index(t, ',');
    if i < 0 {
        None
    } else {
        match (
            parse_i32_spec(trim(t.subrange(0, i))),
            parse_i32_spec(trim(t.subrange(i + 1, t.len() as int))),
        ) {
            (Some(x), Some(y)) => Some((x, y)),
            _ => None,
        }
    }
}

pub fn parse_cursorpos(s: &str) -> (r: Option<(i32, i32)>)
    ensures
        r == cursorpos_spec(s@),
{
    let cs = chars_of(s);
    let t = trim_chars(&cs);
    let i = match find_char(&t, ',') {
        Some(i) => i,
        None => return None,
    };
    let left = slice_chars(&t, 0, i);
    let right = slice_chars(&t, i + 1, t.len());
    let lt = trim_chars(&left);
    let rt = trim_chars(&right);
    let x = match parse_i32(&lt) {
        Some(x) => x,
        None => return None,
    };
    let y = match parse_i32(&rt) {
        Some(y) => y,
        None => return None,
    };
    Some((x, y))
}

/// Every command word parses back to its command.
pub proof fn law_command_word_roundtrip(c: WakeCommand)
    ensures
        command_of_word(crate::text::norm(command_word(c))) == Some(c),
{
    reveal_strlit("wake\n");
    reveal_strlit("quit\n");
    reveal_strlit("wake");
    reveal_strlit("show");
    reveal_strlit("unhide");
    reveal_strlit("quit");
    let w = command_word(c);
    reveal_with_fuel(crate::text::trim_start, 2);
    reveal_with_fuel(crate::text::trim_end, 2);
    assert(w.drop_last() =~= w.subrange(0, 4));
    assert(!crate::text::is_ws(w[0]));
    assert(crate::text::trim_start(w) == w);
    assert(crate::text::is_ws(w.last()));
    assert(!crate::text::is_ws(w.drop_last().last()));
    assert(crate::text::trim(w) =~= w.subrange(0, 4));
    let l = crate::text::lower(w.subrange(0, 4));
    match c {
        WakeCommand::Wake => {
            assert(l =~= "wake"@);
        },
        WakeCommand::Quit => {
            assert(l =~= "quit"@);
            assert("quit"@[0] != "wake"@[0]);
            assert("quit"@[0] != "show"@[0]);
            assert("quit"@.len() != "unhide"@.len());
        },
    }
}


/// One Hyprland monitor: its name and its rectangle in global coordinates.
#[derive(Clone, Debug)]
pub struct HyprOutput {
    pub name: String,
    pub x: i32,
    pub y: i32,
    pub width: i32,
    pub height: i32,
}

/// Position of the first focused monitor, else the first monitor, else none.
pub fn pick_monitor(focused: &[bool]) -> (r: Option<usize>)
    ensures
        match r {
            Some(i) => i < focused@.len() && (
                (focused@[i as int] && (forall|j: int| 0 <= j < i ==> !focused@[j]))
                || (i == 0 && (forall|j: int| 0 <= j < focused@.len() ==> !focused@[j]))
            ),
            None => focused@.len() == 0,
        },
{
    let mut i: usize = 0;
    while i < focused.len()
        invariant
            i <= focused@.len(),
            forall|j: int| 0 <= j < i ==> !focused@[j],
        decreases focused@.len() - i,
    {
        if focused[i] {
            return Some(i);
        }
        i = i + 1;
    }
    if focused.len() > 0 {
        Some(0)
    } else {
        None
    }
}

/// Global cursor position relative to the monitor's top-left corner.
pub fn hypr_local_cursor(mon: &HyprOutput, gx: i32, gy: i32) -> (p: (i64, i64))
    ensures
        p.0 == gx - mon.x,
        p.1 == gy - mon.y,
{
    (gx as i64 - mon.x as i64, gy as i64 - mon.y as i64)
}

/// While the cursor is watched, any move since the last reading wakes the buddy.
pub fn cursor_wakes(watch_cursor: bool, last: Option<(i32, i32)>, now: (i32, i32)) -> (wake: bool)
    ensures
        wake == (watch_cursor && last is Some && last->0 != now),
{
    match last {
        Some(prev) => watch_cursor && (prev.0 != now.0 || prev.1 != now.1),
        None => false,
    }
}

} // verus!

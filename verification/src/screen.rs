//! Where things go on the screen, and what the status line says.

use vstd::prelude::*;

verus! {

/// The height of the status panel, borders included.
pub const INFO_HEIGHT: u16 = 3;

/// A rectangle of the screen, in character cells.
#[derive(Clone, Copy, Debug, PartialEq, Eq, Structural)]
pub struct Area {
    pub x: u16,
    pub y: u16,
    pub width: u16,
    pub height: u16,
}

/// The smaller of two lengths.
pub open spec fn shorter(a: u16, b: u16) -> u16 {
    if a <= b {
        a
    } else {
        b
    }
}

/// The status panel: the top of the frame, over its whole width.
pub fn info_area(frame: &Area) -> (area: Area)
    ensures
        area == (Area { x: 0, y: 0, width: frame.width, height: INFO_HEIGHT }),
{
    Area { x: 0, y: 0, width: frame.width, height: INFO_HEIGHT }
}

/// The world panel: below the status panel, as wide as the world where the
/// frame allows it, and down to the bottom of the frame. The width of the
/// world is taken in the sixteen bits that a screen length has.
pub fn world_area(frame: &Area, world_width: i32) -> (area: Area)
    requires
        frame.height >= INFO_HEIGHT,
    ensures
        area == (Area {
            x: 0,
            y: INFO_HEIGHT,
            width: shorter(world_width as u16, frame.width),
            height: (frame.height - INFO_HEIGHT) as u16,
        }),
{
    let wanted = #[verifier::truncate]
    (world_width as u16);
    let width = if wanted <= frame.width {
        wanted
    } else {
        frame.width
    };
    Area { x: 0, y: INFO_HEIGHT, width, height: frame.height - INFO_HEIGHT }
}

/// How the status line names the state of the world.
pub fn status_label(changed: bool) -> (label: &'static str)
    ensures
        label@ == (if changed {
            "Generating"@
        } else {
            "Stable"@
        }),
{
    if changed {
        "Generating"
    } else {
        "Stable"
    }
}

/// The character of a decimal digit.
pub open spec fn digit(value: int) -> char {
    if value == 0 {
        '0'
    } else if value == 1 {
        '1'
    } else if value == 2 {
        '2'
    } else if value == 3 {
        '3'
    } else if value == 4 {
        '4'
    } else if value == 5 {
        '5'
    } else if value == 6 {
        '6'
    } else if value == 7 {
        '7'
    } else if value == 8 {
        '8'
    } else {
        '9'
    }
}

/// A number in decimal, without leading zeros.
pub open spec fn decimal(number: nat) -> Seq<char>
    decreases number,
{
    if number < 10 {
        seq![digit(number as int)]
    } else {
        decimal(number / 10).push(digit((number % 10) as int))
    }
}

/// The text of one decimal digit.
fn digit_text(value: u64) -> (text: &'static str)
    requires
        value < 10,
    ensures
        text@ == seq![digit(value as int)],
{
    proof {
        reveal_strlit("0");
        reveal_strlit("1");
        reveal_strlit("2");
        reveal_strlit("3");
        reveal_strlit("4");
        reveal_strlit("5");
        reveal_strlit("6");
        reveal_strlit("7");
        reveal_strlit("8");
        reveal_strlit("9");
    }
    match value {
        0 => "0",
        1 => "1",
        2 => "2",
        3 => "3",
        4 => "4",
        5 => "5",
        6 => "6",
        7 => "7",
        8 => "8",
        _ => "9",
    }
}

/// Writes a number in decimal at the end of a text.
pub fn append_decimal(text: &mut String, number: u64)
    ensures
        final(text)@ == old(text)@ + decimal(number as nat),
    decreases number,
{
    if number >= 10 {
        append_decimal(text, number / 10);
    }
    text.append(digit_text(number % 10));
}

/// What the status line says: the keys, then whether the world is still
/// changing, the frame delay and the number of the frame.
pub open spec fn info_text(changed: bool, sleep_delay: u64, frames: u64) -> Seq<char> {
    "[q]uit / [r]estart / [-] slow down / [+] speed up // "@ + (if changed {
        "Generating"@
    } else {
        "Stable"@
    }) + " // "@ + decimal(sleep_delay as nat) + "ms // Frame: "@ + decimal(frames as nat)
}

/// Composes the status line.
pub fn info_line(changed: bool, sleep_delay: u64, frames: u64) -> (line: String)
    ensures
        line@ == info_text(changed, sleep_delay, frames),
{
    let mut line = String::new();
    line.append("[q]uit / [r]estart / [-] slow down / [+] speed up // ");
    line.append(status_label(changed));
    line.append(" // ");
    append_decimal(&mut line, sleep_delay);
    line.append("ms // Frame: ");
    append_decimal(&mut line, frames);
    line
}

} // verus!

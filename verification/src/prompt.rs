//! Asking for the size of the world, one axis at a time.

use vstd::prelude::*;
use crate::vector::Vector;

verus! {

/// The smallest extent accepted for an axis.
pub const MIN_WORLD_SIZE: i32 = 2;

/// How many axes there are to ask for.
pub const AXES: usize = 2;

/// White space, as Unicode defines it: what `trimmed` takes away.
pub open spec fn is_white_space(c: char) -> bool {
    ||| '\u{9}' <= c <= '\u{D}'
    ||| c == ' '
    ||| c == '\u{85}'
    ||| c == '\u{A0}'
    ||| c == '\u{1680}'
    ||| '\u{2000}' <= c <= '\u{200A}'
    ||| c == '\u{2028}'
    ||| c == '\u{2029}'
    ||| c == '\u{202F}'
    ||| c == '\u{205F}'
    ||| c == '\u{3000}'
}

/// The text from its first character that is not white space.
pub open spec fn without_leading_space(text: Seq<char>) -> Seq<char>
    decreases text.len(),
{
    if text.len() > 0 && is_white_space(text.first()) {
        without_leading_space(text.drop_first())
    } else {
        text
    }
}

/// The text up to its last character that is not white space.
pub open spec fn without_trailing_space(text: Seq<char>) -> Seq<char>
    decreases text.len(),
{
    if text.len() > 0 && is_white_space(text.last()) {
        without_trailing_space(text.drop_last())
    } else {
        text
    }
}

/// The text without the white space at either end.
pub open spec fn trimmed(text: Seq<char>) -> Seq<char> {
    without_trailing_space(without_leading_space(text))
}

/// One of the ten decimal digits.
pub open spec fn is_digit(c: char) -> bool {
    '0' <= c <= '9'
}

/// Every character of the text is a decimal digit.
pub open spec fn all_digits(text: Seq<char>) -> bool {
    forall|i: int| 0 <= i < text.len() ==> is_digit(#[trigger] text[i])
}

/// The number that a run of decimal digits writes.
pub open spec fn digits_value(digits: Seq<char>) -> int
    decreases digits.len(),
{
    if digits.len() == 0 {
        0
    } else {
        10 * digits_value(digits.drop_last()) + (digits.last() as int - '0' as int)
    }
}

/// The number that a text writes: an optional sign, then decimal digits and
/// nothing else, at least one of them, for a value in the range of `i32`.
/// Any other text writes no number.
pub open spec fn number_in(text: Seq<char>) -> Option<i32> {
    let signed = text.len() > 0 && (text[0] == '+' || text[0] == '-');
    let digits = if signed {
        text.drop_first()
    } else {
        text
    };
    let value = if text.len() > 0 && text[0] == '-' {
        -digits_value(digits)
    } else {
        digits_value(digits)
    };
    if digits.len() > 0 && all_digits(digits) && i32::MIN <= value <= i32::MAX {
        Some(value as i32)
    } else {
        None
    }
}

/// A run of digits writes no less than any of its beginnings.
proof fn lemma_digits_value_grows(digits: Seq<char>, n: int)
    requires
        all_digits(digits),
        0 <= n <= digits.len(),
    ensures
        0 <= digits_value(digits.take(n)) <= digits_value(digits),
    decreases digits.len() - n,
{
    lemma_digits_value_is_natural(digits.take(n));
    if n < digits.len() {
        let longer = digits.take(n + 1);
        assert(longer.drop_last() == digits.take(n));
        lemma_digits_value_grows(digits, n + 1);
    } else {
        assert(digits.take(n) == digits);
    }
}

/// A run of digits never writes a negative number.
proof fn lemma_digits_value_is_natural(digits: Seq<char>)
    requires
        all_digits(digits),
    ensures
        0 <= digits_value(digits),
    decreases digits.len(),
{
    if digits.len() > 0 {
        lemma_digits_value_is_natural(digits.drop_last());
    }
}

/// Whether a character is white space.
pub fn white_space(c: char) -> (yes: bool)
    ensures
        yes == is_white_space(c),
{
    (c >= '\u{9}' && c <= '\u{D}') || c == ' ' || c == '\u{85}' || c == '\u{A0}' || c == '\u{1680}'
        || (c >= '\u{2000}' && c <= '\u{200A}') || c == '\u{2028}' || c == '\u{2029}' || c
        == '\u{202F}' || c == '\u{205F}' || c == '\u{3000}'
}

/// The characters of a text, one by one.
fn characters(text: &str) -> (chars: Vec<char>)
    ensures
        chars@ == text@,
{
    let mut chars: Vec<char> = Vec::new();
    for c in it: text.chars()
        invariant
            it.seq() == text@,
            chars@ == it.seq().take(it.index() as int),
    {
        chars.push(c);
    }
    chars
}

/// Reads the number that a text writes once the white space at its ends is
/// set aside.
pub fn read_number(input: &str) -> (number: Option<i32>)
    ensures
        number == number_in(trimmed(input@)),
{
    let chars = characters(input);
    let ghost text = chars@;

    let mut start: usize = 0;
    assert(text.subrange(0, text.len() as int) == text);
    while start < chars.len() && white_space(chars[start])
        invariant
            start <= chars.len(),
            text == chars@,
            without_leading_space(text) == without_leading_space(
                text.subrange(start as int, text.len() as int),
            ),
        decreases chars.len() - start,
    {
        assert(text.subrange(start as int, text.len() as int).drop_first() == text.subrange(
            start + 1,
            text.len() as int,
        ));
        start += 1;
    }
    let ghost tail = text.subrange(start as int, text.len() as int);

    let mut end: usize = chars.len();
    while end > start && white_space(chars[end - 1])
        invariant
            start <= end <= chars.len(),
            text == chars@,
            tail == text.subrange(start as int, text.len() as int),
            without_trailing_space(tail) == without_trailing_space(
                text.subrange(start as int, end as int),
            ),
        decreases end,
    {
        assert(text.subrange(start as int, end as int).drop_last() == text.subrange(
            start as int,
            end - 1,
        ));
        end -= 1;
    }
    let ghost entry = text.subrange(start as int, end as int);
    assert(trimmed(input@) == entry);

    if start == end {
        return None;
    }
    let negative = chars[start] == '-';
    let first_digit = if negative || chars[start] == '+' {
        start + 1
    } else {
        start
    };
    let ghost digits = text.subrange(first_digit as int, end as int);
    assert(digits == if entry[0] == '+' || entry[0] == '-' {
        entry.drop_first()
    } else {
        entry
    });
    if first_digit == end {
        return None;
    }
    let mut magnitude: i64 = 0;
    for at in first_digit..end
        invariant
            first_digit <= end <= chars.len(),
            text == chars@,
            digits == text.subrange(first_digit as int, end as int),
            trimmed(input@) == entry,
            entry.len() > 0,
            digits == if entry[0] == '+' || entry[0] == '-' {
                entry.drop_first()
            } else {
                entry
            },
            all_digits(digits.take(at - first_digit)),
            magnitude == digits_value(digits.take(at - first_digit)),
            0 <= magnitude <= 0x8000_0000,
    {
        let c = chars[at];
        if c < '0' || c > '9' {
            assert(!is_digit(digits[at - first_digit]));
            return None;
        }
        assert(digits.take(at + 1 - first_digit).drop_last() == digits.take(at - first_digit));
        magnitude = magnitude * 10 + (c as u32 - '0' as u32) as i64;
        if magnitude > 0x8000_0000 {
            // Whatever follows, the number has left the range for good.
            proof {
                if all_digits(digits) {
                    lemma_digits_value_grows(digits, at + 1 - first_digit);
                }
            }
            return None;
        }
    }
    assert(digits.take(end - first_digit) == digits);
    if negative {
        Some((-magnitude) as i32)
    } else if magnitude > 0x7fff_ffff {
        None
    } else {
        Some(magnitude as i32)
    }
}

/// The extent that an entry stands for: the number read, provided it is at
/// least `MIN_WORLD_SIZE`.
pub open spec fn accepted(number: Option<i32>) -> Option<i32> {
    match number {
        Some(value) => if value >= MIN_WORLD_SIZE {
            Some(value)
        } else {
            None
        },
        None => None,
    }
}

/// Keeps a number read from an entry if it can be an extent of the world.
pub fn accept_dimension(number: Option<i32>) -> (extent: Option<i32>)
    ensures
        extent == accepted(number),
{
    match number {
        Some(value) => match value <= 1 {
            true => None,
            _ => Some(value),
        },
        None => None,
    }
}

/// Reads an extent from a line of input: the number that the line writes
/// between the white space at its ends, if it is large enough.
pub fn read_dimension(input: &str) -> (extent: Option<i32>)
    ensures
        extent == accepted(number_in(trimmed(input@))),
{
    accept_dimension(read_number(input))
}

/// The name of an axis in a prompt.
pub fn axis_label(axis: usize) -> (label: &'static str)
    requires
        axis < AXES,
    ensures
        label@ == (if axis == 0 {
            "width"@
        } else {
            "height"@
        }),
{
    match axis {
        0 => "width",
        _ => "height",
    }
}

/// The dialogue that collects the size: it asks for the width until it gets
/// an acceptable one, then for the height in the same way.
#[derive(Debug)]
pub struct SizePrompt {
    axis: usize,
    world_size: Vector,
}

/// What a size prompt is, mathematically.
pub struct SizePromptView {
    /// How many axes have been answered.
    pub answered: nat,
    /// The width, once answered.
    pub width: int,
    /// The height, once answered.
    pub height: int,
}

impl SizePromptView {
    /// The prompt after an entry that read as `number`: an acceptable number
    /// answers the pending axis, anything else leaves the prompt as it was.
    pub open spec fn after_entry(self, number: Option<i32>) -> SizePromptView {
        match accepted(number) {
            Some(extent) => if self.answered == 0 {
                SizePromptView { answered: 1, width: extent as int, height: self.height }
            } else if self.answered == 1 {
                SizePromptView { answered: 2, width: self.width, height: extent as int }
            } else {
                self
            },
            None => self,
        }
    }
}

impl View for SizePrompt {
    type V = SizePromptView;

    closed spec fn view(&self) -> SizePromptView {
        SizePromptView {
            answered: self.axis as nat,
            width: self.world_size.x as int,
            height: self.world_size.y as int,
        }
    }
}

impl SizePrompt {
    /// No more axes are answered than there are, and every answer was an
    /// acceptable extent.
    pub closed spec fn wf(&self) -> bool {
        &&& self.axis <= AXES
        &&& self.axis >= 1 ==> self.world_size.x >= MIN_WORLD_SIZE
        &&& self.axis >= 2 ==> self.world_size.y >= MIN_WORLD_SIZE
    }

    /// A prompt that has not asked anything yet.
    pub fn new() -> (prompt: SizePrompt)
        ensures
            prompt.wf(),
            prompt@ == (SizePromptView { answered: 0, width: 0, height: 0 }),
    {
        SizePrompt { axis: 0, world_size: Vector { x: 0, y: 0 } }
    }

    /// The axis to ask for next, or `None` once both have been answered.
    pub fn pending_axis(&self) -> (axis: Option<usize>)
        requires
            self.wf(),
        ensures
            axis == (if self@.answered < AXES {
                Some(self@.answered as usize)
            } else {
                None
            }),
    {
        if self.axis < AXES {
            Some(self.axis)
        } else {
            None
        }
    }

    /// Takes the number read from an entry as the answer for the pending
    /// axis, if it is acceptable.
    pub fn enter_number(&mut self, number: Option<i32>)
        requires
            old(self).wf(),
        ensures
            final(self).wf(),
            final(self)@ == old(self)@.after_entry(number),
    {
        match accept_dimension(number) {
            Some(extent) => {
                if self.axis == 0 {
                    self.world_size.x = extent;
                    self.axis = 1;
                } else if self.axis == 1 {
                    self.world_size.y = extent;
                    self.axis = 2;
                }
            },
            None => {},
        }
    }

    /// Takes a line of input as the answer for the pending axis, if it reads
    /// as an acceptable extent.
    pub fn enter(&mut self, input: &str)
        requires
            old(self).wf(),
        ensures
            final(self).wf(),
            final(self)@ == old(self)@.after_entry(number_in(trimmed(input@))),
    {
        self.enter_number(read_number(input));
    }

    /// The size collected, once both axes have been answered; both extents
    /// are then at least `MIN_WORLD_SIZE`.
    pub fn world_size(&self) -> (size: Option<Vector>)
        requires
            self.wf(),
        ensures
            match size {
                Some(size) => {
                    &&& self@.answered == AXES
                    &&& size.x == self@.width
                    &&& size.y == self@.height
                    &&& size.x >= MIN_WORLD_SIZE
                    &&& size.y >= MIN_WORLD_SIZE
                },
                None => self@.answered < AXES,
            },
    {
        if self.axis == AXES {
            Some(Vector { x: self.world_size.x, y: self.world_size.y })
        } else {
            None
        }
    }
}

} // verus!

//! What can wait in the draw queue.

use crate::structs::shape::Shape;
use ggez::graphics::Image;
use vstd::prelude::*;
use vstd::string::StringExecFns;

verus! {

/// The outside image type. The library never makes or reads an image; one
/// can only be carried inside a `DrawableObject`.
#[verifier::external_type_specification]
#[verifier::external_body]
pub struct ExImage(ggez::graphics::Image);

/// Where a queued drawable is placed when it is drawn.
#[derive(Debug, Copy, Clone, PartialEq, Eq)]
pub struct DrawParam {
    /// Offset of the drawable's origin from the top-left of the target.
    pub dest: (i32, i32),
}

impl DrawParam {
    /// No offset: the drawable is drawn where its own coordinates say.
    pub open spec fn unmoved() -> DrawParam {
        DrawParam { dest: (0, 0) }
    }
}

impl Default for DrawParam {
    fn default() -> (param: DrawParam)
        ensures
            param == DrawParam::unmoved(),
    {
        DrawParam { dest: (0, 0) }
    }
}

/// A line of text: what it says, the box it is laid out in and the height
/// of its letters.
#[derive(Debug, PartialEq, Eq)]
pub struct TextLabel {
    pub content: String,
    pub bounds: (i32, i32),
    pub scale: u32,
}

/// A `TextLabel` with its content as a sequence of characters.
pub struct TextLabelView {
    pub content: Seq<char>,
    pub bounds: (i32, i32),
    pub scale: u32,
}

impl View for TextLabel {
    type V = TextLabelView;

    open spec fn view(&self) -> TextLabelView {
        TextLabelView { content: self.content@, bounds: self.bounds, scale: self.scale }
    }
}

/// The kinds of thing that the draw queue can hold.
#[derive(Debug)]
pub enum DrawableObject {
    Text(TextLabel),
    Image(Image),
    Mesh(Vec<Shape>),
}

/// A `DrawableObject` with its text and its shapes as sequences.
pub enum DrawableObjectView {
    Text(TextLabelView),
    Image(Image),
    Mesh(Seq<Shape>),
}

impl View for DrawableObject {
    type V = DrawableObjectView;

    open spec fn view(&self) -> DrawableObjectView {
        match self {
            DrawableObject::Text(label) => DrawableObjectView::Text(label@),
            DrawableObject::Image(image) => DrawableObjectView::Image(*image),
            DrawableObject::Mesh(shapes) => DrawableObjectView::Mesh(shapes@),
        }
    }
}

/// The character for one decimal digit.
pub open spec fn digit_char(digit: nat) -> char
    recommends
        digit < 10,
{
    if digit == 0 {
        '0'
    } else if digit == 1 {
        '1'
    } else if digit == 2 {
        '2'
    } else if digit == 3 {
        '3'
    } else if digit == 4 {
        '4'
    } else if digit == 5 {
        '5'
    } else if digit == 6 {
        '6'
    } else if digit == 7 {
        '7'
    } else if digit == 8 {
        '8'
    } else {
        '9'
    }
}

/// A number written in decimal, without leading zeros.
pub open spec fn decimal(number: nat) -> Seq<char>
    decreases number,
{
    if number < 10 {
        seq![digit_char(number)]
    } else {
        decimal(number / 10).push(digit_char(number % 10))
    }
}

fn digit_text(digit: u32) -> (text: &'static str)
    requires
        digit < 10,
    ensures
        text@ == seq![digit_char(digit as nat)],
{
    proof {
        reveal_strlit("0");
        reveal_strlit("1");
        reveal_strlit("2");
        reveal_strlit("3");
        reveal_strlit("4");
        reveal_strlit("5");
        reveal_strlit("6");
        reveal_strlit("7");
        reveal_strlit("8");
        reveal_strlit("9");
    }
    if digit == 0 {
        "0"
    } else if digit == 1 {
        "1"
    } else if digit == 2 {
        "2"
    } else if digit == 3 {
        "3"
    } else if digit == 4 {
        "4"
    } else if digit == 5 {
        "5"
    } else if digit == 6 {
        "6"
    } else if digit == 7 {
        "7"
    } else if digit == 8 {
        "8"
    } else {
        "9"
    }
}

/// Writes a number in decimal at the end of a text.
pub fn append_decimal(text: &mut String, number: u32)
    ensures
        final(text)@ == old(text)@ + decimal(number as nat),
    decreases number,
{
    if number >= 10 {
        append_decimal(text, number / 10);
    }
    text.append(digit_text(number % 10));
}

} // verus!

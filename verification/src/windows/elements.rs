//! The elements of which the windows are made. All lengths are in points, counted from the
//! lower left corner of the window; the sizes of type are in tenths of a point.

use vstd::prelude::*;

verus! {

/// A rectangle.
#[derive(Debug, Clone, Copy, PartialEq, Eq, Structural)]
pub struct Frame {
    pub x: i64,
    pub y: i64,
    pub width: i64,
    pub height: i64,
}

/// The colour of a text.
#[derive(Debug, Clone, Copy, PartialEq, Eq, Structural)]
pub enum Ink {
    White,
    /// The subdued colour of the statistics and of the result.
    Muted,
    /// The subdued colour of the settings.
    Ice,
    /// The subdued colour of the page on the program.
    Pale,
}

/// How a text is set.
#[derive(Debug, Clone, Copy, PartialEq, Eq, Structural)]
pub struct TextStyle {
    pub size: u64,
    pub bold: bool,
    pub ink: Ink,
}

/// Whether a run went well.
#[derive(Debug, Clone, Copy, PartialEq, Eq, Structural)]
pub enum Tone {
    Success,
    Warning,
}

/// What a button does.
#[derive(Debug, Clone, Copy, PartialEq, Eq, Structural)]
pub enum Press {
    OpenStatistics,
    OpenErrors,
    CloseResult,
    CloseAbout,
    ResetDefaults,
    CloseSettings,
}

/// A text, or one around one or two amounts of bytes.
#[derive(Debug, Clone, PartialEq, Eq)]
pub enum Wording {
    Words { text: String },
    Amount { before: String, bytes: u64, after: String },
    Amounts { first: u64, between: String, second: u64 },
}

/// An element of a window.
#[derive(Debug, Clone, PartialEq, Eq)]
pub enum Element {
    Label { text: Wording, frame: Frame, style: TextStyle },
    /// How much of `most` an amount makes up.
    Progress { frame: Frame, amount: u64, most: u64 },
    /// A track filled from the left, to `part` of `whole` of its width.
    Bar { frame: Frame, part: u64, whole: u64, tone: Tone },
    Card { frame: Frame, tone: Tone },
    Panel { frame: Frame },
    Picture { name: String, frame: Frame },
    Button { title: String, frame: Frame, press: Press },
    Checkbox { title: String, tag: isize, on: bool, enabled: bool, frame: Frame },
    Field { value: String, tag: isize, enabled: bool, frame: Frame },
}

/// What is seen of a wording.
pub ghost enum SeenText {
    Words { text: Seq<char> },
    Amount { before: Seq<char>, bytes: u64, after: Seq<char> },
    Amounts { first: u64, between: Seq<char>, second: u64 },
}

/// What is seen of an element.
pub ghost enum Seen {
    Label { text: SeenText, frame: Frame, style: TextStyle },
    Progress { frame: Frame, amount: u64, most: u64 },
    Bar { frame: Frame, part: u64, whole: u64, tone: Tone },
    Card { frame: Frame, tone: Tone },
    Panel { frame: Frame },
    Picture { name: Seq<char>, frame: Frame },
    Button { title: Seq<char>, frame: Frame, press: Press },
    Checkbox { title: Seq<char>, tag: isize, on: bool, enabled: bool, frame: Frame },
    Field { value: Seq<char>, tag: isize, enabled: bool, frame: Frame },
}

impl View for Wording {
    type V = SeenText;

    open spec fn view(&self) -> SeenText {
        match *self {
            Wording::Words { text } => SeenText::Words { text: text@ },
            Wording::Amount { before, bytes, after } => SeenText::Amount {
                before: before@,
                bytes,
                after: after@,
            },
            Wording::Amounts { first, between, second } => SeenText::Amounts {
                first,
                between: between@,
                second,
            },
        }
    }
}

impl View for Element {
    type V = Seen;

    open spec fn view(&self) -> Seen {
        match *self {
            Element::Label { text, frame, style } => Seen::Label { text: text@, frame, style },
            Element::Progress { frame, amount, most } => Seen::Progress { frame, amount, most },
            Element::Bar { frame, part, whole, tone } => Seen::Bar { frame, part, whole, tone },
            Element::Card { frame, tone } => Seen::Card { frame, tone },
            Element::Panel { frame } => Seen::Panel { frame },
            Element::Picture { name, frame } => Seen::Picture { name: name@, frame },
            Element::Button { title, frame, press } => Seen::Button { title: title@, frame, press },
            Element::Checkbox { title, tag, on, enabled, frame } => Seen::Checkbox {
                title: title@,
                tag,
                on,
                enabled,
                frame,
            },
            Element::Field { value, tag, enabled, frame } => Seen::Field {
                value: value@,
                tag,
                enabled,
                frame,
            },
        }
    }
}

/// What is seen of a list of elements.
pub open spec fn seen(elements: Seq<Element>) -> Seq<Seen> {
    elements.map_values(|element: Element| element@)
}

/// A rectangle.
pub open spec fn frame(x: i64, y: i64, width: i64, height: i64) -> Frame {
    Frame { x, y, width, height }
}

/// How a text is set.
pub open spec fn style(size: u64, bold: bool, ink: Ink) -> TextStyle {
    TextStyle { size, bold, ink }
}

/// A label of plain words.
pub open spec fn words(text: Seq<char>, frame: Frame, style: TextStyle) -> Seen {
    Seen::Label { text: SeenText::Words { text }, frame, style }
}

/// A window.
#[derive(Debug, Clone, PartialEq, Eq)]
pub struct Window {
    pub title: String,
    pub width: i64,
    pub height: i64,
    pub elements: Vec<Element>,
}

impl Window {
    /// Whether this window has this title and size and shows these elements.
    pub open spec fn shows(
        self,
        title: Seq<char>,
        width: int,
        height: int,
        elements: Seq<Seen>,
    ) -> bool {
        &&& self.title@ == title
        &&& self.width == width
        &&& self.height == height
        &&& seen(self.elements@) =~= elements
    }
}

/// Adds an element.
pub fn push_element(elements: &mut Vec<Element>, element: Element)
    ensures
        seen(final(elements)@) == seen(old(elements)@).push(element@),
{
    let ghost before = elements@;
    elements.push(element);
    assert(seen(elements@) =~= seen(before).push(element@));
}

/// Adds a label of plain words.
pub fn push_words(elements: &mut Vec<Element>, text: String, frame: Frame, style: TextStyle)
    ensures
        seen(final(elements)@) == seen(old(elements)@).push(words(text@, frame, style)),
{
    push_element(elements, Element::Label { text: Wording::Words { text }, frame, style });
}

/// Adds a label of fixed words.
pub fn push_text(elements: &mut Vec<Element>, text: &str, frame: Frame, style: TextStyle)
    ensures
        seen(final(elements)@) == seen(old(elements)@).push(words(text@, frame, style)),
{
    push_words(elements, text.to_owned(), frame, style);
}

/// Adds a button.
pub fn push_button(elements: &mut Vec<Element>, title: &str, frame: Frame, press: Press)
    ensures
        seen(final(elements)@) == seen(old(elements)@).push(
            Seen::Button { title: title@, frame, press },
        ),
{
    push_element(elements, Element::Button { title: title.to_owned(), frame, press });
}

/// A rectangle.
pub fn make_frame(x: i64, y: i64, width: i64, height: i64) -> (made: Frame)
    ensures
        made == frame(x, y, width, height),
{
    Frame { x, y, width, height }
}

/// How a text is set.
pub fn make_style(size: u64, bold: bool, ink: Ink) -> (made: TextStyle)
    ensures
        made == style(size, bold, ink),
{
    TextStyle { size, bold, ink }
}

} // verus!

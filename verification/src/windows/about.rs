//! The window on the program.

use super::elements::{
    frame, make_frame, make_style, push_button, push_element, push_text, seen, style, words,
    Element, Ink, Press, Seen, Window,
};
use vstd::prelude::*;

verus! {

/// What the window on the program shows: the artwork on the left, a panel on the right, and
/// on the panel the texts and the button.
pub open spec fn about_elements(version: Seq<char>) -> Seq<Seen> {
    seq![
        Seen::Picture { name: "Yeti3-About.png"@, frame: frame(20, 42, 530, 530) },
        Seen::Panel { frame: frame(560, 64, 390, 500) },
        words("YETI³ CLEANER"@, frame(588, 482, 330, 44), style(290, true, Ink::White)),
        words("Deep macOS Cleanup"@, frame(590, 445, 330, 25), style(150, false, Ink::Pale)),
        words("VERSION "@ + version, frame(590, 394, 330, 25), style(125, true, Ink::White)),
        words("RUST · GOLANG · KUBERNETES"@, frame(590, 334, 330, 22), style(115, true, Ink::Pale)),
        words("SWIFT / OBJC · JAVASCRIPT"@, frame(590, 304, 330, 22), style(115, true, Ink::Pale)),
        words(
            "CODE. CLEAN. OPTIMIZE. REPEAT."@,
            frame(590, 242, 330, 24),
            style(115, true, Ink::White),
        ),
        words(
            "Local-first · SQLite history"@,
            frame(590, 208, 330, 22),
            style(105, false, Ink::Pale),
        ),
        Seen::Button {
            title: "Готово"@,
            frame: frame(770, 98, 150, 42),
            press: Press::CloseAbout,
        },
    ]
}

/// Where the panel stands.
const PANEL_X: i64 = 560;

/// Where the panel stands.
const PANEL_Y: i64 = 64;

/// Adds a text at a place on the panel.
fn about_text(
    elements: &mut Vec<Element>,
    text: &str,
    x: i64,
    y: i64,
    height: i64,
    size: u64,
    bold: bool,
    secondary: bool,
)
    requires
        0 <= x <= 1000,
        0 <= y <= 1000,
    ensures
        seen(final(elements)@) == seen(old(elements)@).push(
            words(
                text@,
                frame((PANEL_X + x) as i64, (PANEL_Y + y) as i64, 330, height),
                style(
                    size,
                    bold,
                    if secondary {
                        Ink::Pale
                    } else {
                        Ink::White
                    },
                ),
            ),
        ),
{
    let ink = if secondary {
        Ink::Pale
    } else {
        Ink::White
    };
    push_text(
        elements,
        text,
        make_frame(PANEL_X + x, PANEL_Y + y, 330, height),
        make_style(size, bold, ink),
    );
}

/// Lays out the window on the program.
pub fn show_about_window(version: &str) -> (window: Window)
    ensures
        window.shows("YETI³ Cleaner"@, 980, 640, about_elements(version@)),
{
    let mut elements: Vec<Element> = Vec::new();
    push_element(
        &mut elements,
        Element::Picture {
            name: "Yeti3-About.png".to_owned(),
            frame: make_frame(20, 42, 530, 530),
        },
    );
    push_element(&mut elements, Element::Panel { frame: make_frame(PANEL_X, PANEL_Y, 390, 500) });
    about_text(&mut elements, "YETI³ CLEANER", 28, 418, 44, 290, true, false);
    about_text(&mut elements, "Deep macOS Cleanup", 30, 381, 25, 150, false, true);
    let mut line = "VERSION ".to_owned();
    line.append(version);
    about_text(&mut elements, line.as_str(), 30, 330, 25, 125, true, false);
    about_text(&mut elements, "RUST · GOLANG · KUBERNETES", 30, 270, 22, 115, true, true);
    about_text(&mut elements, "SWIFT / OBJC · JAVASCRIPT", 30, 240, 22, 115, true, true);
    about_text(&mut elements, "CODE. CLEAN. OPTIMIZE. REPEAT.", 30, 178, 24, 115, true, false);
    about_text(&mut elements, "Local-first · SQLite history", 30, 144, 22, 105, false, true);
    push_button(
        &mut elements,
        "Готово",
        make_frame(PANEL_X + 210, PANEL_Y + 34, 150, 42),
        Press::CloseAbout,
    );
    Window { title: "YETI³ Cleaner".to_owned(), width: 980, height: 640, elements }
}

} // verus!

//! Reports that a window shows as text: what they say and how much room they take.

use crate::lines::{lines, lines_of, longest, longest_of};
use crate::text::{decimal, decimal_text, join_by, joined_by, texts};
use vstd::prelude::*;

verus! {

/// The size of the page that holds a report, in tenths of a point.
#[derive(Debug, Clone, Copy, PartialEq, Eq)]
pub struct Page {
    pub width: u64,
    pub height: u128,
}

/// The least width of a page.
pub const LEAST_WIDTH: u64 = 7400;

/// The greatest width of a page.
pub const MOST_WIDTH: u64 = 60000;

/// The width of a page whose longest line has `longest` bytes: 7.5 points for each of them
/// and a margin of 24 points, within the limits.
pub open spec fn page_width(longest: nat) -> int {
    let wanted = longest as int * 75 + 240;
    if wanted < LEAST_WIDTH {
        LEAST_WIDTH as int
    } else if wanted > MOST_WIDTH {
        MOST_WIDTH as int
    } else {
        wanted
    }
}

/// The height of a page of `count` lines: 18 points for each of them and a margin of 24
/// points, but not less than `least`.
pub open spec fn page_height(count: nat, least: int) -> int {
    let wanted = count as int * 180 + 240;
    if wanted < least {
        least
    } else {
        wanted
    }
}

impl Page {
    /// Whether this is the page for `report`, at least `least` high.
    pub open spec fn holds(self, report: Seq<char>, least: int) -> bool {
        &&& self.width == page_width(longest(lines(report)))
        &&& self.height == page_height(lines(report).len(), least)
    }
}

/// Measures the page for `report`, at least `least` tenths of a point high.
pub fn page_for(report: &str, least: u64) -> (page: Page)
    ensures
        page.holds(report@, least as int),
{
    let list = lines_of(report);
    let most: usize = longest_of(&list);
    let count: u128 = list.len() as u128;
    let width: u64 = if most > 1000 {
        MOST_WIDTH
    } else {
        let wanted: u64 = most as u64 * 75 + 240;
        if wanted < LEAST_WIDTH {
            LEAST_WIDTH
        } else if wanted > MOST_WIDTH {
            MOST_WIDTH
        } else {
            wanted
        }
    };
    let wanted: u128 = count * 180 + 240;
    let height: u128 = if wanted < least as u128 {
        least as u128
    } else {
        wanted
    };
    Page { width, height }
}

/// How one error is reported: its number, its category, its path and its reason.
pub open spec fn error_paragraph(number: nat, error: (String, String, String)) -> Seq<char> {
    decimal(number) + ". "@ + error.0@ + "\n"@ + error.1@ + "\nПричина: "@ + error.2@ + "\n"@
}

/// The report on the errors of the latest run, each a category, a path and a reason.
pub open spec fn error_text(errors: Seq<(String, String, String)>) -> Seq<char> {
    if errors.len() == 0 {
        "Ошибок в последней очистке нет."@
    } else {
        joined_by(
            Seq::new(errors.len(), |i: int| error_paragraph((i + 1) as nat, errors[i])),
            "\n"@,
        )
    }
}

/// Writes the report on the errors of the latest run.
pub fn error_report(errors: &Vec<(String, String, String)>) -> (report: String)
    ensures
        report@ == error_text(errors@),
{
    if errors.len() == 0 {
        return "Ошибок в последней очистке нет.".to_owned();
    }
    let mut paragraphs: Vec<String> = Vec::new();
    let mut at: usize = 0;
    while at < errors.len()
        invariant
            at <= errors.len(),
            texts(paragraphs@) == Seq::new(
                at as nat,
                |i: int| error_paragraph((i + 1) as nat, errors@[i]),
            ),
        decreases errors.len() - at,
    {
        let mut text = decimal_text(at as u64 + 1);
        text.append(". ");
        text.append(errors[at].0.as_str());
        text.append("\n");
        text.append(errors[at].1.as_str());
        text.append("\nПричина: ");
        text.append(errors[at].2.as_str());
        text.append("\n");
        assert(text@ == error_paragraph((at + 1) as nat, errors@[at as int]));
        assert(texts(paragraphs@.push(text)) =~= texts(paragraphs@).push(text@));
        paragraphs.push(text);
        at = at + 1;
    }
    join_by(&paragraphs, "\n")
}

/// The text shown for the errors of the latest run, or for the reason why they could not be
/// loaded.
pub open spec fn loaded_text(errors: Result<Vec<(String, String, String)>, String>) -> Seq<char> {
    match errors {
        Ok(errors) => error_text(errors@),
        Err(error) => "Не удалось загрузить ошибки: "@ + error@,
    }
}

/// The window with the errors of the latest run.
#[derive(Debug, Clone)]
pub struct ErrorsWindow {
    pub message: String,
    pub report: String,
    pub page: Page,
    pub button: String,
}

/// The height of the part of the errors that is seen at once, in tenths of a point.
pub const ERRORS_HEIGHT: u64 = 2400;

/// Lays out the window with the errors of the latest run.
pub fn show_cleanup_errors(
    errors: Result<Vec<(String, String, String)>, String>,
) -> (window: ErrorsWindow)
    ensures
        window.message@ == "Ошибки последней очистки"@,
        window.report@ == loaded_text(errors),
        window.page.holds(loaded_text(errors), ERRORS_HEIGHT as int),
        window.page.height >= 2400,
        lines(loaded_text(errors)).len() <= 12 ==> window.page.height == 2400,
        window.button@ == "Закрыть"@,
{
    let report = match &errors {
        Ok(errors) => error_report(errors),
        Err(error) => {
            let mut report = "Не удалось загрузить ошибки: ".to_owned();
            report.append(error.as_str());
            report
        },
    };
    let page = page_for(report.as_str(), ERRORS_HEIGHT);
    ErrorsWindow {
        message: "Ошибки последней очистки".to_owned(),
        report,
        page,
        button: "Закрыть".to_owned(),
    }
}

/// A page never has less than its least height, and its width stays within the limits.
pub proof fn page_is_within_limits(page: Page, report: Seq<char>, least: int)
    requires
        page.holds(report, least),
    ensures
        LEAST_WIDTH <= page.width <= MOST_WIDTH,
        page.height >= least,
        page.height >= 240,
{
}

} // verus!

//! The window in which the settings are changed.

use super::values::Settings;
use crate::text::{decimal, decimal_text};
use crate::windows::elements::{
    frame, make_frame, make_style, push_button, push_element, push_text, seen, style,
    words, Element, Frame, Ink, Press, Seen, TextStyle, Window,
};
use vstd::prelude::*;

verus! {

/// A row of the window, or a part of one.
#[derive(Debug, Clone, Copy)]
pub enum Row {
    /// A heading or a remark.
    Text { text: &'static str, frame: Frame },
    /// A box for the switch with this tag.
    Check { title: &'static str, tag: isize, frame: Frame },
    /// A box that is always marked.
    Locked { title: &'static str, frame: Frame },
    /// A field for the age with this tag, with words on either side.
    Age { tag: isize, x: i64, y: i64 },
}

/// The rows on the system.
pub open spec fn macos_rows() -> Seq<Row> {
    seq![
        Row::Text { text: "macOS", frame: frame(24, 1650, 250, 26) },
        Row::Check { title: "Корзина", tag: 1, frame: frame(30, 1618, 260, 24) },
        Row::Check { title: "Кэши приложений", tag: 2, frame: frame(30, 1590, 260, 24) },
        Row::Check { title: "Временные файлы", tag: 3, frame: frame(30, 1562, 260, 24) },
        Row::Age { tag: 1001, x: 330, y: 1562 },
        Row::Check { title: "Логи", tag: 4, frame: frame(30, 1534, 260, 24) },
        Row::Age { tag: 1002, x: 330, y: 1534 },
        Row::Check { title: "Crash Reports", tag: 5, frame: frame(30, 1506, 260, 24) },
    ]
}

/// The rows on the browsers.
pub open spec fn browsers_rows() -> Seq<Row> {
    seq![
        Row::Text { text: "Браузеры", frame: frame(24, 1464, 250, 26) },
        Row::Check { title: "Safari", tag: 16, frame: frame(30, 1432, 190, 24) },
        Row::Check { title: "Chrome", tag: 10, frame: frame(240, 1432, 190, 24) },
        Row::Check { title: "Opera", tag: 11, frame: frame(450, 1432, 190, 24) },
        Row::Check { title: "Firefox", tag: 12, frame: frame(30, 1404, 190, 24) },
        Row::Check { title: "Chromium", tag: 13, frame: frame(240, 1404, 190, 24) },
        Row::Check { title: "Brave", tag: 14, frame: frame(450, 1404, 190, 24) },
        Row::Check { title: "Arc", tag: 15, frame: frame(30, 1376, 190, 24) },
    ]
}

/// The rows on Xcode.
pub open spec fn xcode_rows() -> Seq<Row> {
    seq![
        Row::Text { text: "Разработка", frame: frame(24, 1346, 250, 26) },
        Row::Check { title: "Xcode DerivedData", tag: 20, frame: frame(30, 1314, 280, 24) },
        Row::Check { title: "Xcode SourcePackages", tag: 21, frame: frame(30, 1286, 280, 24) },
        Row::Age { tag: 1003, x: 330, y: 1286 },
        Row::Check { title: "Недоступные Simulator", tag: 22, frame: frame(30, 1258, 300, 24) },
    ]
}

/// The rows on the other development tools.
pub open spec fn tools_rows() -> Seq<Row> {
    seq![
        Row::Check { title: "Cargo", tag: 23, frame: frame(30, 1226, 185, 24) },
        Row::Check { title: "npm", tag: 24, frame: frame(240, 1226, 185, 24) },
        Row::Check { title: "npx", tag: 25, frame: frame(450, 1226, 185, 24) },
        Row::Check { title: "pnpm", tag: 26, frame: frame(30, 1198, 185, 24) },
        Row::Check { title: "Yarn", tag: 27, frame: frame(240, 1198, 185, 24) },
        Row::Check { title: "pip", tag: 28, frame: frame(450, 1198, 185, 24) },
        Row::Check { title: "uv", tag: 29, frame: frame(30, 1170, 185, 24) },
        Row::Check { title: "Gradle", tag: 30, frame: frame(240, 1170, 185, 24) },
        Row::Check { title: "CocoaPods", tag: 31, frame: frame(450, 1170, 185, 24) },
        Row::Age { tag: 1004, x: 520, y: 1170 },
    ]
}

/// The rows on machine learning.
pub open spec fn ai_ml_rows() -> Seq<Row> {
    seq![
        Row::Text { text: "AI / ML", frame: frame(24, 1106, 250, 26) },
        Row::Check { title: "HuggingFace", tag: 40, frame: frame(30, 1074, 190, 24) },
        Row::Check { title: "Torch", tag: 41, frame: frame(240, 1074, 190, 24) },
        Row::Check { title: "Whisper", tag: 42, frame: frame(450, 1074, 190, 24) },
        Row::Check { title: "CLIP", tag: 43, frame: frame(30, 1046, 190, 24) },
        Row::Check { title: "CoreML", tag: 44, frame: frame(240, 1046, 190, 24) },
        Row::Check { title: "Codex runtimes", tag: 45, frame: frame(450, 1046, 190, 24) },
        Row::Check { title: "Selenium", tag: 46, frame: frame(30, 1018, 190, 24) },
        Row::Check { title: "OpenAI cache", tag: 47, frame: frame(240, 1018, 190, 24) },
    ]
}

/// The rows on Homebrew.
pub open spec fn homebrew_rows() -> Seq<Row> {
    seq![
        Row::Text { text: "Homebrew", frame: frame(24, 962, 250, 26) },
        Row::Check { title: "Включить Homebrew", tag: 50, frame: frame(30, 930, 360, 24) },
        Row::Check { title: "Неиспользуемые зависимости", tag: 51, frame: frame(30, 902, 360, 24) },
        Row::Check { title: "Старые версии", tag: 52, frame: frame(30, 874, 360, 24) },
        Row::Check { title: "Cache / Downloads", tag: 53, frame: frame(30, 846, 360, 24) },
        Row::Check { title: "Временные сборки", tag: 54, frame: frame(30, 818, 360, 24) },
    ]
}

/// The rows on Docker.
pub open spec fn docker_rows() -> Seq<Row> {
    seq![
        Row::Text { text: "Docker", frame: frame(24, 772, 250, 26) },
        Row::Check { title: "Включить Docker", tag: 60, frame: frame(30, 740, 360, 24) },
        Row::Check { title: "Build cache", tag: 61, frame: frame(30, 712, 360, 24) },
        Row::Check { title: "Неиспользуемые images", tag: 62, frame: frame(30, 684, 360, 24) },
        Row::Check { title: "Остановленные containers", tag: 63, frame: frame(30, 656, 360, 24) },
        Row::Check { title: "Неиспользуемые networks", tag: 64, frame: frame(30, 628, 360, 24) },
        Row::Locked { title: "Volumes — защищены всегда", frame: frame(30, 600, 360, 24) },
    ]
}

/// The rows on Podman.
pub open spec fn podman_rows() -> Seq<Row> {
    seq![
        Row::Text { text: "Podman", frame: frame(24, 552, 250, 26) },
        Row::Check { title: "Включить Podman", tag: 70, frame: frame(30, 520, 300, 24) },
        Row::Check { title: "Cache", tag: 71, frame: frame(30, 492, 300, 24) },
        Row::Check { title: "Неиспользуемые VM", tag: 72, frame: frame(30, 464, 300, 24) },
        Row::Age { tag: 1005, x: 330, y: 464 },
    ]
}

/// The row on mobile devices.
pub open spec fn mobile_rows() -> Seq<Row> {
    seq![
        Row::Text { text: "iPhone / iPad", frame: frame(24, 416, 250, 26) },
        Row::Check { title: "Удалять все локальные резервные копии", tag: 80, frame: frame(30, 384, 430, 24) },
    ]
}

/// The rows on what follows on a cleanup.
pub open spec fn behavior_rows() -> Seq<Row> {
    seq![
        Row::Text { text: "После очистки", frame: frame(24, 336, 250, 26) },
        Row::Check { title: "Повторно проверить диск", tag: 90, frame: frame(30, 304, 350, 24) },
        Row::Check { title: "Показывать освобождённое место", tag: 91, frame: frame(30, 276, 390, 24) },
        Row::Check { title: "Вести журнал", tag: 92, frame: frame(30, 248, 350, 24) },
    ]
}

/// What is never cleaned.
pub open spec fn protection_rows() -> Seq<Row> {
    seq![
        Row::Text { text: "Всегда защищено", frame: frame(24, 196, 250, 26) },
        Row::Text { text: "Downloads · Documents · GIT · Desktop · Pictures · Movies · Music", frame: frame(30, 166, 640, 22) },
        Row::Text { text: "iCloud · Mail · Messages · Telegram · WhatsApp · Docker volumes", frame: frame(30, 142, 640, 22) },
    ]
}

/// The rows of the window, from its top down.
pub open spec fn settings_rows() -> Seq<Row> {
    macos_rows() + browsers_rows() + xcode_rows() + tools_rows() + ai_ml_rows() + homebrew_rows()
        + docker_rows() + podman_rows() + mobile_rows() + behavior_rows() + protection_rows()
}

/// Whether the switch with this tag cannot be changed yet.
pub open spec fn is_unsupported(tag: isize) -> bool {
    ||| tag == 2
    ||| 40 <= tag <= 43
    ||| 45 <= tag <= 47
    ||| 70 <= tag <= 72
    ||| tag == 90
    ||| tag == 92
}

/// How a text of this height is set.
pub open spec fn label_style(height: i64) -> TextStyle {
    if height >= 24 {
        style(160, true, Ink::White)
    } else {
        style(125, false, Ink::Ice)
    }
}

/// The box for a switch. One that cannot be changed yet is off, disabled, and says so.
pub open spec fn checkbox(title: Seq<char>, tag: isize, enabled: bool, frame: Frame) -> Seen {
    Seen::Checkbox {
        title: if is_unsupported(tag) {
            title + " · позже"@
        } else {
            title
        },
        tag,
        on: enabled && !is_unsupported(tag),
        enabled: !is_unsupported(tag),
        frame,
    }
}

/// The field for an age, with words on either side. Two of them cannot be changed.
pub open spec fn age_field(days: u64, tag: isize, x: i64, y: i64) -> Seq<Seen> {
    seq![
        words("старше"@, frame(x, (y + 2) as i64, 50, 20), label_style(20)),
        Seen::Field {
            value: decimal(days as nat),
            tag,
            enabled: tag != 1001 && tag != 1005,
            frame: frame((x + 52) as i64, y, 55, 24),
        },
        words("дней"@, frame((x + 114) as i64, (y + 2) as i64, 40, 20), label_style(20)),
    ]
}

/// What a row shows of the settings.
pub open spec fn row_elements(settings: Settings, row: Row) -> Seq<Seen> {
    match row {
        Row::Text { text, frame } => seq![words(text@, frame, label_style(frame.height))],
        Row::Check { title, tag, frame } => seq![
            checkbox(title@, tag, settings.switch(tag as int) == Some(true), frame),
        ],
        Row::Locked { title, frame } => seq![
            Seen::Checkbox { title: title@, tag: 0, on: true, enabled: false, frame },
        ],
        Row::Age { tag, x, y } => age_field(
            match settings.age(tag as int) {
                Some(days) => days,
                None => 0,
            },
            tag,
            x,
            y,
        ),
    }
}

/// What the rows show of the settings.
pub open spec fn rows_elements(settings: Settings, rows: Seq<Row>) -> Seq<Seen>
    decreases rows.len(),
{
    if rows.len() == 0 {
        seq![]
    } else {
        rows_elements(settings, rows.drop_last()) + row_elements(settings, rows.last())
    }
}

/// What stands below the rows.
pub open spec fn settings_buttons() -> Seq<Seen> {
    seq![
        Seen::Button {
            title: "По умолчанию"@,
            frame: frame(18, 8, 130, 34),
            press: Press::ResetDefaults,
        },
        Seen::Button {
            title: "Закрыть"@,
            frame: frame(570, 8, 130, 34),
            press: Press::CloseSettings,
        },
    ]
}

/// The window with the settings: a page that is scrolled, and buttons below it.
#[derive(Debug, Clone)]
pub struct SettingsWindow {
    pub window: Window,
    pub scroll: Frame,
    pub page: Frame,
    pub rows: Vec<Element>,
}

fn add_text(rows: &mut Vec<Row>, text: &'static str, x: i64, y: i64, width: i64, height: i64)
    ensures
        final(rows)@ == old(rows)@.push(Row::Text { text, frame: frame(x, y, width, height) }),
{
    rows.push(Row::Text { text, frame: make_frame(x, y, width, height) });
}

fn add_check(rows: &mut Vec<Row>, title: &'static str, tag: isize, x: i64, y: i64, width: i64)
    ensures
        final(rows)@ == old(rows)@.push(Row::Check { title, tag, frame: frame(x, y, width, 24) }),
{
    rows.push(Row::Check { title, tag, frame: make_frame(x, y, width, 24) });
}

/// Boxes three in a row, rows 28 points apart.
pub open spec fn grid(titles: Seq<(&'static str, isize)>, y: i64, width: i64) -> Seq<Row> {
    Seq::new(
        titles.len(),
        |i: int|
            Row::Check {
                title: titles[i].0,
                tag: titles[i].1,
                frame: frame((30 + (i % 3) * 210) as i64, (y - (i / 3) * 28) as i64, width, 24),
            },
    )
}

fn add_grid(rows: &mut Vec<Row>, titles: &Vec<(&'static str, isize)>, y: i64, width: i64)
    requires
        titles.len() <= 9,
        0 <= y <= 2000,
    ensures
        final(rows)@ == old(rows)@ + grid(titles@, y, width),
{
    let ghost before = rows@;
    let mut at: usize = 0;
    while at < titles.len()
        invariant
            at <= titles.len() <= 9,
            0 <= y <= 2000,
            rows@ == before + grid(titles@, y, width).take(at as int),
        decreases titles.len() - at,
    {
        let column: i64 = (at % 3) as i64;
        let line: i64 = (at / 3) as i64;
        add_check(rows, titles[at].0, titles[at].1, 30 + column * 210, y - line * 28, width);
        assert(grid(titles@, y, width).take(at + 1) =~= grid(titles@, y, width).take(
            at as int,
        ).push(grid(titles@, y, width)[at as int]));
        at = at + 1;
    }
    assert(grid(titles@, y, width).take(at as int) =~= grid(titles@, y, width));
}

/// Boxes below each other, 28 points apart.
pub open spec fn column(titles: Seq<(&'static str, isize)>, y: i64) -> Seq<Row> {
    Seq::new(
        titles.len(),
        |i: int|
            Row::Check {
                title: titles[i].0,
                tag: titles[i].1,
                frame: frame(30, (y - i * 28) as i64, 360, 24),
            },
    )
}

fn add_column(rows: &mut Vec<Row>, titles: &Vec<(&'static str, isize)>, y: i64) -> (below: i64)
    requires
        titles.len() <= 9,
        0 <= y <= 2000,
    ensures
        final(rows)@ == old(rows)@ + column(titles@, y),
        below == y - 28 * titles.len(),
{
    let ghost before = rows@;
    let mut below: i64 = y;
    let mut at: usize = 0;
    while at < titles.len()
        invariant
            at <= titles.len() <= 9,
            0 <= y <= 2000,
            below == y - 28 * at,
            rows@ == before + column(titles@, y).take(at as int),
        decreases titles.len() - at,
    {
        add_check(rows, titles[at].0, titles[at].1, 30, below, 360);
        assert(column(titles@, y).take(at + 1) =~= column(titles@, y).take(at as int).push(
            column(titles@, y)[at as int],
        ));
        below = below - 28;
        at = at + 1;
    }
    assert(column(titles@, y).take(at as int) =~= column(titles@, y));
    below
}

fn add_macos(rows: &mut Vec<Row>, top: i64) -> (below: i64)
    requires
        top == 1650,
    ensures
        final(rows)@ == old(rows)@ + macos_rows(),
        below == 1464,
{
    let ghost before = rows@;
    let mut y: i64 = top;
    add_text(rows, "macOS", 24, y, 250, 26);
    y = y - 32;
    add_check(rows, "Корзина", 1, 30, y, 260);
    y = y - 28;
    add_check(rows, "Кэши приложений", 2, 30, y, 260);
    y = y - 28;
    add_check(rows, "Временные файлы", 3, 30, y, 260);
    rows.push(Row::Age { tag: 1001, x: 330, y });
    y = y - 28;
    add_check(rows, "Логи", 4, 30, y, 260);
    rows.push(Row::Age { tag: 1002, x: 330, y });
    y = y - 28;
    add_check(rows, "Crash Reports", 5, 30, y, 260);
    y = y - 42;
    assert(rows@ =~= before + macos_rows());
    y
}

fn add_browsers(rows: &mut Vec<Row>, top: i64) -> (below: i64)
    requires
        top == 1464,
    ensures
        final(rows)@ == old(rows)@ + browsers_rows(),
        below == 1346,
{
    let ghost before = rows@;
    let mut y: i64 = top;
    add_text(rows, "Браузеры", 24, y, 250, 26);
    y = y - 32;
    let titles: Vec<(&'static str, isize)> = vec![
        ("Safari", 16),
        ("Chrome", 10),
        ("Opera", 11),
        ("Firefox", 12),
        ("Chromium", 13),
        ("Brave", 14),
        ("Arc", 15),
    ];
    add_grid(rows, &titles, y, 190);
    y = y - 86;
    assert(rows@ =~= before + browsers_rows());
    y
}

fn add_xcode(rows: &mut Vec<Row>, top: i64) -> (below: i64)
    requires
        top == 1346,
    ensures
        final(rows)@ == old(rows)@ + xcode_rows(),
        below == 1226,
{
    let ghost before = rows@;
    let mut y: i64 = top;
    add_text(rows, "Разработка", 24, y, 250, 26);
    y = y - 32;
    add_check(rows, "Xcode DerivedData", 20, 30, y, 280);
    y = y - 28;
    add_check(rows, "Xcode SourcePackages", 21, 30, y, 280);
    rows.push(Row::Age { tag: 1003, x: 330, y });
    y = y - 28;
    add_check(rows, "Недоступные Simulator", 22, 30, y, 300);
    y = y - 32;
    assert(rows@ =~= before + xcode_rows());
    y
}

fn add_tools(rows: &mut Vec<Row>, top: i64) -> (below: i64)
    requires
        top == 1226,
    ensures
        final(rows)@ == old(rows)@ + tools_rows(),
        below == 1106,
{
    let ghost before = rows@;
    let mut y: i64 = top;
    let titles: Vec<(&'static str, isize)> = vec![
        ("Cargo", 23),
        ("npm", 24),
        ("npx", 25),
        ("pnpm", 26),
        ("Yarn", 27),
        ("pip", 28),
        ("uv", 29),
        ("Gradle", 30),
        ("CocoaPods", 31),
    ];
    add_grid(rows, &titles, y, 185);
    rows.push(Row::Age { tag: 1004, x: 520, y: y - 2 * 28 });
    y = y - 120;
    assert(rows@ =~= before + tools_rows());
    y
}

fn add_ai_ml(rows: &mut Vec<Row>, top: i64) -> (below: i64)
    requires
        top == 1106,
    ensures
        final(rows)@ == old(rows)@ + ai_ml_rows(),
        below == 962,
{
    let ghost before = rows@;
    let mut y: i64 = top;
    add_text(rows, "AI / ML", 24, y, 250, 26);
    y = y - 32;
    let titles: Vec<(&'static str, isize)> = vec![
        ("HuggingFace", 40),
        ("Torch", 41),
        ("Whisper", 42),
        ("CLIP", 43),
        ("CoreML", 44),
        ("Codex runtimes", 45),
        ("Selenium", 46),
        ("OpenAI cache", 47),
    ];
    add_grid(rows, &titles, y, 190);
    y = y - 112;
    assert(rows@ =~= before + ai_ml_rows());
    y
}

fn add_homebrew(rows: &mut Vec<Row>, top: i64) -> (below: i64)
    requires
        top == 962,
    ensures
        final(rows)@ == old(rows)@ + homebrew_rows(),
        below == 772,
{
    let ghost before = rows@;
    let mut y: i64 = top;
    add_text(rows, "Homebrew", 24, y, 250, 26);
    y = y - 32;
    let titles: Vec<(&'static str, isize)> = vec![
        ("Включить Homebrew", 50),
        ("Неиспользуемые зависимости", 51),
        ("Старые версии", 52),
        ("Cache / Downloads", 53),
        ("Временные сборки", 54),
    ];
    y = add_column(rows, &titles, y);
    y = y - 18;
    assert(rows@ =~= before + homebrew_rows());
    y
}

fn add_docker(rows: &mut Vec<Row>, top: i64) -> (below: i64)
    requires
        top == 772,
    ensures
        final(rows)@ == old(rows)@ + docker_rows(),
        below == 552,
{
    let ghost before = rows@;
    let mut y: i64 = top;
    add_text(rows, "Docker", 24, y, 250, 26);
    y = y - 32;
    let titles: Vec<(&'static str, isize)> = vec![
        ("Включить Docker", 60),
        ("Build cache", 61),
        ("Неиспользуемые images", 62),
        ("Остановленные containers", 63),
        ("Неиспользуемые networks", 64),
    ];
    y = add_column(rows, &titles, y);
    rows.push(
        Row::Locked {
            title: "Volumes — защищены всегда",
            frame: make_frame(30, y, 360, 24),
        },
    );
    y = y - 48;
    assert(rows@ =~= before + docker_rows());
    y
}

fn add_podman(rows: &mut Vec<Row>, top: i64) -> (below: i64)
    requires
        top == 552,
    ensures
        final(rows)@ == old(rows)@ + podman_rows(),
        below == 416,
{
    let ghost before = rows@;
    let mut y: i64 = top;
    add_text(rows, "Podman", 24, y, 250, 26);
    y = y - 32;
    add_check(rows, "Включить Podman", 70, 30, y, 300);
    y = y - 28;
    add_check(rows, "Cache", 71, 30, y, 300);
    y = y - 28;
    add_check(rows, "Неиспользуемые VM", 72, 30, y, 300);
    rows.push(Row::Age { tag: 1005, x: 330, y });
    y = y - 48;
    assert(rows@ =~= before + podman_rows());
    y
}

fn add_mobile(rows: &mut Vec<Row>, top: i64) -> (below: i64)
    requires
        top == 416,
    ensures
        final(rows)@ == old(rows)@ + mobile_rows(),
        below == 336,
{
    let ghost before = rows@;
    let mut y: i64 = top;
    add_text(rows, "iPhone / iPad", 24, y, 250, 26);
    y = y - 32;
    add_check(rows, "Удалять все локальные резервные копии", 80, 30, y, 430);
    y = y - 48;
    assert(rows@ =~= before + mobile_rows());
    y
}

fn add_behavior(rows: &mut Vec<Row>, top: i64) -> (below: i64)
    requires
        top == 336,
    ensures
        final(rows)@ == old(rows)@ + behavior_rows(),
        below == 196,
{
    let ghost before = rows@;
    let mut y: i64 = top;
    add_text(rows, "После очистки", 24, y, 250, 26);
    y = y - 32;
    add_check(rows, "Повторно проверить диск", 90, 30, y, 350);
    y = y - 28;
    add_check(rows, "Показывать освобождённое место", 91, 30, y, 390);
    y = y - 28;
    add_check(rows, "Вести журнал", 92, 30, y, 350);
    y = y - 52;
    assert(rows@ =~= before + behavior_rows());
    y
}

fn add_protection(rows: &mut Vec<Row>, top: i64)
    requires
        top == 196,
    ensures
        final(rows)@ == old(rows)@ + protection_rows(),
{
    let ghost before = rows@;
    let mut y: i64 = top;
    add_text(rows, "Всегда защищено", 24, y, 250, 26);
    y = y - 30;
    add_text(
        rows,
        "Downloads · Documents · GIT · Desktop · Pictures · Movies · Music",
        30,
        y,
        640,
        22,
    );
    y = y - 24;
    add_text(
        rows,
        "iCloud · Mail · Messages · Telegram · WhatsApp · Docker volumes",
        30,
        y,
        640,
        22,
    );
    assert(rows@ =~= before + protection_rows());
}

/// Lists the rows of the window.
fn list_rows() -> (rows: Vec<Row>)
    ensures
        rows@ == settings_rows(),
{
    let mut rows: Vec<Row> = Vec::new();
    let mut y: i64 = 1650;
    y = add_macos(&mut rows, y);
    y = add_browsers(&mut rows, y);
    y = add_xcode(&mut rows, y);
    y = add_tools(&mut rows, y);
    y = add_ai_ml(&mut rows, y);
    y = add_homebrew(&mut rows, y);
    y = add_docker(&mut rows, y);
    y = add_podman(&mut rows, y);
    y = add_mobile(&mut rows, y);
    y = add_behavior(&mut rows, y);
    add_protection(&mut rows, y);
    assert(rows@ =~= settings_rows());
    rows
}

/// Decides `is_unsupported`.
fn cannot_change(tag: isize) -> (unsupported: bool)
    ensures
        unsupported == is_unsupported(tag),
{
    tag == 2 || (40 <= tag && tag <= 43) || (45 <= tag && tag <= 47) || (70 <= tag && tag <= 72)
        || tag == 90 || tag == 92
}

/// Adds a text.
fn make_label(elements: &mut Vec<Element>, text: &str, frame: Frame)
    ensures
        seen(final(elements)@) == seen(old(elements)@).push(
            words(text@, frame, label_style(frame.height)),
        ),
{
    let style = if frame.height >= 24 {
        make_style(160, true, Ink::White)
    } else {
        make_style(125, false, Ink::Ice)
    };
    push_text(elements, text, frame, style);
}

/// Adds the box for a switch.
fn make_checkbox(
    elements: &mut Vec<Element>,
    title: &str,
    tag: isize,
    enabled: bool,
    frame: Frame,
)
    ensures
        seen(final(elements)@) == seen(old(elements)@).push(checkbox(title@, tag, enabled, frame)),
{
    let unsupported = cannot_change(tag);
    let mut title = title.to_owned();
    if unsupported {
        title.append(" · позже");
    }
    push_element(
        elements,
        Element::Checkbox {
            title,
            tag,
            on: enabled && !unsupported,
            enabled: !unsupported,
            frame,
        },
    );
}

/// Adds a box that is always marked.
fn make_locked_checkbox(elements: &mut Vec<Element>, title: &str, frame: Frame)
    ensures
        seen(final(elements)@) == seen(old(elements)@).push(
            Seen::Checkbox { title: title@, tag: 0, on: true, enabled: false, frame },
        ),
{
    push_element(
        elements,
        Element::Checkbox { title: title.to_owned(), tag: 0, on: true, enabled: false, frame },
    );
}

/// Adds the field for an age.
fn make_age_field(elements: &mut Vec<Element>, days: u64, tag: isize, x: i64, y: i64)
    requires
        x + 114 <= i64::MAX,
        y + 2 <= i64::MAX,
    ensures
        seen(final(elements)@) == seen(old(elements)@) + age_field(days, tag, x, y),
{
    let ghost before = seen(elements@);
    make_label(elements, "старше", make_frame(x, y + 2, 50, 20));
    push_element(
        elements,
        Element::Field {
            value: decimal_text(days),
            tag,
            enabled: tag != 1001 && tag != 1005,
            frame: make_frame(x + 52, y, 55, 24),
        },
    );
    make_label(elements, "дней", make_frame(x + 114, y + 2, 40, 20));
    assert(seen(elements@) =~= before + age_field(days, tag, x, y));
}

/// Whether the places of all that a row shows can be written down.
pub open spec fn row_fits(row: Row) -> bool {
    row matches Row::Age { x, y, .. } ==> x + 114 <= i64::MAX && y + 2 <= i64::MAX
}

/// Adds what a row shows of the settings.
fn make_row(elements: &mut Vec<Element>, settings: &Settings, row: Row)
    requires
        row_fits(row),
    ensures
        seen(final(elements)@) == seen(old(elements)@) + row_elements(*settings, row),
{
    let ghost before = seen(elements@);
    match row {
        Row::Text { text, frame } => {
            make_label(elements, text, frame);
        },
        Row::Check { title, tag, frame } => {
            let enabled = match settings.get_bool_setting(tag) {
                Some(enabled) => enabled,
                None => false,
            };
            make_checkbox(elements, title, tag, enabled, frame);
        },
        Row::Locked { title, frame } => {
            make_locked_checkbox(elements, title, frame);
        },
        Row::Age { tag, x, y } => {
            let days: u64 = match settings.get_age_setting(tag) {
                Some(days) => days,
                None => 0,
            };
            make_age_field(elements, days, tag, x, y);
        },
    }
    assert(seen(elements@) =~= before + row_elements(*settings, row));
}

/// Lays out the window with the settings.
pub fn show_settings_window(settings: &Settings) -> (shown: SettingsWindow)
    ensures
        shown.window.shows("Настройки YETI³ Cleaner"@, 720, 760, settings_buttons()),
        shown.scroll == frame(0, 48, 720, 712),
        shown.page == frame(0, 0, 700, 1700),
        seen(shown.rows@) == rows_elements(*settings, settings_rows()),
{
    let rows = list_rows();
    let mut elements: Vec<Element> = Vec::new();
    let mut at: usize = 0;
    proof {
        rows_fit();
    }
    assert(seen(elements@) =~= rows_elements(*settings, rows@.take(0)));
    while at < rows.len()
        invariant
            at <= rows.len(),
            forall|i: int| 0 <= i < rows.len() ==> row_fits(#[trigger] rows@[i]),
            seen(elements@) == rows_elements(*settings, rows@.take(at as int)),
        decreases rows.len() - at,
    {
        make_row(&mut elements, settings, rows[at]);
        assert(rows@.take(at + 1).drop_last() =~= rows@.take(at as int));
        at = at + 1;
    }
    assert(rows@.take(at as int) =~= rows@);
    let mut buttons: Vec<Element> = Vec::new();
    push_button(&mut buttons, "По умолчанию", make_frame(18, 8, 130, 34), Press::ResetDefaults);
    push_button(&mut buttons, "Закрыть", make_frame(570, 8, 130, 34), Press::CloseSettings);
    SettingsWindow {
        window: Window {
            title: "Настройки YETI³ Cleaner".to_owned(),
            width: 720,
            height: 760,
            elements: buttons,
        },
        scroll: make_frame(0, 48, 720, 712),
        page: make_frame(0, 0, 700, 1700),
        rows: elements,
    }
}

proof fn rows_fit()
    ensures
        forall|i: int|
            0 <= i < settings_rows().len() ==> row_fits(#[trigger] settings_rows()[i]),
{
    assert forall|i: int| 0 <= i < macos_rows().len() implies row_fits(
        #[trigger] macos_rows()[i],
    ) by {}
    assert forall|i: int| 0 <= i < browsers_rows().len() implies row_fits(
        #[trigger] browsers_rows()[i],
    ) by {}
    assert forall|i: int| 0 <= i < xcode_rows().len() implies row_fits(
        #[trigger] xcode_rows()[i],
    ) by {}
    assert forall|i: int| 0 <= i < tools_rows().len() implies row_fits(
        #[trigger] tools_rows()[i],
    ) by {}
    assert forall|i: int| 0 <= i < ai_ml_rows().len() implies row_fits(
        #[trigger] ai_ml_rows()[i],
    ) by {}
    assert forall|i: int| 0 <= i < homebrew_rows().len() implies row_fits(
        #[trigger] homebrew_rows()[i],
    ) by {}
    assert forall|i: int| 0 <= i < docker_rows().len() implies row_fits(
        #[trigger] docker_rows()[i],
    ) by {}
    assert forall|i: int| 0 <= i < podman_rows().len() implies row_fits(
        #[trigger] podman_rows()[i],
    ) by {}
    assert forall|i: int| 0 <= i < mobile_rows().len() implies row_fits(
        #[trigger] mobile_rows()[i],
    ) by {}
    assert forall|i: int| 0 <= i < behavior_rows().len() implies row_fits(
        #[trigger] behavior_rows()[i],
    ) by {}
    assert forall|i: int| 0 <= i < protection_rows().len() implies row_fits(
        #[trigger] protection_rows()[i],
    ) by {}
}

} // verus!

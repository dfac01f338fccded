//! What is asked after a scan and what follows from the answer: the question, the choices
//! offered, the selection made, the command line of the cleaner.

use crate::arguments::{add_argument, add_path, encoded, raw};
use crate::lines::{behind, find_behind, lines, lines_of, trim, trimmed};
use crate::report::{page_for, Page};
use crate::text::{join_by, joined_by, texts};
use vstd::prelude::*;

verus! {

/// What can be cleaned.
#[derive(Debug, Clone, Copy, PartialEq, Eq, Structural)]
pub enum Choice {
    Trash,
    Caches,
    Logs,
    Development,
    Backups,
    Homebrew,
    Docker,
    Xcode,
    Custom,
}

/// The choices in the order in which they are offered.
pub open spec fn all_choices() -> Seq<Choice> {
    seq![
        Choice::Trash,
        Choice::Caches,
        Choice::Logs,
        Choice::Development,
        Choice::Backups,
        Choice::Homebrew,
        Choice::Docker,
        Choice::Xcode,
        Choice::Custom,
    ]
}

/// The choices that the cleaner takes as groups, in the order in which it is given them.
pub open spec fn group_choices() -> Seq<Choice> {
    seq![Choice::Trash, Choice::Caches, Choice::Logs, Choice::Development, Choice::Custom]
}

impl Choice {
    /// What the choice is called on screen.
    pub open spec fn name(self) -> Seq<char> {
        match self {
            Choice::Trash => "Корзина"@,
            Choice::Caches => "Кэши приложений"@,
            Choice::Logs => "Логи"@,
            Choice::Development => "Кэши разработки"@,
            Choice::Backups => "Копии iPhone/iPad"@,
            Choice::Homebrew => "Homebrew"@,
            Choice::Docker => "Docker"@,
            Choice::Xcode => "Симуляторы Xcode"@,
            Choice::Custom => "Свои каталоги"@,
        }
    }

    /// What the cleaner calls the choice.
    pub open spec fn word(self) -> Seq<char> {
        match self {
            Choice::Trash => "trash"@,
            Choice::Caches => "caches"@,
            Choice::Logs => "logs"@,
            Choice::Development => "development"@,
            Choice::Backups => "backups"@,
            Choice::Homebrew => "homebrew"@,
            Choice::Docker => "docker"@,
            Choice::Xcode => "xcode"@,
            Choice::Custom => "custom"@,
        }
    }

    /// Whether the choice is marked before the user touches it.
    pub open spec fn is_usual(self) -> bool {
        self == Choice::Caches || self == Choice::Logs || self == Choice::Development
    }

    /// What the choice is called on screen.
    pub fn title(self) -> (title: String)
        ensures
            title@ == self.name(),
    {
        match self {
            Choice::Trash => "Корзина".to_owned(),
            Choice::Caches => "Кэши приложений".to_owned(),
            Choice::Logs => "Логи".to_owned(),
            Choice::Development => "Кэши разработки".to_owned(),
            Choice::Backups => "Копии iPhone/iPad".to_owned(),
            Choice::Homebrew => "Homebrew".to_owned(),
            Choice::Docker => "Docker".to_owned(),
            Choice::Xcode => "Симуляторы Xcode".to_owned(),
            Choice::Custom => "Свои каталоги".to_owned(),
        }
    }

    /// What the cleaner calls the choice.
    pub fn key(self) -> (key: String)
        ensures
            key@ == self.word(),
    {
        match self {
            Choice::Trash => "trash".to_owned(),
            Choice::Caches => "caches".to_owned(),
            Choice::Logs => "logs".to_owned(),
            Choice::Development => "development".to_owned(),
            Choice::Backups => "backups".to_owned(),
            Choice::Homebrew => "homebrew".to_owned(),
            Choice::Docker => "docker".to_owned(),
            Choice::Xcode => "xcode".to_owned(),
            Choice::Custom => "custom".to_owned(),
        }
    }
}

/// A box to mark: a choice, its state at first, and where the lower left corner stands, in
/// points.
#[derive(Debug, Clone)]
pub struct ChoiceBox {
    pub choice: Choice,
    pub title: String,
    pub checked: bool,
    pub left: u64,
    pub bottom: u64,
}

impl ChoiceBox {
    /// Whether this is the box at position `index` of those that are offered: two in a row,
    /// rows 26 points apart.
    pub open spec fn stands_at(self, index: int) -> bool {
        &&& self.choice == all_choices()[index]
        &&& self.title@ == all_choices()[index].name()
        &&& self.checked == all_choices()[index].is_usual()
        &&& self.left == (index % 2) * 370
        &&& self.bottom == 110 - (index / 2) * 26
    }
}

/// Lays out the boxes of all choices.
fn choice_boxes() -> (boxes: Vec<ChoiceBox>)
    ensures
        boxes.len() == all_choices().len(),
        forall|i: int| 0 <= i < boxes.len() ==> (#[trigger] boxes[i]).stands_at(i),
{
    let choices = vec![
        Choice::Trash,
        Choice::Caches,
        Choice::Logs,
        Choice::Development,
        Choice::Backups,
        Choice::Homebrew,
        Choice::Docker,
        Choice::Xcode,
        Choice::Custom,
    ];
    assert(choices@ =~= all_choices());
    let mut boxes: Vec<ChoiceBox> = Vec::new();
    let mut index: usize = 0;
    while index < choices.len()
        invariant
            index <= choices.len(),
            choices.len() == 9,
            choices@ == all_choices(),
            boxes.len() == index,
            forall|i: int| 0 <= i < boxes.len() ==> (#[trigger] boxes[i]).stands_at(i),
        decreases choices.len() - index,
    {
        let choice = choices[index];
        let checked = matches!(choice, Choice::Caches | Choice::Logs | Choice::Development);
        boxes.push(
            ChoiceBox {
                choice,
                title: choice.title(),
                checked,
                left: (index as u64 % 2) * 370,
                bottom: 110 - (index as u64 / 2) * 26,
            },
        );
        index = index + 1;
    }
    boxes
}

/// What `list` says behind `heading`, without the white space around it.
pub open spec fn reported_in(list: Seq<Seq<char>>, heading: Seq<char>) -> Seq<char> {
    match behind(list, heading) {
        Some(rest) => trimmed(rest),
        None => "неизвестно"@,
    }
}

/// Reads what `list` says behind `heading`.
fn read_reported(list: &Vec<String>, heading: &str) -> (text: String)
    ensures
        text@ == reported_in(texts(list@), heading@),
{
    match find_behind(list, heading) {
        Some(rest) => trim(rest.as_str()),
        None => "неизвестно".to_owned(),
    }
}

/// What the question says of the scan.
pub open spec fn information_text(scan_report: Seq<char>) -> Seq<char> {
    "Найдено: "@ + reported_in(lines(scan_report), "Known direct total"@)
        + ". Копии iPhone/iPad: "@ + reported_in(lines(scan_report), "MobileSync backups"@)
        + " (0 Б может означать отсутствие доступа).\nПроверь пути ниже и отметь категории. Изменившиеся после скана каталоги будут пропущены."@
}

/// The scan report with a note on the actions that are taken only on demand.
pub open spec fn annotated(scan_report: Seq<char>) -> Seq<char> {
    scan_report
        + "\nДОПОЛНИТЕЛЬНЫЕ ДЕЙСТВИЯ — ТОЛЬКО ЕСЛИ ОТМЕЧЕНЫ\n• Копии iPhone/iPad: содержимое ~/Library/Application Support/MobileSync/Backup (если доступно).\n• Homebrew: команды, включённые в настройках. Предпросмотр Homebrew выше может измениться.\n• Docker: включённые в настройках виды очистки (volumes сохраняются).\n• Xcode: delete unavailable simulators, если включено в настройках.\n"@
}

/// The question asked after a scan.
#[derive(Debug, Clone)]
pub struct Confirmation {
    pub message: String,
    pub information: String,
    pub report: String,
    pub page: Page,
    pub scrolled: u128,
    pub boxes: Vec<ChoiceBox>,
    pub cancel: String,
    pub confirm: String,
}

/// The height of the part of the report that is seen at once, in tenths of a point.
pub const REPORT_HEIGHT: u64 = 1400;

impl Confirmation {
    /// Whether this is the question for `scan_report`. The report is scrolled to its start,
    /// which is the upper end of its page.
    pub open spec fn asks_about(self, scan_report: Seq<char>) -> bool {
        &&& self.message@ == "Сканирование завершено. Очистить найденное?"@
        &&& self.information@ == information_text(scan_report)
        &&& self.report@ == annotated(scan_report)
        &&& self.page.holds(annotated(scan_report), REPORT_HEIGHT as int)
        &&& self.scrolled == self.page.height - REPORT_HEIGHT
        &&& self.boxes.len() == all_choices().len()
        &&& forall|i: int| 0 <= i < self.boxes.len() ==> (#[trigger] self.boxes[i]).stands_at(i)
        &&& self.cancel@ == "Отмена"@
        &&& self.confirm@ == "Очистить"@
    }
}

/// Prepares the question for a scan report.
pub fn confirm_cleanup(scan_report: &str) -> (question: Confirmation)
    ensures
        question.asks_about(scan_report@),
{
    let list = lines_of(scan_report);
    let total = read_reported(&list, "Known direct total");
    let backups = read_reported(&list, "MobileSync backups");
    let mut information = "Найдено: ".to_owned();
    information.append(total.as_str());
    information.append(". Копии iPhone/iPad: ");
    information.append(backups.as_str());
    information.append(
        " (0 Б может означать отсутствие доступа).\nПроверь пути ниже и отметь категории. Изменившиеся после скана каталоги будут пропущены.",
    );
    let mut report = scan_report.to_owned();
    report.append(
        "\nДОПОЛНИТЕЛЬНЫЕ ДЕЙСТВИЯ — ТОЛЬКО ЕСЛИ ОТМЕЧЕНЫ\n• Копии iPhone/iPad: содержимое ~/Library/Application Support/MobileSync/Backup (если доступно).\n• Homebrew: команды, включённые в настройках. Предпросмотр Homebrew выше может измениться.\n• Docker: включённые в настройках виды очистки (volumes сохраняются).\n• Xcode: delete unavailable simulators, если включено в настройках.\n",
    );
    let page = page_for(report.as_str(), REPORT_HEIGHT);
    let scrolled: u128 = page.height - REPORT_HEIGHT as u128;
    Confirmation {
        message: "Сканирование завершено. Очистить найденное?".to_owned(),
        information,
        report,
        page,
        scrolled,
        boxes: choice_boxes(),
        cancel: "Отмена".to_owned(),
        confirm: "Очистить".to_owned(),
    }
}

/// What is to be cleaned: groups, and four things more that have an option of their own.
#[derive(Debug, Clone, PartialEq, Eq)]
pub struct CleanupSelection {
    pub groups: Vec<Choice>,
    pub backups: bool,
    pub homebrew: bool,
    pub docker: bool,
    pub xcode: bool,
}

/// Whether the box of `choice` was left marked.
pub open spec fn is_marked(states: Seq<(Choice, bool)>, choice: Choice) -> bool {
    states.contains((choice, true))
}

/// The choices that were left marked.
pub open spec fn marked_in(states: Seq<(Choice, bool)>) -> spec_fn(Choice) -> bool {
    |choice: Choice| is_marked(states, choice)
}

/// Whether anything was left marked.
pub open spec fn anything_marked(states: Seq<(Choice, bool)>) -> bool {
    exists|choice: Choice| is_marked(states, choice)
}

impl CleanupSelection {
    /// Whether this selection holds what was left marked and nothing else.
    pub open spec fn is_of(self, states: Seq<(Choice, bool)>) -> bool {
        &&& self.groups@ == group_choices().filter(marked_in(states))
        &&& self.backups == is_marked(states, Choice::Backups)
        &&& self.homebrew == is_marked(states, Choice::Homebrew)
        &&& self.docker == is_marked(states, Choice::Docker)
        &&& self.xcode == is_marked(states, Choice::Xcode)
    }
}

/// What the question returns for its second button, the one that confirms.
pub const CONFIRMED: isize = 1001;

/// Decides `is_marked`.
fn find_marked(states: &Vec<(Choice, bool)>, choice: Choice) -> (marked: bool)
    ensures
        marked == is_marked(states@, choice),
{
    let mut at: usize = 0;
    while at < states.len()
        invariant
            at <= states.len(),
            forall|i: int| 0 <= i < at ==> states@[i] != (choice, true),
        decreases states.len() - at,
    {
        if states[at].0 == choice && states[at].1 {
            assert(states@[at as int] == (choice, true));
            return true;
        }
        at = at + 1;
    }
    false
}

proof fn lemma_anything_marked(states: Seq<(Choice, bool)>)
    ensures
        anything_marked(states) <==> exists|i: int|
            0 <= i < states.len() && (#[trigger] states[i]).1,
{
    if anything_marked(states) {
        let choice = choose|choice: Choice| is_marked(states, choice);
        let at = states.index_of((choice, true));
        assert(states[at].1);
    }
    if exists|i: int| 0 <= i < states.len() && (#[trigger] states[i]).1 {
        let at = choose|i: int| 0 <= i < states.len() && (#[trigger] states[i]).1;
        assert(states[at] == (states[at].0, true));
        assert(is_marked(states, states[at].0));
    }
}

/// Turns the answer to the question into a selection. There is none where the question was
/// not confirmed or nothing was left marked.
pub fn selection_from(response: isize, states: &Vec<(Choice, bool)>) -> (selection: Option<
    CleanupSelection,
>)
    ensures
        selection is Some <==> response == CONFIRMED && anything_marked(states@),
        selection matches Some(selection) ==> selection.is_of(states@),
        selection is Some <==> response == 1001 && exists|i: int|
            0 <= i < states@.len() && (#[trigger] states@[i]).1,
{
    proof {
        lemma_anything_marked(states@);
    }
    if response != CONFIRMED {
        return None;
    }
    let candidates = vec![
        Choice::Trash,
        Choice::Caches,
        Choice::Logs,
        Choice::Development,
        Choice::Custom,
    ];
    assert(candidates@ =~= group_choices());
    let mut groups: Vec<Choice> = Vec::new();
    let ghost marked = marked_in(states@);
    let mut at: usize = 0;
    proof {
        reveal(Seq::filter);
    }
    while at < candidates.len()
        invariant
            at <= candidates.len(),
            marked == marked_in(states@),
            groups@ == candidates@.take(at as int).filter(marked),
            groups.len() == 0 <==> forall|i: int|
                0 <= i < at ==> !is_marked(states@, #[trigger] candidates@[i]),
        decreases candidates.len() - at,
    {
        proof {
            reveal(Seq::filter);
            assert(candidates@.take(at + 1).drop_last() =~= candidates@.take(at as int));
        }
        if find_marked(states, candidates[at]) {
            groups.push(candidates[at]);
        }
        at = at + 1;
    }
    assert(candidates@.take(at as int) =~= candidates@);
    let selection = CleanupSelection {
        groups,
        backups: find_marked(states, Choice::Backups),
        homebrew: find_marked(states, Choice::Homebrew),
        docker: find_marked(states, Choice::Docker),
        xcode: find_marked(states, Choice::Xcode),
    };
    if selection.groups.len() == 0 && !selection.backups && !selection.homebrew
        && !selection.docker && !selection.xcode {
        assert forall|choice: Choice| !is_marked(states@, choice) by {
            assert(!is_marked(states@, candidates@[0]));
            assert(!is_marked(states@, candidates@[1]));
            assert(!is_marked(states@, candidates@[2]));
            assert(!is_marked(states@, candidates@[3]));
            assert(!is_marked(states@, candidates@[4]));
        }
        return None;
    }
    Some(selection)
}

/// The words of a list of choices.
pub open spec fn words(choices: Seq<Choice>) -> Seq<Seq<char>> {
    choices.map_values(|choice: Choice| choice.word())
}

/// One argument, or none.
pub open spec fn option(wanted: bool, argument: Seq<char>) -> Seq<Seq<char>> {
    if wanted {
        seq![argument]
    } else {
        seq![]
    }
}

/// What the cleaner is told about the groups: their words with commas between them.
pub open spec fn group_options(groups: Seq<Choice>) -> Seq<Seq<char>> {
    if groups.len() > 0 {
        seq!["--selected"@, joined_by(words(groups), ","@)]
    } else {
        seq![]
    }
}

/// The options for a selection.
pub open spec fn selection_options(selection: CleanupSelection) -> Seq<Seq<char>> {
    group_options(selection.groups@) + option(selection.backups, "--include-backups"@) + option(
        selection.homebrew,
        "--include-homebrew"@,
    ) + option(selection.docker, "--include-docker"@) + option(
        selection.xcode,
        "--include-xcode"@,
    )
}

/// The command line of the cleaner for a plan and a selection.
pub open spec fn clean_line(plan: Seq<u8>, selection: CleanupSelection) -> Seq<Seq<u8>> {
    encoded(seq!["clean"@, "--max"@, "--yes"@, "--plan-in"@]).push(plan) + encoded(
        selection_options(selection),
    )
}

/// Writes the command line of the cleaner.
pub fn clean_arguments(plan: &[u8], selection: &CleanupSelection) -> (arguments: Vec<Vec<u8>>)
    ensures
        raw(arguments@) == clean_line(plan@, *selection),
{
    let mut arguments: Vec<Vec<u8>> = Vec::new();
    add_argument(&mut arguments, "clean");
    add_argument(&mut arguments, "--max");
    add_argument(&mut arguments, "--yes");
    add_argument(&mut arguments, "--plan-in");
    add_path(&mut arguments, plan);
    let ghost head = raw(arguments@);
    assert(head =~= encoded(seq!["clean"@, "--max"@, "--yes"@, "--plan-in"@]).push(plan@));
    if selection.groups.len() > 0 {
        let mut keys: Vec<String> = Vec::new();
        let mut at: usize = 0;
        while at < selection.groups.len()
            invariant
                at <= selection.groups.len(),
                texts(keys@) == words(selection.groups@.take(at as int)),
            decreases selection.groups.len() - at,
        {
            let key = selection.groups[at].key();
            assert(texts(keys@.push(key)) =~= texts(keys@).push(key@));
            assert(words(selection.groups@.take(at + 1)) =~= words(
                selection.groups@.take(at as int),
            ).push(key@));
            keys.push(key);
            at = at + 1;
        }
        assert(selection.groups@.take(at as int) =~= selection.groups@);
        let list = join_by(&keys, ",");
        add_argument(&mut arguments, "--selected");
        add_argument(&mut arguments, list.as_str());
    }
    assert(raw(arguments@) =~= head + encoded(group_options(selection.groups@)));
    if selection.backups {
        add_argument(&mut arguments, "--include-backups");
    }
    if selection.homebrew {
        add_argument(&mut arguments, "--include-homebrew");
    }
    if selection.docker {
        add_argument(&mut arguments, "--include-docker");
    }
    if selection.xcode {
        add_argument(&mut arguments, "--include-xcode");
    }
    assert(raw(arguments@) =~= clean_line(plan@, *selection));
    arguments
}

/// A group is selected exactly where its box was left marked.
pub proof fn marked_groups_are_selected(
    selection: CleanupSelection,
    states: Seq<(Choice, bool)>,
    choice: Choice,
)
    requires
        selection.is_of(states),
        group_choices().contains(choice),
    ensures
        selection.groups@.contains(choice) <==> is_marked(states, choice),
{
    let marked = marked_in(states);
    broadcast use vstd::seq_lib::group_filter_ensures;

    let at = choose|at: int| 0 <= at < group_choices().len() && group_choices()[at] == choice;
    assert(marked(choice) == is_marked(states, choice));
    if is_marked(states, choice) {
        assert(marked(group_choices()[at]));
    }
    if selection.groups@.contains(choice) {
        let place = choose|place: int|
            0 <= place < selection.groups@.len() && selection.groups@[place] == choice;
        assert(marked(group_choices().filter(marked)[place]));
    }
}

/// What is joined starts as its first part does.
proof fn joined_starts_as_first(list: Seq<Seq<char>>, between: Seq<char>)
    requires
        list.len() > 0,
        list[0].len() > 0,
    ensures
        joined_by(list, between).len() > 0,
        joined_by(list, between)[0] == list[0][0],
    decreases list.len(),
{
    if list.len() > 1 {
        joined_starts_as_first(list.drop_last(), between);
    }
}

proof fn word_is_no_option(choice: Choice)
    ensures
        choice.word().len() > 0,
        choice.word()[0] != '-',
{
    reveal_strlit("trash");
    reveal_strlit("caches");
    reveal_strlit("logs");
    reveal_strlit("development");
    reveal_strlit("backups");
    reveal_strlit("homebrew");
    reveal_strlit("docker");
    reveal_strlit("xcode");
    reveal_strlit("custom");
}

/// Each option stands on the command line exactly where what it stands for is selected.
pub proof fn options_name_the_selection(selection: CleanupSelection)
    ensures
        selection_options(selection).contains("--selected"@) <==> selection.groups.len() > 0,
        selection_options(selection).contains("--include-backups"@) <==> selection.backups,
        selection_options(selection).contains("--include-homebrew"@) <==> selection.homebrew,
        selection_options(selection).contains("--include-docker"@) <==> selection.docker,
        selection_options(selection).contains("--include-xcode"@) <==> selection.xcode,
{
    let options = selection_options(selection);
    let groups = group_options(selection.groups@);
    let backups = option(selection.backups, "--include-backups"@);
    let homebrew = option(selection.homebrew, "--include-homebrew"@);
    let docker = option(selection.docker, "--include-docker"@);
    let xcode = option(selection.xcode, "--include-xcode"@);
    reveal_strlit("--selected");
    reveal_strlit("--include-backups");
    reveal_strlit("--include-homebrew");
    reveal_strlit("--include-docker");
    reveal_strlit("--include-xcode");
    assert("--include-xcode"@[10] != "--selected"@[9]);
    assert("--include-backups"@[10] == 'b');
    assert("--include-homebrew"@[10] == 'h');
    assert("--include-docker"@[10] == 'd');
    assert("--include-xcode"@[10] == 'x');
    assert("--selected"@.len() == 10);
    if selection.groups.len() > 0 {
        word_is_no_option(selection.groups@[0]);
        assert(words(selection.groups@)[0] == selection.groups@[0].word());
        joined_starts_as_first(words(selection.groups@), ","@);
        assert(groups[1][0] != '-');
        assert(options[0] == groups[0]);
    }
    assert("--selected"@[0] == '-');
    assert("--include-backups"@[0] == '-');
    assert("--include-homebrew"@[0] == '-');
    assert("--include-docker"@[0] == '-');
    assert("--include-xcode"@[0] == '-');
    let second = groups.len() as int;
    let third = second + backups.len();
    let fourth = third + homebrew.len();
    let fifth = fourth + docker.len();
    if selection.backups {
        assert(options[second] == backups[0]);
    }
    if selection.homebrew {
        assert(options[third] == homebrew[0]);
    }
    if selection.docker {
        assert(options[fourth] == docker[0]);
    }
    if selection.xcode {
        assert(options[fifth] == xcode[0]);
    }
    assert forall|i: int| 0 <= i < options.len() implies {
        ||| i < second && #[trigger] options[i] == groups[i]
        ||| selection.backups && i == second && options[i] == "--include-backups"@
        ||| selection.homebrew && i == third && options[i] == "--include-homebrew"@
        ||| selection.docker && i == fourth && options[i] == "--include-docker"@
        ||| selection.xcode && i == fifth && options[i] == "--include-xcode"@
    } by {}
}

} // verus!

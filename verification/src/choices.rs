//! What the question offers, what an answer to it means, and what the cleaner is told.

use crate::lines::{behind, lines, trimmed};
use crate::reading::{joined_lists_split_again, parts};
use crate::selection::{
    all_choices, clean_line, group_choices, group_options, marked_in,
    options_name_the_selection, selection_options, words, Choice, CleanupSelection, Confirmation,
};
use vstd::prelude::*;
use vstd::utf8::{encode_utf8, encode_utf8_decode_utf8};

verus! {

/// What the cleaner calls each choice, letter by letter.
pub proof fn words_are_spelt_so(choice: Choice)
    ensures
        choice is Trash ==> choice.word() == seq!['t', 'r', 'a', 's', 'h'],
        choice is Caches ==> choice.word() == seq!['c', 'a', 'c', 'h', 'e', 's'],
        choice is Logs ==> choice.word() == seq!['l', 'o', 'g', 's'],
        choice is Development ==> choice.word() == seq![
            'd',
            'e',
            'v',
            'e',
            'l',
            'o',
            'p',
            'm',
            'e',
            'n',
            't',
        ],
        choice is Backups ==> choice.word() == seq!['b', 'a', 'c', 'k', 'u', 'p', 's'],
        choice is Homebrew ==> choice.word() == seq!['h', 'o', 'm', 'e', 'b', 'r', 'e', 'w'],
        choice is Docker ==> choice.word() == seq!['d', 'o', 'c', 'k', 'e', 'r'],
        choice is Xcode ==> choice.word() == seq!['x', 'c', 'o', 'd', 'e'],
        choice is Custom ==> choice.word() == seq!['c', 'u', 's', 't', 'o', 'm'],
{
    reveal_strlit("trash");
    reveal_strlit("caches");
    reveal_strlit("logs");
    reveal_strlit("development");
    reveal_strlit("backups");
    reveal_strlit("homebrew");
    reveal_strlit("docker");
    reveal_strlit("xcode");
    reveal_strlit("custom");
}

/// No two choices have the same word, and none has a word with a comma in it.
pub proof fn words_are_told_apart(left: Choice, right: Choice)
    ensures
        left.word() == right.word() ==> left == right,
        !left.word().contains(','),
        left.word().len() > 0,
{
    words_are_spelt_so(left);
    words_are_spelt_so(right);
    let a = left.word();
    let b = right.word();
    if a == b {
        assert(a.len() == b.len());
        assert(a[0] == b[0]);
        assert(a[1] == b[1]);
        assert(a[2] == b[2]);
    }
}

/// No two choices are called the same on screen, and each bears the name that a user knows it
/// by.
pub proof fn names_are_told_apart(left: Choice, right: Choice)
    ensures
        left.name() == right.name() ==> left == right,
        left is Trash <==> left.name() == "Корзина"@,
        left is Caches <==> left.name() == "Кэши приложений"@,
        left is Logs <==> left.name() == "Логи"@,
        left is Development <==> left.name() == "Кэши разработки"@,
        left is Backups <==> left.name() == "Копии iPhone/iPad"@,
        left is Homebrew <==> left.name() == "Homebrew"@,
        left is Docker <==> left.name() == "Docker"@,
        left is Xcode <==> left.name() == "Симуляторы Xcode"@,
        left is Custom <==> left.name() == "Свои каталоги"@,
{
    reveal_strlit("Корзина");
    reveal_strlit("Кэши приложений");
    reveal_strlit("Логи");
    reveal_strlit("Кэши разработки");
    reveal_strlit("Копии iPhone/iPad");
    reveal_strlit("Homebrew");
    reveal_strlit("Docker");
    reveal_strlit("Симуляторы Xcode");
    reveal_strlit("Свои каталоги");
    assert("Корзина"@[2] == 'р');
    assert("Кэши приложений"@[5] == 'п');
    assert("Кэши разработки"@[5] == 'р');
    assert("Кэши приложений"@[2] == 'ш');
    assert("Кэши разработки"@[2] == 'ш');
    assert("Логи"@[2] == 'г');
    assert("Копии iPhone/iPad"@[2] == 'п');
    assert("Homebrew"@[2] == 'm');
    assert("Docker"@[2] == 'c');
    assert("Симуляторы Xcode"@[2] == 'м');
    assert("Свои каталоги"@[2] == 'о');
}

/// Whether a selection holds a choice.
pub open spec fn selects(selection: CleanupSelection, choice: Choice) -> bool {
    match choice {
        Choice::Backups => selection.backups,
        Choice::Homebrew => selection.homebrew,
        Choice::Docker => selection.docker,
        Choice::Xcode => selection.xcode,
        _ => selection.groups@.contains(choice),
    }
}

/// What was left marked is selected and nothing else, each group once and in the order in which the
/// question offers them.
pub proof fn selection_is_what_was_marked(
    selection: CleanupSelection,
    states: Seq<(Choice, bool)>,
    choice: Choice,
)
    requires
        selection.is_of(states),
    ensures
        selects(selection, choice) <==> exists|i: int|
            0 <= i < states.len() && #[trigger] states[i] == (choice, true),
        choice is Backups || choice is Homebrew || choice is Docker || choice is Xcode
            ==> !selection.groups@.contains(choice),
        forall|i: int, j: int|
            0 <= i < j < selection.groups@.len() ==> rank(selection.groups@[i]) < rank(
                selection.groups@[j],
            ),
{
    broadcast use vstd::seq_lib::group_filter_ensures;

    let marked = marked_in(states);
    let all = group_choices();
    let groups = all.filter(marked);
    assert(marked(choice) == states.contains((choice, true)));
    assert(all[0] == Choice::Trash);
    assert(all[1] == Choice::Caches);
    assert(all[2] == Choice::Logs);
    assert(all[3] == Choice::Development);
    assert(all[4] == Choice::Custom);
    if states.contains((choice, true)) {
        let at = states.index_of((choice, true));
        assert(states[at] == (choice, true));
        match choice {
            Choice::Trash => { assert(groups.contains(all[0])); },
            Choice::Caches => { assert(groups.contains(all[1])); },
            Choice::Logs => { assert(groups.contains(all[2])); },
            Choice::Development => { assert(groups.contains(all[3])); },
            Choice::Custom => { assert(groups.contains(all[4])); },
            _ => {},
        }
    }
    if groups.contains(choice) {
        let at = groups.index_of(choice);
        lemma_filter_takes_from(all, marked, at);
    }
    lemma_filter_keeps_order(all, marked);
}

proof fn lemma_filter_takes_from(list: Seq<Choice>, kept: spec_fn(Choice) -> bool, at: int)
    requires
        0 <= at < list.filter(kept).len(),
    ensures
        list.contains(list.filter(kept)[at]),
        kept(list.filter(kept)[at]),
    decreases list.len(),
{
    reveal(Seq::filter);
    if list.len() > 0 {
        let less = list.drop_last();
        let found = list.filter(kept)[at];
        if at < less.filter(kept).len() {
            lemma_filter_takes_from(less, kept, at);
            let place = less.index_of(found);
            assert(list[place] == found);
        } else {
            assert(list[list.len() - 1] == found);
        }
    }
}

/// The place of a group among the groups.
pub open spec fn rank(choice: Choice) -> int {
    match choice {
        Choice::Trash => 0,
        Choice::Caches => 1,
        Choice::Logs => 2,
        Choice::Development => 3,
        _ => 4,
    }
}

proof fn lemma_filter_keeps_order(list: Seq<Choice>, kept: spec_fn(Choice) -> bool)
    requires
        forall|i: int, j: int| 0 <= i < j < list.len() ==> rank(list[i]) < rank(list[j]),
    ensures
        forall|i: int, j: int|
            0 <= i < j < list.filter(kept).len() ==> rank(list.filter(kept)[i]) < rank(
                list.filter(kept)[j],
            ),
    decreases list.len(),
{
    reveal(Seq::filter);
    if list.len() > 0 {
        let less = list.drop_last();
        lemma_filter_keeps_order(less, kept);
        assert forall|i: int| 0 <= i < less.filter(kept).len() implies rank(
            #[trigger] less.filter(kept)[i],
        ) < rank(list.last()) by {
            lemma_filter_takes_from(less, kept, i);
            let at = less.index_of(less.filter(kept)[i]);
            assert(list[at] == less[at]);
        }
    }
}

/// The groups stand behind their option as a list that splits at its commas into exactly the
/// words of the selected groups, in their order. Without a group neither is there.
pub proof fn groups_are_listed(selection: CleanupSelection)
    ensures
        selection.groups@.len() == 0 ==> group_options(selection.groups@).len() == 0,
        selection.groups@.len() > 0 ==> {
            let options = selection_options(selection);
            let list = parts(options[1], ',');
            &&& options.len() >= 2
            &&& options[0] == "--selected"@
            &&& list.len() == selection.groups@.len()
            &&& forall|i: int|
                0 <= i < list.len() ==> #[trigger] list[i] == selection.groups@[i].word()
        },
{
    if selection.groups@.len() > 0 {
        let list = words(selection.groups@);
        assert forall|i: int| 0 <= i < list.len() implies !(#[trigger] list[i]).contains(',') by {
            words_are_told_apart(selection.groups@[i], selection.groups@[i]);
        }
        reveal_strlit(",");
        assert(","@ =~= seq![',']);
        joined_lists_split_again(list, ',');
        let options = selection_options(selection);
        assert(options[0] == group_options(selection.groups@)[0]);
        assert(options[1] == group_options(selection.groups@)[1]);
    }
}

/// Two selections for which the cleaner is told the same are the same.
pub proof fn options_tell_the_selection(left: CleanupSelection, right: CleanupSelection)
    requires
        selection_options(left) == selection_options(right),
    ensures
        left.groups@ == right.groups@,
        left.backups == right.backups,
        left.homebrew == right.homebrew,
        left.docker == right.docker,
        left.xcode == right.xcode,
{
    options_name_the_selection(left);
    options_name_the_selection(right);
    groups_are_listed(left);
    groups_are_listed(right);
    if left.groups@.len() > 0 {
        let list = parts(selection_options(left)[1], ',');
        assert forall|i: int| 0 <= i < left.groups@.len() implies #[trigger] left.groups@[i]
            == right.groups@[i] by {
            assert(list[i] == left.groups@[i].word());
            assert(list[i] == right.groups@[i].word());
            words_are_told_apart(left.groups@[i], right.groups@[i]);
        }
    }
    assert(left.groups@ =~= right.groups@);
}

/// The command line of the cleaner tells it which plan to take and what of it to clean: no two
/// plans and no two selections give the same one. It asks for everything and for no further
/// question, and the plan stands right behind its option.
pub proof fn command_line_tells_plan_and_selection(
    plan: Seq<u8>,
    selection: CleanupSelection,
    other_plan: Seq<u8>,
    other: CleanupSelection,
)
    ensures
        clean_line(plan, selection).len() >= 5,
        clean_line(plan, selection)[0] == encode_utf8("clean"@),
        clean_line(plan, selection)[1] == encode_utf8("--max"@),
        clean_line(plan, selection)[2] == encode_utf8("--yes"@),
        clean_line(plan, selection)[3] == encode_utf8("--plan-in"@),
        clean_line(plan, selection)[4] == plan,
        forall|i: int|
            0 <= i < selection_options(selection).len() ==> clean_line(plan, selection)[i + 5]
                == encode_utf8(#[trigger] selection_options(selection)[i]),
        clean_line(plan, selection).len() == 5 + selection_options(selection).len(),
        clean_line(plan, selection) == clean_line(other_plan, other) ==> plan == other_plan
            && selection.groups@ == other.groups@ && selection.backups == other.backups
            && selection.homebrew == other.homebrew && selection.docker == other.docker
            && selection.xcode == other.xcode,
{
    let line = clean_line(plan, selection);
    let second = clean_line(other_plan, other);
    let left = selection_options(selection);
    let right = selection_options(other);
    assert(line.len() == 5 + left.len());
    assert(second.len() == 5 + right.len());
    assert forall|i: int| 0 <= i < left.len() implies line[i + 5] == encode_utf8(
        #[trigger] left[i],
    ) by {}
    if line == second {
        assert(line[4] == plan);
        assert(second[4] == other_plan);
        assert forall|i: int| 0 <= i < left.len() implies #[trigger] left[i] == right[i] by {
            assert(line[i + 5] == encode_utf8(left[i]));
            assert(second[i + 5] == encode_utf8(right[i]));
            encode_utf8_decode_utf8(left[i]);
            encode_utf8_decode_utf8(right[i]);
        }
        assert(left =~= right);
        options_tell_the_selection(selection, other);
    }
}

/// The question offers each choice once, under its name. The usual ones are marked at first:
/// the caches, the logs and the caches of development, and nothing that cannot be made anew.
/// Two boxes stand in a row, and each row stands below the one before.
pub proof fn question_offers_each_choice(
    question: Confirmation,
    scan_report: Seq<char>,
    choice: Choice,
) -> (at: int)
    requires
        question.asks_about(scan_report),
    ensures
        0 <= at < question.boxes@.len() == 9,
        question.boxes@[at].choice == choice,
        question.boxes@[at].title@ == choice.name(),
        question.boxes@[at].checked <==> choice is Caches || choice is Logs
            || choice is Development,
        forall|i: int|
            0 <= i < question.boxes@.len() && #[trigger] question.boxes@[i].choice == choice ==> i
                == at,
        at % 2 == 0 ==> question.boxes@[at].left == 0,
        at % 2 == 1 ==> question.boxes@[at].left == 370 && question.boxes@[at].bottom
            == question.boxes@[at - 1].bottom,
        at < 2 ==> question.boxes@[at].bottom == 110,
        at >= 2 ==> question.boxes@[at].bottom == question.boxes@[at - 2].bottom - 26,
{
    let all = all_choices();
    let at: int = match choice {
        Choice::Trash => 0,
        Choice::Caches => 1,
        Choice::Logs => 2,
        Choice::Development => 3,
        Choice::Backups => 4,
        Choice::Homebrew => 5,
        Choice::Docker => 6,
        Choice::Xcode => 7,
        Choice::Custom => 8,
    };
    assert forall|i: int| 0 <= i < question.boxes@.len() implies question.boxes@[i].stands_at(
        i,
    ) by {
        assert(question.boxes[i].stands_at(i));
    }
    assert(question.boxes@[at].stands_at(at));
    if at >= 1 {
        assert(question.boxes@[at - 1].stands_at(at - 1));
    }
    if at >= 2 {
        assert(question.boxes@[at - 2].stands_at(at - 2));
    }
    at
}

/// Whether `said` is what the first line that starts with `heading` says behind it, without
/// white space around it, or the word for what is not known where no line does.
pub open spec fn is_said(list: Seq<Seq<char>>, heading: Seq<char>, said: Seq<char>) -> bool {
    ||| exists|at: int|
        0 <= at < list.len() && heading.is_prefix_of(#[trigger] list[at]) && said == trimmed(
            list[at].skip(heading.len() as int),
        ) && forall|i: int| 0 <= i < at ==> !heading.is_prefix_of(#[trigger] list[i])
    ||| said == "неизвестно"@ && forall|i: int|
        0 <= i < list.len() ==> !heading.is_prefix_of(#[trigger] list[i])
}

proof fn lemma_said(list: Seq<Seq<char>>, heading: Seq<char>)
    ensures
        match behind(list, heading) {
            Some(rest) => exists|at: int|
                0 <= at < list.len() && heading.is_prefix_of(#[trigger] list[at]) && rest
                    == list[at].skip(heading.len() as int) && forall|i: int|
                    0 <= i < at ==> !heading.is_prefix_of(#[trigger] list[i]),
            None => forall|i: int|
                0 <= i < list.len() ==> !heading.is_prefix_of(#[trigger] list[i]),
        },
    decreases list.len(),
{
    if list.len() > 0 {
        if heading.is_prefix_of(list[0]) {
        } else {
            let less = list.drop_first();
            lemma_said(less, heading);
            match behind(list, heading) {
                Some(rest) => {
                    let at = choose|at: int|
                        0 <= at < less.len() && heading.is_prefix_of(#[trigger] less[at]) && rest
                            == less[at].skip(heading.len() as int) && forall|i: int|
                            0 <= i < at ==> !heading.is_prefix_of(#[trigger] less[i]);
                    assert(list[at + 1] == less[at]);
                    assert forall|i: int| 0 <= i < at + 1 implies !heading.is_prefix_of(
                        #[trigger] list[i],
                    ) by {
                        if i > 0 {
                            assert(list[i] == less[i - 1]);
                        }
                    }
                },
                None => {
                    assert forall|i: int| 0 <= i < list.len() implies !heading.is_prefix_of(
                        #[trigger] list[i],
                    ) by {
                        if i > 0 {
                            assert(list[i] == less[i - 1]);
                        }
                    }
                },
            }
        }
    }
}

/// The question tells what the scan found: the total and the size of the backups as the report
/// has them, and then the whole report, followed by a note that is the same for every report.
/// The report is scrolled to its start.
pub proof fn question_tells_what_was_found(
    question: Confirmation,
    scan_report: Seq<char>,
) -> (said: (Seq<char>, Seq<char>))
    requires
        question.asks_about(scan_report),
    ensures
        is_said(lines(scan_report), "Known direct total"@, said.0),
        is_said(lines(scan_report), "MobileSync backups"@, said.1),
        question.information@ == "Найдено: "@ + said.0 + ". Копии iPhone/iPad: "@ + said.1
            + " (0 Б может означать отсутствие доступа).\nПроверь пути ниже и отметь категории. Изменившиеся после скана каталоги будут пропущены."@,
        scan_report.is_prefix_of(question.report@),
        question.report@.skip(scan_report.len() as int)
            == "\nДОПОЛНИТЕЛЬНЫЕ ДЕЙСТВИЯ — ТОЛЬКО ЕСЛИ ОТМЕЧЕНЫ\n• Копии iPhone/iPad: содержимое ~/Library/Application Support/MobileSync/Backup (если доступно).\n• Homebrew: команды, включённые в настройках. Предпросмотр Homebrew выше может измениться.\n• Docker: включённые в настройках виды очистки (volumes сохраняются).\n• Xcode: delete unavailable simulators, если включено в настройках.\n"@,
        question.scrolled + 1400 == question.page.height,
        question.page.holds(question.report@, 1400),
        question.message@ == "Сканирование завершено. Очистить найденное?"@,
        question.cancel@ == "Отмена"@,
        question.confirm@ == "Очистить"@,
{
    let list = lines(scan_report);
    lemma_said(list, "Known direct total"@);
    lemma_said(list, "MobileSync backups"@);
    let total = crate::selection::reported_in(list, "Known direct total"@);
    let backups = crate::selection::reported_in(list, "MobileSync backups"@);
    (total, backups)
}

} // verus!

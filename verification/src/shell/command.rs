//! The command language of the simulator's shell.
//!
//! A command line is split into words at whitespace; the first word names
//! the command and the following words are its arguments.

use vstd::prelude::*;

verus! {

/// A shell command.
#[derive(Debug, Clone, PartialEq)]
pub enum Command {
    Fork { ppid: u32 },
    Ps,
    Run { pid: u32 },
    Block { pid: u32 },
    Unblock { pid: u32 },
    Kill { pid: u32 },
    Info { pid: u32 },
    Queues,
    Schedule { cycles: u32 },
    Nice { pid: u32, priority: u8 },
    SchedStats,
    Programs,
    RunProgram { program_name: String },
    Stats,
    Metrics { pid: u32 },
    ResetStats,
    Help,
    Exit,
}

/// A [`Command`] as a mathematical value: the program name is a sequence of
/// characters.
pub enum CommandModel {
    Fork { ppid: u32 },
    Ps,
    Run { pid: u32 },
    Block { pid: u32 },
    Unblock { pid: u32 },
    Kill { pid: u32 },
    Info { pid: u32 },
    Queues,
    Schedule { cycles: u32 },
    Nice { pid: u32, priority: u8 },
    SchedStats,
    Programs,
    RunProgram { program_name: Seq<char> },
    Stats,
    Metrics { pid: u32 },
    ResetStats,
    Help,
    Exit,
}

impl View for Command {
    type V = CommandModel;

    open spec fn view(&self) -> CommandModel {
        match *self {
            Command::Fork { ppid } => CommandModel::Fork { ppid },
            Command::Ps => CommandModel::Ps,
            Command::Run { pid } => CommandModel::Run { pid },
            Command::Block { pid } => CommandModel::Block { pid },
            Command::Unblock { pid } => CommandModel::Unblock { pid },
            Command::Kill { pid } => CommandModel::Kill { pid },
            Command::Info { pid } => CommandModel::Info { pid },
            Command::Queues => CommandModel::Queues,
            Command::Schedule { cycles } => CommandModel::Schedule { cycles },
            Command::Nice { pid, priority } => CommandModel::Nice { pid, priority },
            Command::SchedStats => CommandModel::SchedStats,
            Command::Programs => CommandModel::Programs,
            Command::RunProgram { program_name } => CommandModel::RunProgram {
                program_name: program_name@,
            },
            Command::Stats => CommandModel::Stats,
            Command::Metrics { pid } => CommandModel::Metrics { pid },
            Command::ResetStats => CommandModel::ResetStats,
            Command::Help => CommandModel::Help,
            Command::Exit => CommandModel::Exit,
        }
    }
}

/// The characters with the Unicode property `White_Space`.
pub open spec fn is_whitespace(c: char) -> bool {
    let n = c as u32;
    ||| 0x09 <= n <= 0x0D
    ||| n == 0x20
    ||| n == 0x85
    ||| n == 0xA0
    ||| n == 0x1680
    ||| 0x2000 <= n <= 0x200A
    ||| n == 0x2028
    ||| n == 0x2029
    ||| n == 0x202F
    ||| n == 0x205F
    ||| n == 0x3000
}

/// The words of a line: its longest runs of characters that are not
/// whitespace, first to last. Reading the line one character at a time, a
/// whitespace character adds nothing, a character that follows another
/// character of a word extends the last word, and any other character
/// starts a new word.
pub open spec fn words(line: Seq<char>) -> Seq<Seq<char>>
    decreases line.len(),
{
    if line.len() == 0 {
        Seq::empty()
    } else {
        let before = words(line.drop_last());
        let c = line.last();
        if is_whitespace(c) {
            before
        } else if line.len() >= 2 && !is_whitespace(line[line.len() - 2]) {
            before.drop_last().push(before.last().push(c))
        } else {
            before.push(seq![c])
        }
    }
}

/// No character is whitespace.
pub open spec fn no_whitespace(text: Seq<char>) -> bool {
    forall|i: int| 0 <= i < text.len() ==> !is_whitespace(#[trigger] text[i])
}

/// Every character is whitespace.
pub open spec fn all_whitespace(text: Seq<char>) -> bool {
    forall|i: int| 0 <= i < text.len() ==> is_whitespace(#[trigger] text[i])
}

/// A line of whitespace has no words.
pub proof fn lemma_words_of_whitespace(line: Seq<char>)
    requires
        all_whitespace(line),
    ensures
        words(line) == Seq::<Seq<char>>::empty(),
    decreases line.len(),
{
    if line.len() > 0 {
        lemma_words_of_whitespace(line.drop_last());
    }
}

/// A line that is one word has that word and no other.
pub proof fn lemma_words_of_one_word(word: Seq<char>)
    requires
        word.len() > 0,
        no_whitespace(word),
    ensures
        words(word) == seq![word],
    decreases word.len(),
{
    let rest = word.drop_last();
    if word.len() == 1 {
        assert(words(rest) == Seq::<Seq<char>>::empty());
        assert(seq![word.last()] == word);
    } else {
        lemma_words_of_one_word(rest);
        assert(seq![rest].drop_last().push(seq![rest].last().push(word.last())) == seq![word]) by {
            assert(rest.push(word.last()) == word);
        }
    }
}

/// A line that ends in a character of a word has a last word.
pub proof fn lemma_words_last(line: Seq<char>)
    requires
        line.len() > 0,
        !is_whitespace(line.last()),
    ensures
        words(line).len() > 0,
        words(line).last().len() > 0,
        words(line).last().last() == line.last(),
    decreases line.len(),
{
    if line.len() >= 2 && !is_whitespace(line[line.len() - 2]) {
        lemma_words_last(line.drop_last());
    }
}

/// Every word is not empty and holds no whitespace.
pub proof fn lemma_words_are_words(line: Seq<char>, k: int)
    requires
        0 <= k < words(line).len(),
    ensures
        words(line)[k].len() > 0,
        no_whitespace(words(line)[k]),
    decreases line.len(),
{
    if line.len() > 0 {
        let before = words(line.drop_last());
        let c = line.last();
        if is_whitespace(c) {
            lemma_words_are_words(line.drop_last(), k);
        } else if line.len() >= 2 && !is_whitespace(line[line.len() - 2]) {
            if k < before.len() - 1 {
                lemma_words_are_words(line.drop_last(), k);
            } else {
                lemma_words_are_words(line.drop_last(), before.len() - 1);
            }
        } else {
            if k < before.len() {
                lemma_words_are_words(line.drop_last(), k);
            }
        }
    }
}

/// Where a line is cut at whitespace, its words are the words of the first
/// part followed by the words of the second: the first part is empty or
/// ends in whitespace, or the second part begins with whitespace.
pub proof fn lemma_words_of_parts(first: Seq<char>, second: Seq<char>)
    requires
        first.len() == 0 || is_whitespace(first.last()) || (second.len() > 0 && is_whitespace(
            second[0],
        )),
    ensures
        words(first + second) == words(first) + words(second),
    decreases second.len(),
{
    let line = first + second;
    if second.len() > 0 {
        let rest = second.drop_last();
        let c = second.last();
        assert(line.drop_last() == first + rest);
        if rest.len() > 0 {
            lemma_words_of_parts(first, rest);
            if !is_whitespace(c) && !is_whitespace(rest.last()) {
                lemma_words_last(rest);
            }
        }
    }
}

/// A decimal digit, `0` to `9`.
pub open spec fn is_digit(c: char) -> bool {
    0x30 <= c as u32 <= 0x39
}

/// The value of a decimal digit, and zero for any other character.
pub open spec fn digit_value(c: char) -> nat {
    if is_digit(c) {
        (c as u32 - 0x30) as nat
    } else {
        0
    }
}

/// The number that a sequence of decimal digits writes.
pub open spec fn decimal(digits: Seq<char>) -> nat
    decreases digits.len(),
{
    if digits.len() == 0 {
        0
    } else {
        10 * decimal(digits.drop_last()) + digit_value(digits.last())
    }
}

/// Every character is a decimal digit.
pub open spec fn all_digits(text: Seq<char>) -> bool {
    forall|i: int| 0 <= i < text.len() ==> is_digit(#[trigger] text[i])
}

/// The word without the `+` that may stand in front of it.
pub open spec fn unsigned_part(word: Seq<char>) -> Seq<char> {
    if word.len() > 0 && word[0] == '+' {
        word.drop_first()
    } else {
        word
    }
}

/// The number that a word writes, if it writes one that is at most `max`:
/// one or more decimal digits, with at most one `+` in front.
pub open spec fn number(word: Seq<char>, max: nat) -> Option<nat> {
    let digits = unsigned_part(word);
    if digits.len() > 0 && all_digits(digits) && decimal(digits) <= max {
        Some(decimal(digits))
    } else {
        None
    }
}

/// The argument number `position` of a command line as a number of at most
/// `max`, if there is such a word and it writes such a number.
pub open spec fn argument(words: Seq<Seq<char>>, position: int, max: nat) -> Option<nat> {
    if position < words.len() {
        number(words[position], max)
    } else {
        None
    }
}

/// The command that the words of a line make up, if they make up one.
pub open spec fn command_of(words: Seq<Seq<char>>) -> Option<CommandModel> {
    if words.len() == 0 {
        None
    } else if words[0] == "fork"@ {
        if words.len() >= 2 {
            match number(words[1], u32::MAX as nat) {
                Some(ppid) => Some(CommandModel::Fork { ppid: ppid as u32 }),
                None => None,
            }
        } else {
            Some(CommandModel::Fork { ppid: 1 })
        }
    } else if words[0] == "ps"@ {
        Some(CommandModel::Ps)
    } else if words[0] == "run"@ {
        match argument(words, 1, u32::MAX as nat) {
            Some(pid) => Some(CommandModel::Run { pid: pid as u32 }),
            None => None,
        }
    } else if words[0] == "block"@ {
        match argument(words, 1, u32::MAX as nat) {
            Some(pid) => Some(CommandModel::Block { pid: pid as u32 }),
            None => None,
        }
    } else if words[0] == "unblock"@ {
        match argument(words, 1, u32::MAX as nat) {
            Some(pid) => Some(CommandModel::Unblock { pid: pid as u32 }),
            None => None,
        }
    } else if words[0] == "kill"@ {
        match argument(words, 1, u32::MAX as nat) {
            Some(pid) => Some(CommandModel::Kill { pid: pid as u32 }),
            None => None,
        }
    } else if words[0] == "info"@ {
        match argument(words, 1, u32::MAX as nat) {
            Some(pid) => Some(CommandModel::Info { pid: pid as u32 }),
            None => None,
        }
    } else if words[0] == "queues"@ {
        Some(CommandModel::Queues)
    } else if words[0] == "schedule"@ {
        match argument(words, 1, u32::MAX as nat) {
            Some(cycles) => Some(CommandModel::Schedule { cycles: cycles as u32 }),
            None => None,
        }
    } else if words[0] == "nice"@ {
        match (argument(words, 1, u32::MAX as nat), argument(words, 2, u8::MAX as nat)) {
            (Some(pid), Some(priority)) => Some(
                CommandModel::Nice { pid: pid as u32, priority: priority as u8 },
            ),
            _ => None,
        }
    } else if words[0] == "sched_stats"@ {
        Some(CommandModel::SchedStats)
    } else if words[0] == "programs"@ {
        Some(CommandModel::Programs)
    } else if words[0] == "run_program"@ {
        if words.len() >= 2 {
            Some(CommandModel::RunProgram { program_name: words[1] })
        } else {
            None
        }
    } else if words[0] == "stats"@ {
        Some(CommandModel::Stats)
    } else if words[0] == "metrics"@ {
        match argument(words, 1, u32::MAX as nat) {
            Some(pid) => Some(CommandModel::Metrics { pid: pid as u32 }),
            None => None,
        }
    } else if words[0] == "reset_stats"@ {
        Some(CommandModel::ResetStats)
    } else if words[0] == "help"@ {
        Some(CommandModel::Help)
    } else if words[0] == "exit"@ || words[0] == "quit"@ {
        Some(CommandModel::Exit)
    } else {
        None
    }
}

/// The view of an optional command.
pub open spec fn model_of(command: Option<Command>) -> Option<CommandModel> {
    match command {
        Some(command) => Some(command@),
        None => None,
    }
}

/// Whether `c` has the Unicode property `White_Space`.
fn is_space(c: char) -> (space: bool)
    ensures
        space == is_whitespace(c),
{
    let n: u32 = c as u32;
    (0x09 <= n && n <= 0x0D) || n == 0x20 || n == 0x85 || n == 0xA0 || n == 0x1680 || (0x2000 <= n
        && n <= 0x200A) || n == 0x2028 || n == 0x2029 || n == 0x202F || n == 0x205F || n == 0x3000
}

/// The characters of a string.
fn chars_of(text: &str) -> (chars: Vec<char>)
    ensures
        chars@ == text@,
{
    let mut chars: Vec<char> = Vec::new();
    for c in it: text.chars()
        invariant
            it.seq() == text@,
            chars@ == text@.take(it.index() as int),
    {
        chars.push(c);
    }
    chars
}

/// Each range cuts one word out of the line: `ranges` and `found` have the
/// same length, and range `k` is not empty, lies within the first `upto`
/// characters and holds word `k`.
spec fn spans(
    line: Seq<char>,
    upto: int,
    ranges: Seq<(usize, usize)>,
    found: Seq<Seq<char>>,
) -> bool {
    &&& ranges.len() == found.len()
    &&& forall|k: int|
        0 <= k < ranges.len() ==> (#[trigger] ranges[k]).0 < ranges[k].1 <= upto && line.subrange(
            ranges[k].0 as int,
            ranges[k].1 as int,
        ) == found[k]
}

/// Finds the words of a line: the range of positions that each one takes.
fn split_words(chars: &Vec<char>) -> (ranges: Vec<(usize, usize)>)
    ensures
        spans(chars@, chars@.len() as int, ranges@, words(chars@)),
{
    let mut ranges: Vec<(usize, usize)> = Vec::new();
    let mut i: usize = 0;
    while i < chars.len()
        invariant
            i <= chars@.len(),
            spans(chars@, i as int, ranges@, words(chars@.take(i as int))),
            i > 0 && !is_whitespace(chars@[i - 1]) ==> ranges@.len() > 0 && ranges@.last().1 == i,
        decreases chars@.len() - i,
    {
        let ghost line = chars@.take(i as int + 1);
        let ghost before = words(chars@.take(i as int));
        proof {
            assert(line.drop_last() == chars@.take(i as int));
        }
        let c = chars[i];
        if !is_space(c) {
            if i > 0 && !is_space(chars[i - 1]) {
                let last = ranges.len() - 1;
                let start = ranges[last].0;
                ranges.set(last, (start, i + 1));
                proof {
                    let after = before.drop_last().push(before.last().push(c));
                    assert forall|k: int| 0 <= k < ranges@.len() implies (#[trigger] ranges@[k]).0
                        < ranges@[k].1 <= i + 1 && chars@.subrange(
                        ranges@[k].0 as int,
                        ranges@[k].1 as int,
                    ) == after[k] by {}
                }
            } else {
                ranges.push((i, i + 1));
                proof {
                    let after = before.push(seq![c]);
                    assert forall|k: int| 0 <= k < ranges@.len() implies (#[trigger] ranges@[k]).0
                        < ranges@[k].1 <= i + 1 && chars@.subrange(
                        ranges@[k].0 as int,
                        ranges@[k].1 as int,
                    ) == after[k] by {}
                }
            }
        }
        i += 1;
    }
    proof {
        assert(chars@.take(i as int) == chars@);
    }
    ranges
}

/// A longer sequence of digits never writes a smaller number than its
/// first `k` digits.
proof fn lemma_decimal_grows(digits: Seq<char>, k: int)
    requires
        0 <= k <= digits.len(),
    ensures
        decimal(digits.take(k)) <= decimal(digits),
    decreases digits.len() - k,
{
    if k < digits.len() {
        lemma_decimal_grows(digits, k + 1);
        assert(digits.take(k + 1).drop_last() == digits.take(k));
    } else {
        assert(digits.take(k) == digits);
    }
}

/// Reads the word at `start..end` as a number of at most `max`.
fn read_number(chars: &Vec<char>, start: usize, end: usize, max: u32) -> (value: Option<u32>)
    requires
        start <= end <= chars@.len(),
    ensures
        match value {
            Some(n) => number(chars@.subrange(start as int, end as int), max as nat) == Some(
                n as nat,
            ),
            None => number(chars@.subrange(start as int, end as int), max as nat) is None,
        },
{
    let ghost word = chars@.subrange(start as int, end as int);
    let first = if start < end && chars[start] == '+' {
        start + 1
    } else {
        start
    };
    let ghost digits = unsigned_part(word);
    if first == end {
        return None;
    }
    let mut total: u64 = 0;
    let mut i: usize = first;
    while i < end
        invariant
            start <= first <= i <= end <= chars@.len(),
            first < end,
            word == chars@.subrange(start as int, end as int),
            digits == chars@.subrange(first as int, end as int),
            digits == unsigned_part(word),
            total == decimal(digits.take(i - first)),
            total <= max,
            forall|k: int| 0 <= k < i - first ==> is_digit(#[trigger] digits[k]),
        decreases end - i,
    {
        let digit: char = chars[i];
        let c: u32 = digit as u32;
        proof {
            assert(digits[i - first] == digit);
            assert(digits.take(i - first + 1).drop_last() == digits.take(i - first));
        }
        if c < 0x30 || c > 0x39 {
            return None;
        }
        total = total * 10 + (c - 0x30) as u64;
        if total > max as u64 {
            proof {
                lemma_decimal_grows(digits, i - first + 1);
            }
            return None;
        }
        i += 1;
    }
    proof {
        assert(digits.take(i - first) == digits);
    }
    Some(total as u32)
}

/// Whether the word at `start..end` is `literal`.
fn word_is(chars: &Vec<char>, start: usize, end: usize, literal: &str) -> (same: bool)
    requires
        start <= end <= chars@.len(),
    ensures
        same == (chars@.subrange(start as int, end as int) == literal@),
{
    let ghost word = chars@.subrange(start as int, end as int);
    let wanted = chars_of(literal);
    if wanted.len() != end - start {
        return false;
    }
    let mut i: usize = 0;
    while i < wanted.len()
        invariant
            i <= wanted@.len(),
            wanted@.len() == end - start,
            wanted@ == literal@,
            start <= end <= chars@.len(),
            word == chars@.subrange(start as int, end as int),
            forall|k: int| 0 <= k < i ==> word[k] == wanted@[k],
        decreases wanted@.len() - i,
    {
        if chars[start + i] != wanted[i] {
            return false;
        }
        i += 1;
    }
    assert(word =~= wanted@);
    true
}

/// Reads word number `position` as a number of at most `max`.
fn read_argument(
    chars: &Vec<char>,
    ranges: &Vec<(usize, usize)>,
    position: usize,
    max: u32,
) -> (value: Option<u32>)
    requires
        spans(chars@, chars@.len() as int, ranges@, words(chars@)),
    ensures
        match value {
            Some(n) => argument(words(chars@), position as int, max as nat) == Some(n as nat),
            None => argument(words(chars@), position as int, max as nat) is None,
        },
{
    if position < ranges.len() {
        let (start, end) = ranges[position];
        read_number(chars, start, end, max)
    } else {
        None
    }
}

/// Parses one line of input. The line is split into words at whitespace;
/// the first word selects the command and the words after it are its
/// arguments. Numbers are written in decimal digits, with at most one `+`
/// in front, and must fit the field. Words beyond those that a command
/// takes are ignored. `None` is returned for an empty line, an unknown
/// command word, a missing argument and an argument that is no such number.
pub fn parse_command(input: &str) -> (command: Option<Command>)
    ensures
        model_of(command) == command_of(words(input@)),
{
    let chars = chars_of(input);
    let ranges = split_words(&chars);
    if ranges.len() == 0 {
        return None;
    }
    let (start, end) = ranges[0];
    if word_is(&chars, start, end, "fork") {
        if ranges.len() >= 2 {
            match read_argument(&chars, &ranges, 1, u32::MAX) {
                Some(ppid) => Some(Command::Fork { ppid }),
                None => None,
            }
        } else {
            Some(Command::Fork { ppid: 1 })
        }
    } else if word_is(&chars, start, end, "ps") {
        Some(Command::Ps)
    } else if word_is(&chars, start, end, "run") {
        match read_argument(&chars, &ranges, 1, u32::MAX) {
            Some(pid) => Some(Command::Run { pid }),
            None => None,
        }
    } else if word_is(&chars, start, end, "block") {
        match read_argument(&chars, &ranges, 1, u32::MAX) {
            Some(pid) => Some(Command::Block { pid }),
            None => None,
        }
    } else if word_is(&chars, start, end, "unblock") {
        match read_argument(&chars, &ranges, 1, u32::MAX) {
            Some(pid) => Some(Command::Unblock { pid }),
            None => None,
        }
    } else if word_is(&chars, start, end, "kill") {
        match read_argument(&chars, &ranges, 1, u32::MAX) {
            Some(pid) => Some(Command::Kill { pid }),
            None => None,
        }
    } else if word_is(&chars, start, end, "info") {
        match read_argument(&chars, &ranges, 1, u32::MAX) {
            Some(pid) => Some(Command::Info { pid }),
            None => None,
        }
    } else if word_is(&chars, start, end, "queues") {
        Some(Command::Queues)
    } else if word_is(&chars, start, end, "schedule") {
        match read_argument(&chars, &ranges, 1, u32::MAX) {
            Some(cycles) => Some(Command::Schedule { cycles }),
            None => None,
        }
    } else if word_is(&chars, start, end, "nice") {
        match read_argument(&chars, &ranges, 1, u32::MAX) {
            Some(pid) => match read_argument(&chars, &ranges, 2, 255) {
                Some(priority) => Some(Command::Nice { pid, priority: priority as u8 }),
                None => None,
            },
            None => None,
        }
    } else if word_is(&chars, start, end, "sched_stats") {
        Some(Command::SchedStats)
    } else if word_is(&chars, start, end, "programs") {
        Some(Command::Programs)
    } else if word_is(&chars, start, end, "run_program") {
        if ranges.len() >= 2 {
            let (from, to) = ranges[1];
            let name = input.substring_char(from, to);
            Some(Command::RunProgram { program_name: name.to_string() })
        } else {
            None
        }
    } else if word_is(&chars, start, end, "stats") {
        Some(Command::Stats)
    } else if word_is(&chars, start, end, "metrics") {
        match read_argument(&chars, &ranges, 1, u32::MAX) {
            Some(pid) => Some(Command::Metrics { pid }),
            None => None,
        }
    } else if word_is(&chars, start, end, "reset_stats") {
        Some(Command::ResetStats)
    } else if word_is(&chars, start, end, "help") {
        Some(Command::Help)
    } else if word_is(&chars, start, end, "exit") || word_is(&chars, start, end, "quit") {
        Some(Command::Exit)
    } else {
        None
    }
}

} // verus!

//! The console grammar: one line of text in, at most one command out.
//!
//! Keywords are read in any ASCII case and end with one space. A line that
//! fits no rule is dropped without a word.

use vstd::prelude::*;
use crate::command::Command;
use crate::command::CommandView;
use crate::text::after_keyword;
use crate::text::chars_of;
use crate::text::decimal_spec;
use crate::text::eq_ignore_ascii_case;
use crate::text::eq_ignore_ascii_case_spec;
use crate::text::has_keyword;
use crate::text::is_whitespace_spec;
use crate::text::is_word;
use crate::text::lemma_decimal_is_word;
use crate::text::lemma_decimal_round_trip;
use crate::text::lemma_keyword_match;
use crate::text::lemma_keyword_mismatch;
use crate::text::lemma_run_len_is;
use crate::text::lemma_split_first;
use crate::text::lemma_split_single;
use crate::text::lemma_trailing_whitespace_is;
use crate::text::lemma_words_first;
use crate::text::lemma_words_single;
use crate::text::parse_usize;
use crate::text::parse_usize_spec;
use crate::text::same_chars;
use crate::text::split;
use crate::text::split_once;
use crate::text::split_once_spec;
use crate::text::split_spec;
use crate::text::string_of;
use crate::text::strip_keyword;
use crate::text::texts_of;
use crate::text::trim;
use crate::text::trim_spec;
use crate::text::whitespace;
use crate::text::without;
use crate::text::without_spec;
use crate::text::words;
use crate::text::words_spec;

verus! {

/// What the console makes of a line.
#[derive(Debug, PartialEq, Eq)]
pub enum Parsed {
    /// The line is empty or all whitespace.
    Blank,
    /// The line asks for the list of commands.
    Help,
    /// The line sends a command.
    Send(Command),
    /// The line fits no rule.
    Dropped,
}

/// The mathematical content of `Parsed`.
pub ghost enum ParsedView {
    Blank,
    Help,
    Send(CommandView),
    Dropped,
}

impl View for Parsed {
    type V = ParsedView;

    open spec fn view(&self) -> ParsedView {
        match *self {
            Parsed::Blank => ParsedView::Blank,
            Parsed::Help => ParsedView::Help,
            Parsed::Send(command) => ParsedView::Send(command@),
            Parsed::Dropped => ParsedView::Dropped,
        }
    }
}

/// The keyword that loads a character.
pub open spec fn keyword_load() -> Seq<char> {
    seq!['L', 'O', 'A', 'D']
}

/// The keyword that switches an animation.
pub open spec fn keyword_anim() -> Seq<char> {
    seq!['A', 'N', 'I', 'M']
}

/// The keyword that plays music.
pub open spec fn keyword_bgm() -> Seq<char> {
    seq!['B', 'G', 'M']
}

/// The keyword that stops the music.
pub open spec fn keyword_stop() -> Seq<char> {
    seq!['S', 'T', 'O', 'P']
}

/// The keyword that shows a line of dialogue.
pub open spec fn keyword_talk() -> Seq<char> {
    seq!['T', 'A', 'L', 'K']
}

/// The keyword that loads a background.
pub open spec fn keyword_bg() -> Seq<char> {
    seq!['B', 'G']
}

/// The keyword that lists the commands.
pub open spec fn keyword_help() -> Seq<char> {
    seq!['H', 'E', 'L', 'P']
}

/// The word that switches looping on.
pub open spec fn word_true() -> Seq<char> {
    seq!['t', 'r', 'u', 'e']
}

/// A path as typed, without its double quotes.
pub open spec fn unquoted(path: Seq<char>) -> Seq<char> {
    without_spec(path, '"')
}

/// `LOAD <slot> <path>`: the slot is what stands before the first space, the
/// path all that follows it.
pub open spec fn parse_load(rest: Seq<char>) -> ParsedView {
    match split_once_spec(rest, ' ') {
        Some((slot, path)) => match parse_usize_spec(slot) {
            Some(slot_idx) => ParsedView::Send(
                CommandView::RequestLoad { slot_idx, path: unquoted(path) },
            ),
            None => ParsedView::Dropped,
        },
        None => ParsedView::Dropped,
    }
}

/// `ANIM <slot> <name> [loop]`: words between whitespace. The animation
/// loops unless a third word is there and is not `true`; further words are
/// not read.
pub open spec fn parse_anim(rest: Seq<char>) -> ParsedView {
    let parts = words_spec(rest);
    if parts.len() >= 2 {
        match parse_usize_spec(parts[0]) {
            Some(slot_idx) => ParsedView::Send(
                CommandView::SetAnimation {
                    slot_idx,
                    anim_name: parts[1],
                    loop_anim: parts.len() < 3 || parts[2] == word_true(),
                },
            ),
            None => ParsedView::Dropped,
        }
    } else {
        ParsedView::Dropped
    }
}

/// `TALK <name>|<affiliation>|<content>`: three fields between bars, no
/// more and no fewer.
pub open spec fn parse_talk(rest: Seq<char>) -> ParsedView {
    let fields = split_spec(rest, '|');
    if fields.len() == 3 {
        ParsedView::Send(
            CommandView::Dialogue { name: fields[0], affiliation: fields[1], content: fields[2] },
        )
    } else {
        ParsedView::Dropped
    }
}

/// What a line without whitespace at its ends says.
pub open spec fn parse_line(line: Seq<char>) -> ParsedView {
    if line.len() == 0 {
        ParsedView::Blank
    } else if has_keyword(line, keyword_load()) {
        parse_load(after_keyword(line, keyword_load()))
    } else if has_keyword(line, keyword_anim()) {
        parse_anim(after_keyword(line, keyword_anim()))
    } else if has_keyword(line, keyword_bgm()) {
        ParsedView::Send(
            CommandView::PlayBgm { path: unquoted(after_keyword(line, keyword_bgm())) },
        )
    } else if eq_ignore_ascii_case_spec(line, keyword_stop()) {
        ParsedView::Send(CommandView::StopBgm)
    } else if has_keyword(line, keyword_talk()) {
        parse_talk(after_keyword(line, keyword_talk()))
    } else if has_keyword(line, keyword_bg()) {
        ParsedView::Send(
            CommandView::LoadBackground { path: unquoted(after_keyword(line, keyword_bg())) },
        )
    } else if eq_ignore_ascii_case_spec(line, keyword_help()) {
        ParsedView::Help
    } else {
        ParsedView::Dropped
    }
}

/// What a line as typed says: what it says once the whitespace at its ends
/// is gone.
pub open spec fn parse_input(input: Seq<char>) -> ParsedView {
    parse_line(trim_spec(input))
}

fn load_keyword() -> (k: Vec<char>)
    ensures
        k@ == keyword_load(),
{
    let k = vec!['L', 'O', 'A', 'D'];
    assert(k@ =~= keyword_load());
    k
}

fn anim_keyword() -> (k: Vec<char>)
    ensures
        k@ == keyword_anim(),
{
    let k = vec!['A', 'N', 'I', 'M'];
    assert(k@ =~= keyword_anim());
    k
}

fn bgm_keyword() -> (k: Vec<char>)
    ensures
        k@ == keyword_bgm(),
{
    let k = vec!['B', 'G', 'M'];
    assert(k@ =~= keyword_bgm());
    k
}

fn stop_keyword() -> (k: Vec<char>)
    ensures
        k@ == keyword_stop(),
{
    let k = vec!['S', 'T', 'O', 'P'];
    assert(k@ =~= keyword_stop());
    k
}

fn talk_keyword() -> (k: Vec<char>)
    ensures
        k@ == keyword_talk(),
{
    let k = vec!['T', 'A', 'L', 'K'];
    assert(k@ =~= keyword_talk());
    k
}

fn bg_keyword() -> (k: Vec<char>)
    ensures
        k@ == keyword_bg(),
{
    let k = vec!['B', 'G'];
    assert(k@ =~= keyword_bg());
    k
}

fn help_keyword() -> (k: Vec<char>)
    ensures
        k@ == keyword_help(),
{
    let k = vec!['H', 'E', 'L', 'P'];
    assert(k@ =~= keyword_help());
    k
}

fn true_word() -> (k: Vec<char>)
    ensures
        k@ == word_true(),
{
    let k = vec!['t', 'r', 'u', 'e'];
    assert(k@ =~= word_true());
    k
}

fn read_load(rest: &Vec<char>) -> (parsed: Parsed)
    ensures
        parsed@ == parse_load(rest@),
{
    match split_once(rest, ' ') {
        Some((slot, path)) => match parse_usize(&slot) {
            Some(slot_idx) => Parsed::Send(
                Command::RequestLoad { slot_idx, path: string_of(&without(&path, '"')) },
            ),
            None => Parsed::Dropped,
        },
        None => Parsed::Dropped,
    }
}

fn read_anim(rest: &Vec<char>) -> (parsed: Parsed)
    ensures
        parsed@ == parse_anim(rest@),
{
    let parts = words(rest);
    proof {
        assert(texts_of(parts@).len() == parts.len());
    }
    if parts.len() >= 2 {
        proof {
            assert(texts_of(parts@)[0] == parts@[0]@);
            assert(texts_of(parts@)[1] == parts@[1]@);
        }
        match parse_usize(&parts[0]) {
            Some(slot_idx) => {
                let loop_anim = if parts.len() >= 3 {
                    proof {
                        assert(texts_of(parts@)[2] == parts@[2]@);
                    }
                    same_chars(&parts[2], &true_word())
                } else {
                    true
                };
                Parsed::Send(
                    Command::SetAnimation { slot_idx, anim_name: string_of(&parts[1]), loop_anim },
                )
            },
            None => Parsed::Dropped,
        }
    } else {
        Parsed::Dropped
    }
}

fn read_talk(rest: &Vec<char>) -> (parsed: Parsed)
    ensures
        parsed@ == parse_talk(rest@),
{
    let fields = split(rest, '|');
    proof {
        assert(texts_of(fields@).len() == fields.len());
    }
    if fields.len() == 3 {
        proof {
            assert(texts_of(fields@)[0] == fields@[0]@);
            assert(texts_of(fields@)[1] == fields@[1]@);
            assert(texts_of(fields@)[2] == fields@[2]@);
        }
        Parsed::Send(
            Command::Dialogue {
                name: string_of(&fields[0]),
                affiliation: string_of(&fields[1]),
                content: string_of(&fields[2]),
            },
        )
    } else {
        Parsed::Dropped
    }
}

/// Reads a line that has no whitespace at its ends.
pub fn read_line(line: &Vec<char>) -> (parsed: Parsed)
    ensures
        parsed@ == parse_line(line@),
{
    if line.len() == 0 {
        return Parsed::Blank;
    }
    if let Some(rest) = strip_keyword(line, &load_keyword()) {
        return read_load(&rest);
    }
    if let Some(rest) = strip_keyword(line, &anim_keyword()) {
        return read_anim(&rest);
    }
    if let Some(rest) = strip_keyword(line, &bgm_keyword()) {
        return Parsed::Send(Command::PlayBgm(string_of(&without(&rest, '"'))));
    }
    if eq_ignore_ascii_case(line, &stop_keyword()) {
        return Parsed::Send(Command::StopBgm);
    }
    if let Some(rest) = strip_keyword(line, &talk_keyword()) {
        return read_talk(&rest);
    }
    if let Some(rest) = strip_keyword(line, &bg_keyword()) {
        return Parsed::Send(Command::LoadBackground(string_of(&without(&rest, '"'))));
    }
    if eq_ignore_ascii_case(line, &help_keyword()) {
        return Parsed::Help;
    }
    Parsed::Dropped
}

/// Reads a line as typed.
pub fn parse_command(input: &str) -> (parsed: Parsed)
    ensures
        parsed@ == parse_input(input@),
{
    let line = trim(&chars_of(input));
    read_line(&line)
}

// ---------------------------------------------------------------------------
// Laws of the grammar: every command can be written
// ---------------------------------------------------------------------------

/// One space.
pub open spec fn space() -> Seq<char> {
    seq![' ']
}

/// One bar.
pub open spec fn bar() -> Seq<char> {
    seq!['|']
}

/// `TALK`, a space and three fields without a bar, joined by bars, send the
/// dialogue with exactly those fields.
pub proof fn lemma_talk_line(name: Seq<char>, affiliation: Seq<char>, content: Seq<char>)
    requires
        !name.contains('|'),
        !affiliation.contains('|'),
        !content.contains('|'),
    ensures
        parse_line(keyword_talk() + space() + (name + bar() + affiliation + bar() + content))
            == ParsedView::Send(CommandView::Dialogue { name, affiliation, content }),
{
    let rest = name + bar() + affiliation + bar() + content;
    let line = keyword_talk() + space() + rest;
    lemma_keyword_match(keyword_talk(), rest);
    assert(line[0] == 'T');
    lemma_keyword_mismatch(line, keyword_load(), 0);
    lemma_keyword_mismatch(line, keyword_anim(), 0);
    lemma_keyword_mismatch(line, keyword_bgm(), 0);
    let tail = affiliation + bar() + content;
    assert(rest =~= name + bar() + tail);
    lemma_split_first(name, '|', tail);
    lemma_split_first(affiliation, '|', content);
    lemma_split_single(content, '|');
    assert(split_spec(rest, '|') =~= seq![name, affiliation, content]);
}

/// A fourth field, or a missing third, makes `TALK` say nothing.
pub proof fn lemma_talk_needs_three(first: Seq<char>, second: Seq<char>)
    requires
        !first.contains('|'),
        !second.contains('|'),
    ensures
        parse_talk(first) == ParsedView::Dropped,
        parse_talk(first + bar() + second) == ParsedView::Dropped,
{
    lemma_split_single(first, '|');
    lemma_split_first(first, '|', second);
    lemma_split_single(second, '|');
    assert(split_spec(first + bar() + second, '|') =~= seq![first, second]);
}

/// `LOAD`, a space, a slot number, a space and a path send the request for
/// that slot with the path as typed, less its double quotes.
pub proof fn lemma_load_line(slot_idx: usize, path: Seq<char>)
    ensures
        parse_line(keyword_load() + space() + (decimal_spec(slot_idx as nat) + space() + path))
            == ParsedView::Send(CommandView::RequestLoad { slot_idx, path: unquoted(path) }),
{
    let digits = decimal_spec(slot_idx as nat);
    let rest = digits + space() + path;
    lemma_keyword_match(keyword_load(), rest);
    lemma_decimal_is_word(slot_idx as nat);
    lemma_decimal_round_trip(slot_idx as nat);
    lemma_split_first(digits, ' ', path);
}

/// `ANIM`, a space, a slot number, a space and a name that is one word send
/// the switch to that animation, looping.
pub proof fn lemma_anim_line(slot_idx: usize, anim_name: Seq<char>)
    requires
        is_word(anim_name),
    ensures
        parse_line(keyword_anim() + space() + (decimal_spec(slot_idx as nat) + space() + anim_name))
            == ParsedView::Send(
            CommandView::SetAnimation { slot_idx, anim_name, loop_anim: true },
        ),
{
    let digits = decimal_spec(slot_idx as nat);
    let rest = digits + space() + anim_name;
    let line = keyword_anim() + space() + rest;
    lemma_keyword_match(keyword_anim(), rest);
    assert(line[0] == 'A');
    lemma_keyword_mismatch(line, keyword_load(), 0);
    lemma_decimal_is_word(slot_idx as nat);
    lemma_decimal_round_trip(slot_idx as nat);
    lemma_words_first(digits, ' ', anim_name);
    lemma_words_single(anim_name);
    assert(words_spec(rest) =~= seq![digits, anim_name]);
}

/// With a third word the animation loops exactly when that word is `true`.
pub proof fn lemma_anim_line_with_flag(slot_idx: usize, anim_name: Seq<char>, flag: Seq<char>)
    requires
        is_word(anim_name),
        is_word(flag),
    ensures
        parse_line(
            keyword_anim() + space() + (decimal_spec(slot_idx as nat) + space() + (anim_name
                + space() + flag)),
        ) == ParsedView::Send(
            CommandView::SetAnimation { slot_idx, anim_name, loop_anim: flag == word_true() },
        ),
{
    let digits = decimal_spec(slot_idx as nat);
    let tail = anim_name + space() + flag;
    let rest = digits + space() + tail;
    let line = keyword_anim() + space() + rest;
    lemma_keyword_match(keyword_anim(), rest);
    assert(line[0] == 'A');
    lemma_keyword_mismatch(line, keyword_load(), 0);
    lemma_decimal_is_word(slot_idx as nat);
    lemma_decimal_round_trip(slot_idx as nat);
    lemma_words_first(digits, ' ', tail);
    lemma_words_first(anim_name, ' ', flag);
    lemma_words_single(flag);
    assert(words_spec(rest) =~= seq![digits, anim_name, flag]);
}

/// `BGM`, a space and a path send the music at that path, and `BG`, a space
/// and a path the background at that path, each less its double quotes.
pub proof fn lemma_path_lines(path: Seq<char>)
    ensures
        parse_line(keyword_bgm() + space() + path) == ParsedView::Send(
            CommandView::PlayBgm { path: unquoted(path) },
        ),
        parse_line(keyword_bg() + space() + path) == ParsedView::Send(
            CommandView::LoadBackground { path: unquoted(path) },
        ),
{
    let music = keyword_bgm() + space() + path;
    lemma_keyword_match(keyword_bgm(), path);
    assert(music[0] == 'B');
    lemma_keyword_mismatch(music, keyword_load(), 0);
    lemma_keyword_mismatch(music, keyword_anim(), 0);

    let picture = keyword_bg() + space() + path;
    lemma_keyword_match(keyword_bg(), path);
    assert(picture[0] == 'B');
    assert(picture[2] == ' ');
    lemma_keyword_mismatch(picture, keyword_load(), 0);
    lemma_keyword_mismatch(picture, keyword_anim(), 0);
    lemma_keyword_mismatch(picture, keyword_bgm(), 2);
    lemma_keyword_mismatch(picture, keyword_stop(), 0);
    lemma_keyword_mismatch(picture, keyword_talk(), 0);
}

/// `STOP` and `HELP`, each as the whole line, stop the music and call for
/// help.
pub proof fn lemma_bare_lines()
    ensures
        parse_line(keyword_stop()) == ParsedView::Send(CommandView::StopBgm),
        parse_line(keyword_help()) == ParsedView::Help,
{
    let stop = keyword_stop();
    lemma_keyword_mismatch(stop, keyword_bgm(), 0);
    let help = keyword_help();
    lemma_keyword_mismatch(help, keyword_bgm(), 0);
    lemma_keyword_mismatch(help, keyword_stop(), 0);
    lemma_keyword_mismatch(help, keyword_bg(), 0);
}

/// A line that neither starts nor ends with whitespace is read as typed.
pub proof fn lemma_tight_input(line: Seq<char>)
    requires
        line.len() > 0 ==> !is_whitespace_spec(line.first()) && !is_whitespace_spec(line.last()),
    ensures
        trim_spec(line) == line,
        parse_input(line) == parse_line(line),
{
    lemma_run_len_is(line, whitespace(), 0);
    assert(line.skip(0) =~= line);
    lemma_trailing_whitespace_is(line, 0);
    assert(line.take(line.len() as int) =~= line);
}

} // verus!

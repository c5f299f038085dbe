//! Cards and the list of their controls.

use crate::command::{
    checked_output_of, invocation, launch_views, output_of, single_step, text_step, Invocation,
    InvocationView, Launch, LaunchView, Step,
};
use crate::decimal::{i32_of_text, is_numeral, numeral, parse_i32};
use crate::error::{
    not_found, parse_failure, text_result, value_result, ControlError, ErrorKind, Failure,
};
use crate::name_map::NameMap;
use crate::pattern::{captures, captures_view, last_group, last_group_text, regex_captures};
use crate::text::{
    begins_with, blank, chars_of, contains, first_where, includes, is_blank,
    lemma_first_where_unique, lines, split, split_chars, split_lines, split_words, starts_with,
    string_of, string_views, strip_end, strip_trailing, tokens, trim, trimmed, views,
};
use vstd::prelude::*;

verus! {

/// The number that a line of the device listing gives its card: the
/// second word, without the colons at its end.
pub open spec fn card_number_of(line: Seq<char>) -> Seq<char> {
    strip_end(tokens(line)[1], ':')
}

/// Whether a line of the device listing names the card `card_name` and
/// gives it a number: it holds the name, and its second word, without the
/// colons at its end, is a numeral.
pub open spec fn names_card(line: Seq<char>, card_name: Seq<char>) -> bool {
    &&& contains(line, card_name)
    &&& tokens(line).len() >= 2
    &&& is_numeral(card_number_of(line))
}

/// The number of the card `card_name` in a device listing: that of the
/// first line that names the card and gives it a number. A line that
/// holds the name and prints no number is passed over.
pub open spec fn card_number_in(listing: Seq<char>, card_name: Seq<char>) -> Option<Seq<char>> {
    let ls = lines(listing);
    let i = first_where(ls, |line: Seq<char>| names_card(line, card_name)) as int;
    if i < ls.len() {
        Some(card_number_of(ls[i]))
    } else {
        None
    }
}

/// The number of the card `card_name`, read off what came of listing the
/// playback devices. The exit status of the listing is not looked at.
pub open spec fn card_number_by_name(card_name: Seq<char>, listing: LaunchView) -> Result<
    Seq<char>,
    Failure,
> {
    match output_of(listing, "Failed to execute aplay: "@) {
        Err(e) => Err(e),
        Ok(text) => match card_number_in(text, card_name) {
            Some(number) => Ok(number),
            None => Err(not_found("Could not find card with name: "@ + card_name)),
        },
    }
}

/// A card that the listing names resolves to the number that the first
/// line naming it prints.
pub proof fn lemma_card_number_of_first_match(listing: Seq<char>, card_name: Seq<char>, i: int)
    requires
        0 <= i < lines(listing).len(),
        names_card(lines(listing)[i], card_name),
        forall|k: int| 0 <= k < i ==> !names_card(#[trigger] lines(listing)[k], card_name),
    ensures
        card_number_in(listing, card_name) == Some(card_number_of(lines(listing)[i])),
{
    lemma_first_where_unique(
        lines(listing),
        |line: Seq<char>| names_card(line, card_name),
        i,
    );
}

/// A card resolves where, and only where, a line of the listing names it.
pub proof fn lemma_card_number_found(listing: Seq<char>, card_name: Seq<char>)
    ensures
        card_number_in(listing, card_name) is Some <==> exists|i: int|
            0 <= i < lines(listing).len() && names_card(#[trigger] lines(listing)[i], card_name),
{
    let ls = lines(listing);
    let p = |line: Seq<char>| names_card(line, card_name);
    crate::text::lemma_first_where(ls, p);
    if exists|i: int| 0 <= i < ls.len() && names_card(#[trigger] ls[i], card_name) {
        let i = choose|i: int| 0 <= i < ls.len() && names_card(#[trigger] ls[i], card_name);
        assert(p(ls[i]));
    }
    if first_where(ls, p) < ls.len() {
        assert(p(ls[first_where(ls, p) as int]));
    }
}

/// The number of a line whose second word is the numeral `index`
/// followed by a colon is `index`, as it is printed; such a line names
/// every card whose name it holds.
pub proof fn lemma_card_number_as_printed(line: Seq<char>, index: Seq<char>, card_name: Seq<char>)
    requires
        tokens(line).len() >= 2,
        tokens(line)[1] == index.push(':'),
        is_numeral(index),
        contains(line, card_name),
    ensures
        card_number_of(line) == index,
        names_card(line, card_name),
{
    let word = index.push(':');
    assert(crate::decimal::is_digit(index.last()));
    crate::text::lemma_trailing_run_unique(word, ':', 1);
    assert(word.take(word.len() - 1) == index);
}

/// The number of a card is a numeral: one digit or more, and nothing
/// else.
pub proof fn lemma_card_number_is_numeral(listing: Seq<char>, card_name: Seq<char>)
    ensures
        card_number_in(listing, card_name) matches Some(number) ==> is_numeral(number),
{
    let ls = lines(listing);
    let p = |line: Seq<char>| names_card(line, card_name);
    crate::text::lemma_first_where(ls, p);
    if first_where(ls, p) < ls.len() {
        assert(p(ls[first_where(ls, p) as int]));
    }
}

/// Whatever came of listing the playback devices, the number that is
/// read off it is a numeral.
pub proof fn lemma_resolved_card_number_is_numeral(card_name: Seq<char>, listing: LaunchView)
    ensures
        card_number_by_name(card_name, listing) matches Ok(number) ==> is_numeral(number),
{
    if let LaunchView::Finished { stdout, .. } = listing {
        lemma_card_number_is_numeral(stdout, card_name);
    }
}

/// The command that lists the playback devices.
pub open spec fn card_listing() -> InvocationView {
    invocation("aplay"@, seq!["-l"@])
}

/// The command that lists the playback devices.
pub fn card_listing_command() -> (c: Invocation)
    ensures
        c@ == card_listing(),
{
    let c = Invocation::new("aplay").arg("-l");
    assert(c@.args =~= seq!["-l"@]);
    c
}

/// The number of the card `card_name` in a device listing.
pub fn find_card_number(listing: &str, card_name: &str) -> (r: Option<String>)
    ensures
        match r {
            Some(n) => card_number_in(listing@, card_name@) == Some(n@) && is_numeral(n@),
            None => card_number_in(listing@, card_name@) is None,
        },
{
    let text = chars_of(listing);
    let name = chars_of(card_name);
    let ls = split_lines(&text);
    let ghost p = |line: Seq<char>| names_card(line, card_name@);
    let mut i: usize = 0;
    while i < ls.len()
        invariant
            i <= ls.len(),
            views(ls@) == lines(listing@),
            name@ == card_name@,
            p == |line: Seq<char>| names_card(line, card_name@),
            forall|k: int| 0 <= k < i ==> !p(#[trigger] lines(listing@)[k]),
        decreases ls.len() - i,
    {
        let line = &ls[i];
        assert(line@ == lines(listing@)[i as int]);
        if includes(line, &name) {
            let words = split_words(line);
            if words.len() >= 2 {
                assert(words[1]@ == tokens(line@)[1]);
                let number = strip_trailing(&words[1], ':');
                if numeral(&number) {
                    proof {
                        assert(p(lines(listing@)[i as int]));
                        lemma_first_where_unique(lines(listing@), p, i as int);
                    }
                    return Some(string_of(&number));
                }
            }
        }
        assert(!p(lines(listing@)[i as int]));
        i += 1;
    }
    proof {
        lemma_first_where_unique(lines(listing@), p, i as int);
    }
    None
}

/// The number of the card `card_name`, read off what came of listing the
/// playback devices.
pub fn card_number_from(card_name: &str, listing: &Launch) -> (r: Result<String, ControlError>)
    ensures
        text_result(r) == card_number_by_name(card_name@, listing@),
        r matches Ok(number) ==> is_numeral(number@),
{
    match listing.output("Failed to execute aplay: ") {
        Err(e) => Err(e),
        Ok(text) => match find_card_number(text, card_name) {
            Some(number) => Ok(number),
            None => Err(
                ControlError::prefixed(
                    ErrorKind::NotFound,
                    "Could not find card with name: ",
                    card_name,
                ),
            ),
        },
    }
}

/// The number that the mixer gives the card `card_name`: lists the
/// playback devices, then reads the number off the listing.
pub fn get_card_number_by_name(card_name: &str, outcomes: &[Launch]) -> (r: Step<String>)
    ensures
        text_step(r) == single_step(
            card_listing(),
            launch_views(outcomes@),
            |listing: LaunchView| card_number_by_name(card_name@, listing),
        ),
        r matches Step::Done(Ok(number)) ==> is_numeral(number@),
{
    if outcomes.len() == 0 {
        Step::Run(card_listing_command())
    } else {
        Step::Done(card_number_from(card_name, &outcomes[0]))
    }
}

/// A control of a card as the mixer lists it: its name, and the lines
/// that describe it, the header first.
pub struct ControlBlock {
    pub name: Seq<char>,
    pub lines: Seq<Seq<char>>,
}

/// How far the reading of a list of controls has come: the controls whose
/// description has ended, and the one whose description is being read.
pub struct ListingScan {
    pub closed: Map<Seq<char>, Seq<Seq<char>>>,
    pub open: Option<ControlBlock>,
}

/// Whether `line` begins the description of a control.
pub open spec fn is_control_header(line: Seq<char>) -> bool {
    starts_with(line, "Simple mixer control"@)
}

/// The name that a header line gives between its first two quote signs;
/// what follows the first quote sign where there is no second one.
pub open spec fn quoted_name(line: Seq<char>) -> Option<Seq<char>> {
    let parts = split(line, '\'');
    if parts.len() >= 2 {
        Some(parts[1])
    } else {
        None
    }
}

/// The controls whose description has ended once the open one ends too.
/// A control listed twice keeps its later description.
pub open spec fn close_block(scan: ListingScan) -> Map<Seq<char>, Seq<Seq<char>>> {
    match scan.open {
        Some(block) => scan.closed.insert(block.name, block.lines),
        None => scan.closed,
    }
}

/// The reading after one more line. A header ends the open description
/// and, where it carries a quoted name, opens the one of that name, with
/// itself as the first line. Any other line that is not blank joins the
/// open description.
pub open spec fn listing_step(scan: ListingScan, line: Seq<char>) -> ListingScan {
    if is_control_header(line) {
        ListingScan {
            closed: close_block(scan),
            open: match quoted_name(line) {
                Some(name) => Some(ControlBlock { name, lines: seq![line] }),
                None => None,
            },
        }
    } else if !is_blank(line) {
        match scan.open {
            Some(block) => ListingScan {
                closed: scan.closed,
                open: Some(ControlBlock { name: block.name, lines: block.lines.push(line) }),
            },
            None => scan,
        }
    } else {
        scan
    }
}

/// The reading after all of `lines`.
pub open spec fn listing_scan(lines: Seq<Seq<char>>) -> ListingScan
    decreases lines.len(),
{
    if lines.len() == 0 {
        ListingScan { closed: Map::empty(), open: None }
    } else {
        listing_step(listing_scan(lines.drop_last()), lines.last())
    }
}

/// The controls that the text `listing` describes, each name with the
/// lines of its description.
pub open spec fn controls_in(listing: Seq<char>) -> Map<Seq<char>, Seq<Seq<char>>> {
    close_block(listing_scan(lines(listing)))
}

/// The lines of `lines` that are not blank, in order.
pub open spec fn without_blank(lines: Seq<Seq<char>>) -> Seq<Seq<char>>
    decreases lines.len(),
{
    if lines.len() == 0 {
        seq![]
    } else if is_blank(lines.last()) {
        without_blank(lines.drop_last())
    } else {
        without_blank(lines.drop_last()).push(lines.last())
    }
}

/// Whether the lines from `h` up to `e` are the description of a control:
/// line `h` is a header with a quoted name, no header stands between `h`
/// and `e`, and `e` is the next header or the end.
pub open spec fn is_description(lines: Seq<Seq<char>>, h: int, e: int) -> bool {
    &&& 0 <= h < e <= lines.len()
    &&& is_control_header(lines[h])
    &&& quoted_name(lines[h]) is Some
    &&& forall|k: int| h < k < e ==> !is_control_header(#[trigger] lines[k])
    &&& e < lines.len() ==> is_control_header(lines[e])
}

/// The lines of the description that begins at line `h` and ends before
/// line `e`: the header, then the lines that are not blank.
pub open spec fn description(lines: Seq<Seq<char>>, h: int, e: int) -> Seq<Seq<char>> {
    seq![lines[h]] + without_blank(lines.subrange(h + 1, e))
}

/// While a description is being read, it is the open one.
proof fn lemma_open_description(lines: Seq<Seq<char>>, h: int, n: int)
    requires
        0 <= h < n <= lines.len(),
        is_control_header(lines[h]),
        quoted_name(lines[h]) is Some,
        forall|k: int| h < k < n ==> !is_control_header(#[trigger] lines[k]),
    ensures
        listing_scan(lines.take(n)).open == Some(
            ControlBlock { name: quoted_name(lines[h]).unwrap(), lines: description(lines, h, n) },
        ),
    decreases n,
{
    let seen = lines.take(n);
    assert(seen.drop_last() == lines.take(n - 1));
    assert(seen.last() == lines[n - 1]);
    if n == h + 1 {
        assert(lines.subrange(h + 1, n) == Seq::<Seq<char>>::empty());
        assert(description(lines, h, n) == seq![lines[h]]);
    } else {
        lemma_open_description(lines, h, n - 1);
        let body = lines.subrange(h + 1, n);
        assert(body.drop_last() == lines.subrange(h + 1, n - 1));
        assert(body.last() == lines[n - 1]);
        if !is_blank(lines[n - 1]) {
            assert(description(lines, h, n) == description(lines, h, n - 1).push(lines[n - 1]));
        }
    }
}

/// Once a description has ended, the control keeps it for as long as no
/// later header carries the name of the control.
proof fn lemma_closed_description(lines: Seq<Seq<char>>, h: int, e: int, n: int)
    requires
        is_description(lines, h, e),
        e < n <= lines.len(),
        forall|k: int|
            e <= k < n && is_control_header(#[trigger] lines[k]) ==> quoted_name(lines[k])
                != quoted_name(lines[h]),
    ensures
        listing_scan(lines.take(n)).closed.contains_key(quoted_name(lines[h]).unwrap()),
        listing_scan(lines.take(n)).closed[quoted_name(lines[h]).unwrap()] == description(
            lines,
            h,
            e,
        ),
        listing_scan(lines.take(n)).open matches Some(block) ==> block.name != quoted_name(
            lines[h],
        ).unwrap(),
    decreases n,
{
    let seen = lines.take(n);
    assert(seen.drop_last() == lines.take(n - 1));
    assert(seen.last() == lines[n - 1]);
    if n == e + 1 {
        lemma_open_description(lines, h, e);
    } else {
        lemma_closed_description(lines, h, e, n - 1);
    }
}

/// A control has the description that the listing gives it: the header
/// that carries its name between quote signs, then the lines up to the
/// next header that are not blank. Where several headers carry the name,
/// the description behind the last one counts.
pub proof fn lemma_control_description(listing: Seq<char>, h: int, e: int)
    requires
        is_description(lines(listing), h, e),
        forall|k: int|
            e <= k < lines(listing).len() && is_control_header(#[trigger] lines(listing)[k])
                ==> quoted_name(lines(listing)[k]) != quoted_name(lines(listing)[h]),
    ensures
        controls_in(listing).contains_key(quoted_name(lines(listing)[h]).unwrap()),
        controls_in(listing)[quoted_name(lines(listing)[h]).unwrap()] == description(
            lines(listing),
            h,
            e,
        ),
{
    let ls = lines(listing);
    assert(ls.take(ls.len() as int) == ls);
    if e == ls.len() {
        lemma_open_description(ls, h, e);
    } else {
        lemma_closed_description(ls, h, e, ls.len() as int);
    }
}

/// Whether one of the first `n` lines is a header that carries `name`
/// between quote signs.
pub open spec fn has_header_of(lines: Seq<Seq<char>>, n: int, name: Seq<char>) -> bool {
    exists|h: int|
        0 <= h < n && h < lines.len() && is_control_header(#[trigger] lines[h]) && quoted_name(
            lines[h],
        ) == Some(name)
}

proof fn lemma_scanned_names(lines: Seq<Seq<char>>, n: int, name: Seq<char>)
    requires
        0 <= n <= lines.len(),
    ensures
        close_block(listing_scan(lines.take(n))).contains_key(name) <==> has_header_of(
            lines,
            n,
            name,
        ),
        listing_scan(lines.take(n)).closed.contains_key(name) ==> has_header_of(lines, n, name),
    decreases n,
{
    if n == 0 {
        assert(lines.take(0) == Seq::<Seq<char>>::empty());
    } else {
        let seen = lines.take(n);
        assert(seen.drop_last() == lines.take(n - 1));
        assert(seen.last() == lines[n - 1]);
        lemma_scanned_names(lines, n - 1, name);
        if has_header_of(lines, n - 1, name) {
            let h = choose|h: int|
                0 <= h < n - 1 && h < lines.len() && is_control_header(#[trigger] lines[h])
                    && quoted_name(lines[h]) == Some(name);
            assert(is_control_header(lines[h]) && quoted_name(lines[h]) == Some(name));
        }
        if has_header_of(lines, n, name) {
            let h = choose|h: int|
                0 <= h < n && h < lines.len() && is_control_header(#[trigger] lines[h])
                    && quoted_name(lines[h]) == Some(name);
            if h < n - 1 {
                assert(has_header_of(lines, n - 1, name));
            }
        }
        if is_control_header(lines[n - 1]) && quoted_name(lines[n - 1]) == Some(name) {
            assert(has_header_of(lines, n, name));
        }
    }
}

/// The controls of a listing are those whose name a header carries
/// between quote signs.
pub proof fn lemma_control_names(listing: Seq<char>, name: Seq<char>)
    ensures
        controls_in(listing).contains_key(name) <==> has_header_of(
            lines(listing),
            lines(listing).len() as int,
            name,
        ),
{
    let ls = lines(listing);
    assert(ls.take(ls.len() as int) == ls);
    lemma_scanned_names(ls, ls.len() as int, name);
}

/// A list of controls, the lines taken by their views.
pub open spec fn listing_view(controls: NameMap<Vec<String>>) -> Map<Seq<char>, Seq<Seq<char>>> {
    controls@.map_values(|v: Vec<String>| string_views(v@))
}

/// The controls of a card, read off what came of listing them. The exit
/// status of the listing is not looked at.
pub open spec fn soundcard_controls(listing: LaunchView) -> Result<
    Map<Seq<char>, Seq<Seq<char>>>,
    Failure,
> {
    match output_of(listing, "Failed to execute amixer: "@) {
        Err(e) => Err(e),
        Ok(text) => Ok(controls_in(text)),
    }
}

/// The command that lists the controls of the card `card_index`.
pub open spec fn controls_listing(card_index: Seq<char>) -> InvocationView {
    invocation("amixer"@, seq!["-c"@, card_index])
}

/// The command that lists the controls of the card `card_index`.
pub fn soundcard_controls_command(card_index: &str) -> (c: Invocation)
    ensures
        c@ == controls_listing(card_index@),
{
    let c = Invocation::new("amixer").arg("-c").arg(card_index);
    assert(c@.args =~= seq!["-c"@, card_index@]);
    c
}

/// Reads a list of controls.
pub fn parse_soundcard_controls(listing: &str) -> (controls: NameMap<Vec<String>>)
    ensures
        listing_view(controls) == controls_in(listing@),
{
    let text = chars_of(listing);
    let ls = split_lines(&text);
    let header = chars_of("Simple mixer control");
    let mut controls: NameMap<Vec<String>> = NameMap::new();
    let mut current: Option<(String, Vec<String>)> = None;
    let mut i: usize = 0;
    proof {
        assert(lines(listing@).take(0) == Seq::<Seq<char>>::empty());
        assert(listing_view(controls) =~= Map::<Seq<char>, Seq<Seq<char>>>::empty());
    }
    while i < ls.len()
        invariant
            i <= ls.len(),
            views(ls@) == lines(listing@),
            header@ == "Simple mixer control"@,
            listing_view(controls) == listing_scan(lines(listing@).take(i as int)).closed,
            match current {
                Some((name, info)) => listing_scan(lines(listing@).take(i as int)).open == Some(
                    ControlBlock { name: name@, lines: string_views(info@) },
                ),
                None => listing_scan(lines(listing@).take(i as int)).open is None,
            },
        decreases ls.len() - i,
    {
        let line = &ls[i];
        let ghost before = listing_scan(lines(listing@).take(i as int));
        proof {
            let seen = lines(listing@).take(i + 1);
            assert(seen.drop_last() == lines(listing@).take(i as int));
            assert(seen.last() == line@);
        }
        if begins_with(line, &header) {
            if let Some((name, info)) = current {
                let ghost held = controls;
                controls.insert(name, info);
                proof {
                    assert(listing_view(controls) =~= listing_view(held).insert(
                        name@,
                        string_views(info@),
                    ));
                }
            }
            let parts = split_chars(line, '\'');
            if parts.len() >= 2 {
                let mut info: Vec<String> = Vec::new();
                info.push(string_of(line));
                proof {
                    assert(parts[1]@ == split(line@, '\'')[1]);
                    assert(string_views(info@) =~= seq![line@]);
                }
                current = Some((string_of(&parts[1]), info));
            } else {
                current = None;
            }
        } else if !blank(line) {
            if let Some((name, mut info)) = current {
                let ghost held = info@;
                info.push(string_of(line));
                proof {
                    assert(string_views(info@) =~= string_views(held).push(line@));
                }
                current = Some((name, info));
            }
        }
        i += 1;
    }
    proof {
        assert(lines(listing@).take(i as int) == lines(listing@));
    }
    if let Some((name, info)) = current {
        let ghost held = controls;
        controls.insert(name, info);
        proof {
            assert(listing_view(controls) =~= listing_view(held).insert(
                name@,
                string_views(info@),
            ));
        }
    }
    controls
}

/// The controls of the card `card_index`: lists them, then reads the
/// listing.
pub fn get_soundcard_controls(card_index: &str, outcomes: &[Launch]) -> (r: Step<
    NameMap<Vec<String>>,
>)
    ensures
        match r {
            Step::Run(c) => outcomes@.len() == 0 && c@ == controls_listing(card_index@),
            Step::Done(Ok(controls)) => outcomes@.len() > 0 && soundcard_controls(outcomes@[0]@)
                == Ok::<Map<Seq<char>, Seq<Seq<char>>>, Failure>(listing_view(controls)),
            Step::Done(Err(e)) => outcomes@.len() > 0 && soundcard_controls(outcomes@[0]@) == Err::<
                Map<Seq<char>, Seq<Seq<char>>>,
                Failure,
            >(e@),
        },
{
    if outcomes.len() == 0 {
        Step::Run(soundcard_controls_command(card_index))
    } else {
        match outcomes[0].output("Failed to execute amixer: ") {
            Err(e) => Step::Done(Err(e)),
            Ok(text) => Step::Done(Ok(parse_soundcard_controls(text))),
        }
    }
}

/// The pattern of the line that gives a control's value in the mixer's own
/// units.
pub open spec fn value_pattern() -> Seq<char> {
    "(?m)^  Mono:( Playback)? (\\d+)"@
}

/// The number that a captured text stands for. Nothing captured and a
/// text that is no 32-bit number are a `ParseFailure` each.
pub open spec fn captured_number(text: Option<Seq<char>>) -> Result<i32, Failure> {
    match text {
        None => Err(parse_failure("Could not parse volume from amixer output"@)),
        Some(t) => match i32_of_text(t) {
            Some(v) => Ok(v),
            None => Err(parse_failure("Failed to parse volume as integer: "@ + t)),
        },
    }
}

/// The number that a captured text stands for.
pub fn number_of_capture(text: Option<&String>) -> (r: Result<i32, ControlError>)
    ensures
        value_result(r) == captured_number(
            match text {
                Some(t) => Some(t@),
                None => None,
            },
        ),
{
    match text {
        None => Err(
            ControlError::new(
                ErrorKind::ParseFailure,
                "Could not parse volume from amixer output".to_string(),
            ),
        ),
        Some(t) => {
            let digits = chars_of(t.as_str());
            match parse_i32(&digits) {
                Some(v) => Ok(v),
                None => Err(
                    ControlError::prefixed(
                        ErrorKind::ParseFailure,
                        "Failed to parse volume as integer: ",
                        t.as_str(),
                    ),
                ),
            }
        },
    }
}

/// The value of a control in the mixer's own units, from what the value
/// pattern captured in the mixer's answer: the number in the last group.
pub fn value_of_captures(found: &Option<Vec<Option<String>>>) -> (r: Result<i32, ControlError>)
    ensures
        value_result(r) == captured_number(last_group(captures_view(*found))),
{
    number_of_capture(last_group_text(found))
}

/// The value of a control in the mixer's own units, from the mixer's
/// answer.
pub fn parse_value_from_amixer_output(output: &str) -> (r: Result<i32, ControlError>)
    ensures
        value_result(r) == captured_number(
            last_group(regex_captures(value_pattern(), output@)),
        ),
{
    let found = captures("(?m)^  Mono:( Playback)? (\\d+)", output);
    value_of_captures(&found)
}

/// The USB identifier of the interface.
pub open spec fn babyface_usb_id() -> Seq<char> {
    "2a39:3fb0"@
}

/// The lines of the kernel's card list that begin the entry of a card and
/// give its index: every other line, from the first, that has a word.
pub open spec fn card_entries(lines: Seq<Seq<char>>) -> Seq<Seq<char>>
    decreases lines.len(),
{
    if lines.len() == 0 {
        seq![]
    } else {
        let rest = card_entries(lines.skip(if lines.len() >= 2 {
            2int
        } else {
            1int
        }));
        if tokens(lines[0]).len() >= 1 {
            seq![lines[0]] + rest
        } else {
            rest
        }
    }
}

/// The index of the card that the entry line `line` begins.
pub open spec fn entry_index(line: Seq<char>) -> Seq<char> {
    tokens(line)[0]
}

/// The file that holds the USB identifier of the card `index`.
pub open spec fn usb_id_path(index: Seq<char>) -> Seq<char> {
    "/proc/asound/card"@ + index + "/usbid"@
}

/// The name that an entry line gives in square brackets: what stands
/// between the first opening bracket and the closing bracket that follows
/// it, or the end of the line.
pub open spec fn bracketed_name(line: Seq<char>) -> Option<Seq<char>> {
    let parts = split(line, '[');
    if parts.len() >= 2 {
        Some(split(parts[1], ']')[0])
    } else {
        None
    }
}

/// Whether the `k`-th card entry is the interface and carries a name:
/// the content of its USB identifier file was read and is, but for the
/// whitespace around it, the identifier of the interface.
pub open spec fn is_babyface_entry(
    entries: Seq<Seq<char>>,
    usb_ids: Seq<Option<Seq<char>>>,
    k: int,
) -> bool {
    &&& 0 <= k < entries.len()
    &&& k < usb_ids.len()
    &&& usb_ids[k] matches Some(id) && trim(id) == babyface_usb_id()
    &&& bracketed_name(entries[k]) is Some
}

/// The trimmed name in brackets of the first entry, from the `k`-th on,
/// that is the interface.
pub open spec fn babyface_from(
    entries: Seq<Seq<char>>,
    usb_ids: Seq<Option<Seq<char>>>,
    k: int,
) -> Option<Seq<char>>
    decreases entries.len() - k,
{
    if k < 0 || k >= entries.len() {
        None
    } else if is_babyface_entry(entries, usb_ids, k) {
        Some(trim(bracketed_name(entries[k]).unwrap()))
    } else {
        babyface_from(entries, usb_ids, k + 1)
    }
}

/// The name of the interface in the kernel's card list `cards`, where
/// `usb_ids` holds, for each card entry in order, the content of its USB
/// identifier file, or `None` where that could not be read: the trimmed
/// name in brackets of the first entry that is the interface.
pub open spec fn babyface_card(cards: Seq<char>, usb_ids: Seq<Option<Seq<char>>>) -> Result<
    Seq<char>,
    Failure,
> {
    match babyface_from(card_entries(lines(cards)), usb_ids, 0) {
        Some(name) => Ok(name),
        None => Err(not_found("No RME Babyface Pro found"@)),
    }
}

/// The texts, each taken by its view.
pub open spec fn optional_views(texts: Seq<Option<String>>) -> Seq<Option<Seq<char>>> {
    texts.map_values(
        |t: Option<String>|
            match t {
                Some(s) => Some(s@),
                None => None,
            },
    )
}

/// The entry lines of the kernel's card list.
fn entries_of(cards: &str) -> (r: Vec<Vec<char>>)
    ensures
        views(r@) == card_entries(lines(cards@)),
        forall|k: int| 0 <= k < r@.len() ==> tokens(#[trigger] r@[k]@).len() >= 1,
{
    let text = chars_of(cards);
    let ls = split_lines(&text);
    let mut r: Vec<Vec<char>> = Vec::new();
    let mut i: usize = 0;
    proof {
        assert(lines(cards@).skip(0) == lines(cards@));
        assert(views(r@) + card_entries(lines(cards@)) == card_entries(lines(cards@)));
    }
    while i < ls.len()
        invariant
            i <= ls.len(),
            views(ls@) == lines(cards@),
            card_entries(lines(cards@)) == views(r@) + card_entries(lines(cards@).skip(i as int)),
            forall|k: int| 0 <= k < r@.len() ==> tokens(#[trigger] r@[k]@).len() >= 1,
        decreases ls.len() - i,
    {
        let line = &ls[i];
        let words = split_words(line);
        let ghost rest = lines(cards@).skip(i as int);
        let ghost before = r@;
        let step: usize = if ls.len() - i >= 2 {
            2
        } else {
            1
        };
        proof {
            assert(rest[0] == line@);
            assert(rest.skip(step as int) == lines(cards@).skip(i + step));
        }
        if words.len() >= 1 {
            r.push(line.clone());
            proof {
                assert(views(r@) == views(before) + seq![line@]);
                assert(views(r@) + card_entries(rest.skip(step as int)) == views(before) + (
                seq![line@] + card_entries(rest.skip(step as int))));
            }
        }
        i += step;
    }
    proof {
        assert(views(r@) + Seq::<Seq<char>>::empty() == views(r@));
    }
    r
}

/// The files to read before `find_babyface_card` is called: for each card
/// in the kernel's card list `cards`, the one that holds its USB
/// identifier.
pub fn usb_id_paths(cards: &str) -> (r: Vec<String>)
    ensures
        r@.len() == card_entries(lines(cards@)).len(),
        forall|k: int|
            0 <= k < r@.len() ==> (#[trigger] r@[k])@ == usb_id_path(
                entry_index(card_entries(lines(cards@))[k]),
            ),
{
    let entries = entries_of(cards);
    let mut r: Vec<String> = Vec::new();
    let mut i: usize = 0;
    while i < entries.len()
        invariant
            i <= entries.len(),
            r@.len() == i,
            views(entries@) == card_entries(lines(cards@)),
            forall|k: int| 0 <= k < entries@.len() ==> tokens(#[trigger] entries@[k]@).len() >= 1,
            forall|k: int|
                0 <= k < i ==> (#[trigger] r@[k])@ == usb_id_path(
                    entry_index(card_entries(lines(cards@))[k]),
                ),
        decreases entries.len() - i,
    {
        let words = split_words(&entries[i]);
        assert(tokens(entries@[i as int]@).len() >= 1);
        assert(entries@[i as int]@ == card_entries(lines(cards@))[i as int]);
        let index = string_of(&words[0]);
        let mut path = "/proc/asound/card".to_string();
        path.append(index.as_str());
        path.append("/usbid");
        r.push(path);
        i += 1;
    }
    r
}

/// The name that `line` gives in square brackets.
fn name_in_brackets(line: &Vec<char>) -> (r: Option<Vec<char>>)
    ensures
        match r {
            Some(n) => bracketed_name(line@) == Some(n@),
            None => bracketed_name(line@) is None,
        },
{
    let parts = split_chars(line, '[');
    if parts.len() >= 2 {
        let inner = split_chars(&parts[1], ']');
        proof {
            crate::text::lemma_split_len(parts[1]@, ']');
            assert(parts[1]@ == split(line@, '[')[1]);
            assert(inner[0]@ == split(parts[1]@, ']')[0]);
        }
        Some(inner[0].clone())
    } else {
        None
    }
}

/// The name under which the kernel lists the interface. `cards` is the
/// kernel's card list; `usb_ids` holds, for each of the files that
/// `usb_id_paths` names, its content, or `None` where it could not be
/// read.
pub fn find_babyface_card(cards: &str, usb_ids: &[Option<String>]) -> (r: Result<
    String,
    ControlError,
>)
    ensures
        text_result(r) == babyface_card(cards@, optional_views(usb_ids@)),
{
    let entries = entries_of(cards);
    let wanted = chars_of("2a39:3fb0");
    let ghost es = card_entries(lines(cards@));
    let ghost ids = optional_views(usb_ids@);
    let mut k: usize = 0;
    while k < entries.len()
        invariant
            k <= entries.len(),
            views(entries@) == es,
            es == card_entries(lines(cards@)),
            ids == optional_views(usb_ids@),
            wanted@ == babyface_usb_id(),
            babyface_from(es, ids, 0) == babyface_from(es, ids, k as int),
        decreases entries.len() - k,
    {
        assert(entries@[k as int]@ == es[k as int]);
        if k < usb_ids.len() {
            if let Some(id) = &usb_ids[k] {
                let id_chars = chars_of(id.as_str());
                let id_trimmed = trimmed(&id_chars);
                if crate::text::equal(&id_trimmed, &wanted) {
                    if let Some(name) = name_in_brackets(&entries[k]) {
                        let name_trimmed = trimmed(&name);
                        return Ok(string_of(&name_trimmed));
                    }
                }
            }
        }
        k += 1;
    }
    Err(ControlError::new(ErrorKind::NotFound, "No RME Babyface Pro found".to_string()))
}

/// The command that asks the mixer for the state of a control.
pub open spec fn mixer_get(card_index: Seq<char>, control_name: Seq<char>) -> InvocationView {
    invocation("amixer"@, seq!["-c"@, card_index, "get"@, control_name])
}

/// The command that sets a control of the mixer to `value`.
pub open spec fn mixer_set(
    card_index: Seq<char>,
    control_name: Seq<char>,
    value: Seq<char>,
) -> InvocationView {
    invocation("amixer"@, seq!["-c"@, card_index, "set"@, control_name, value])
}

/// The command that asks the mixer for the state of a control.
pub fn mixer_get_command(card_index: &str, control_name: &str) -> (c: Invocation)
    ensures
        c@ == mixer_get(card_index@, control_name@),
{
    let c = Invocation::new("amixer").arg("-c").arg(card_index).arg("get").arg(control_name);
    assert(c@.args =~= seq!["-c"@, card_index@, "get"@, control_name@]);
    c
}

/// The command that sets a control of the mixer to `value`.
pub fn mixer_set_command(card_index: &str, control_name: &str, value: &str) -> (c: Invocation)
    ensures
        c@ == mixer_set(card_index@, control_name@, value@),
{
    let c = Invocation::new("amixer").arg("-c").arg(card_index).arg("set").arg(control_name).arg(
        value,
    );
    assert(c@.args =~= seq!["-c"@, card_index@, "set"@, control_name@, value@]);
    c
}

/// The value of a control in the mixer's own units, read off what came of
/// asking the mixer for it.
pub open spec fn value_reading(answer: LaunchView) -> Result<i32, Failure> {
    match checked_output_of(answer, ""@) {
        Err(e) => Err(e),
        Ok(text) => captured_number(last_group(regex_captures(value_pattern(), text))),
    }
}

/// The value of a control in the mixer's own units, read off what came of
/// asking the mixer for it.
pub fn read_value(answer: &Launch) -> (r: Result<i32, ControlError>)
    ensures
        value_result(r) == value_reading(answer@),
{
    match answer.checked_output("") {
        Err(e) => Err(e),
        Ok(text) => parse_value_from_amixer_output(text),
    }
}

/// The name of the control that routes `source` to `destination`.
pub open spec fn route_name(source: Seq<char>, destination: Seq<char>) -> Seq<char> {
    source + "-"@ + destination
}

/// The name of the control that routes `source` to `destination`.
pub fn route_control(source: &str, destination: &str) -> (r: String)
    ensures
        r@ == route_name(source@, destination@),
{
    let mut r = source.to_string();
    r.append("-");
    r.append(destination);
    r
}

} // verus!

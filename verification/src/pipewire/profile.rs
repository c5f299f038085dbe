//! The profiles of a card.

use crate::command::{
    answer_write, invocation, launch_views, output_of, single_step, text_step, value_step,
    write_step, Invocation, InvocationView, Launch, LaunchView, Step,
};
use crate::error::{not_found, text_result, ControlError, ErrorKind, Failure};
use crate::pattern::{captures, captures_view, group_at, group_text, regex_captures};
use crate::text::{begins_with, chars_of, lines, lines_of, starts_with, string_views};
use vstd::prelude::*;

verus! {

/// The header of the section of the card `card_id`.
pub open spec fn card_header(card_id: Seq<char>) -> Seq<char> {
    "Card #"@ + card_id
}

/// The pattern of the line that names the active profile.
pub open spec fn active_profile_pattern() -> Seq<char> {
    "Active Profile: (.+)"@
}

/// The pattern of a line that describes an available profile.
pub open spec fn profile_pattern() -> Seq<char> {
    "\\s+(.+):\\s.+\\s\\(sinks:.+sources:.+\\spriority:.+\\savailable: (yes|no)\\)"@
}

/// Whether `line` begins the section of some card.
pub open spec fn is_card_header(line: Seq<char>) -> bool {
    starts_with(line, "Card #"@)
}

/// Whether `line` is the header of the section of the card `card_id`:
/// the header of that card, and nothing before or behind it. The
/// identifier is taken as text.
pub open spec fn is_header_of(line: Seq<char>, card_id: Seq<char>) -> bool {
    line == card_header(card_id)
}

/// The lines of the section of the card `card_id` in a card list, from
/// line `i` on. `inside` tells whether line `i` follows a header of the
/// card with no header of another card between them. The section begins
/// behind a header of the card and ends before the header of another
/// card; what follows it is not read.
pub open spec fn section_from(
    lines: Seq<Seq<char>>,
    card_id: Seq<char>,
    i: int,
    inside: bool,
) -> Seq<Seq<char>>
    decreases lines.len() - i,
{
    if i < 0 || i >= lines.len() {
        seq![]
    } else if is_header_of(lines[i], card_id) {
        section_from(lines, card_id, i + 1, true)
    } else if inside && is_card_header(lines[i]) {
        seq![]
    } else if inside {
        seq![lines[i]] + section_from(lines, card_id, i + 1, true)
    } else {
        section_from(lines, card_id, i + 1, false)
    }
}

/// The lines of the section of the card `card_id` in a card list.
pub open spec fn section_of(lines: Seq<Seq<char>>, card_id: Seq<char>) -> Seq<Seq<char>> {
    section_from(lines, card_id, 0, false)
}

/// The header of a card begins the section of a card.
pub proof fn lemma_header_is_card_header(card_id: Seq<char>)
    ensures
        is_card_header(card_header(card_id)),
{
    let prefix = "Card #"@;
    assert(card_header(card_id).subrange(0, prefix.len() as int) =~= prefix);
}

/// A header is the header of one card only: the header of the card `42`
/// is none of the card `4`.
pub proof fn lemma_header_names_one_card(line: Seq<char>, card_id: Seq<char>, other: Seq<char>)
    requires
        is_header_of(line, card_id),
        is_header_of(line, other),
    ensures
        card_id == other,
{
    let prefix = "Card #"@;
    assert(card_id =~= card_header(card_id).skip(prefix.len() as int));
    assert(other =~= card_header(other).skip(prefix.len() as int));
}

/// Whether line `j` is no header of any card.
pub open spec fn is_inner_line(lines: Seq<Seq<char>>, j: int) -> bool {
    !is_card_header(lines[j])
}

proof fn lemma_section_inside(lines: Seq<Seq<char>>, card_id: Seq<char>, k: int, e: int)
    requires
        0 <= k <= e <= lines.len(),
        forall|j: int| k <= j < e ==> #[trigger] is_inner_line(lines, j),
        e < lines.len() ==> !is_header_of(lines[e], card_id) && is_card_header(lines[e]),
    ensures
        section_from(lines, card_id, k, true) == lines.subrange(k, e),
    decreases e - k,
{
    lemma_header_is_card_header(card_id);
    if k < e {
        lemma_section_inside(lines, card_id, k + 1, e);
        assert(is_inner_line(lines, k));
        assert(lines.subrange(k, e) == seq![lines[k]] + lines.subrange(k + 1, e));
    } else {
        assert(lines.subrange(k, e) == Seq::<Seq<char>>::empty());
    }
}

proof fn lemma_section_outside(lines: Seq<Seq<char>>, card_id: Seq<char>, i: int, h: int)
    requires
        0 <= i <= h < lines.len(),
        is_header_of(lines[h], card_id),
        forall|j: int| i <= j < h ==> !is_header_of(#[trigger] lines[j], card_id),
    ensures
        section_from(lines, card_id, i, false) == section_from(lines, card_id, h + 1, true),
    decreases h - i,
{
    if i < h {
        lemma_section_outside(lines, card_id, i + 1, h);
    }
}

/// The section of a card is what stands between the first header of the
/// card and the header of another card that follows it, or the end,
/// where no header stands in between.
pub proof fn lemma_section_between_headers(
    lines: Seq<Seq<char>>,
    card_id: Seq<char>,
    h: int,
    e: int,
)
    requires
        0 <= h < e <= lines.len(),
        is_header_of(lines[h], card_id),
        forall|j: int| 0 <= j < h ==> !is_header_of(#[trigger] lines[j], card_id),
        forall|j: int| h < j < e ==> #[trigger] is_inner_line(lines, j),
        e < lines.len() ==> !is_header_of(lines[e], card_id) && is_card_header(lines[e]),
    ensures
        section_of(lines, card_id) == lines.subrange(h + 1, e),
{
    lemma_section_outside(lines, card_id, 0, h);
    lemma_section_inside(lines, card_id, h + 1, e);
}

proof fn lemma_section_never_entered(lines: Seq<Seq<char>>, card_id: Seq<char>, i: int)
    requires
        0 <= i <= lines.len(),
        forall|j: int| 0 <= j < lines.len() ==> !is_header_of(#[trigger] lines[j], card_id),
    ensures
        section_from(lines, card_id, i, false) == Seq::<Seq<char>>::empty(),
    decreases lines.len() - i,
{
    if i < lines.len() {
        lemma_section_never_entered(lines, card_id, i + 1);
    }
}

/// Where no line is the header of the card, the card has no section,
/// whatever the headers of other cards hold.
pub proof fn lemma_section_of_unlisted_card(lines: Seq<Seq<char>>, card_id: Seq<char>)
    requires
        forall|j: int| 0 <= j < lines.len() ==> !is_header_of(#[trigger] lines[j], card_id),
    ensures
        section_of(lines, card_id) == Seq::<Seq<char>>::empty(),
{
    lemma_section_never_entered(lines, card_id, 0);
}

/// What group 1 holds in the first of `found` in which it holds
/// something.
pub open spec fn first_group_one(found: Seq<Option<Seq<Option<Seq<char>>>>>) -> Option<Seq<char>>
    decreases found.len(),
{
    if found.len() == 0 {
        None
    } else if group_at(found[0], 1) is Some {
        group_at(found[0], 1)
    } else {
        first_group_one(found.skip(1))
    }
}

/// What group 1 holds in each of `found` in which it holds something, in
/// order.
pub open spec fn every_group_one(found: Seq<Option<Seq<Option<Seq<char>>>>>) -> Seq<Seq<char>>
    decreases found.len(),
{
    if found.len() == 0 {
        seq![]
    } else {
        match group_at(found.last(), 1) {
            Some(text) => every_group_one(found.drop_last()).push(text),
            None => every_group_one(found.drop_last()),
        }
    }
}

/// For each of `lines`, what `pattern` captures in it.
pub open spec fn captures_of_lines(pattern: Seq<char>, lines: Seq<Seq<char>>) -> Seq<
    Option<Seq<Option<Seq<char>>>>,
> {
    Seq::new(lines.len(), |i: int| regex_captures(pattern, lines[i]))
}

/// The lines of the section of the card `card_id` in the card list
/// `text`.
pub open spec fn card_section_in(text: Seq<char>, card_id: Seq<char>) -> Seq<Seq<char>> {
    section_of(lines(text), card_id)
}

/// The active profile of the card `card_id` in the card list `text`.
pub open spec fn active_profile_in(text: Seq<char>, card_id: Seq<char>) -> Option<Seq<char>> {
    first_group_one(captures_of_lines(active_profile_pattern(), card_section_in(text, card_id)))
}

/// The profiles of the card `card_id` in the card list `text`.
pub open spec fn profiles_in(text: Seq<char>, card_id: Seq<char>) -> Seq<Seq<char>> {
    every_group_one(captures_of_lines(profile_pattern(), card_section_in(text, card_id)))
}

/// The captures of several lines as the contracts speak of them.
pub open spec fn found_views(found: Seq<Option<Vec<Option<String>>>>) -> Seq<
    Option<Seq<Option<Seq<char>>>>,
> {
    found.map_values(|c: Option<Vec<Option<String>>>| captures_view(c))
}

/// The lines of the section of the card `card_id` among `lines`.
pub fn card_section(lines: &Vec<String>, card_id: &str) -> (r: Vec<String>)
    ensures
        string_views(r@) == section_of(string_views(lines@), card_id@),
{
    let prefix = chars_of("Card #");
    let mut header = "Card #".to_string();
    header.append(card_id);
    let ghost all = string_views(lines@);
    let mut r: Vec<String> = Vec::new();
    let mut inside = false;
    let mut i: usize = 0;
    proof {
        assert(string_views(r@) + section_of(all, card_id@) == section_of(all, card_id@));
    }
    while i < lines.len()
        invariant
            i <= lines.len(),
            all == string_views(lines@),
            prefix@ == "Card #"@,
            header@ == card_header(card_id@),
            section_of(all, card_id@) == string_views(r@) + section_from(
                all,
                card_id@,
                i as int,
                inside,
            ),
        decreases lines.len() - i,
    {
        proof {
            assert(all[i as int] == lines@[i as int]@);
        }
        if lines[i] == header {
            inside = true;
        } else if inside {
            let line = chars_of(lines[i].as_str());
            if begins_with(&line, &prefix) {
                proof {
                    assert(string_views(r@) + Seq::<Seq<char>>::empty() == string_views(r@));
                }
                return r;
            }
            let ghost before = r@;
            r.push(lines[i].clone());
            proof {
                assert(string_views(r@) == string_views(before) + seq![all[i as int]]);
                assert(string_views(r@) + section_from(all, card_id@, i + 1, true) == string_views(
                    before,
                ) + (seq![all[i as int]] + section_from(all, card_id@, i + 1, true)));
            }
        }
        i += 1;
    }
    proof {
        assert(string_views(r@) + Seq::<Seq<char>>::empty() == string_views(r@));
    }
    r
}

/// What group 1 holds in the first of `found` in which it holds
/// something.
pub fn first_capture(found: &Vec<Option<Vec<Option<String>>>>) -> (r: Option<String>)
    ensures
        match r {
            Some(text) => first_group_one(found_views(found@)) == Some(text@),
            None => first_group_one(found_views(found@)) is None,
        },
{
    let ghost all = found_views(found@);
    let mut i: usize = 0;
    proof {
        assert(all.skip(0) == all);
    }
    while i < found.len()
        invariant
            i <= found.len(),
            all == found_views(found@),
            first_group_one(all) == first_group_one(all.skip(i as int)),
        decreases found.len() - i,
    {
        proof {
            assert(all.skip(i as int)[0] == captures_view(found@[i as int]));
            assert(all.skip(i as int).skip(1) == all.skip(i + 1));
        }
        match group_text(&found[i], 1) {
            Some(text) => {
                return Some(text.clone());
            },
            None => {},
        }
        i += 1;
    }
    None
}

/// What group 1 holds in each of `found` in which it holds something.
pub fn all_captures(found: &Vec<Option<Vec<Option<String>>>>) -> (r: Vec<String>)
    ensures
        string_views(r@) == every_group_one(found_views(found@)),
{
    let ghost all = found_views(found@);
    let mut r: Vec<String> = Vec::new();
    let mut i: usize = 0;
    proof {
        assert(string_views(r@) =~= every_group_one(all.take(0)));
    }
    while i < found.len()
        invariant
            i <= found.len(),
            all == found_views(found@),
            string_views(r@) == every_group_one(all.take(i as int)),
        decreases found.len() - i,
    {
        proof {
            assert(all.take(i + 1).drop_last() == all.take(i as int));
            assert(all.take(i + 1).last() == captures_view(found@[i as int]));
        }
        match group_text(&found[i], 1) {
            Some(text) => {
                let ghost before = r@;
                r.push(text.clone());
                proof {
                    assert(string_views(r@) =~= string_views(before).push(text@));
                }
            },
            None => {},
        }
        i += 1;
    }
    proof {
        assert(all.take(i as int) == all);
    }
    r
}

/// Matches `pattern` against each of `lines`.
fn capture_lines(pattern: &str, lines: &Vec<String>) -> (r: Vec<Option<Vec<Option<String>>>>)
    ensures
        found_views(r@) == captures_of_lines(pattern@, string_views(lines@)),
{
    let mut r: Vec<Option<Vec<Option<String>>>> = Vec::new();
    let mut i: usize = 0;
    while i < lines.len()
        invariant
            i <= lines.len(),
            r@.len() == i,
            forall|k: int|
                0 <= k < i ==> captures_view(#[trigger] r@[k]) == regex_captures(
                    pattern@,
                    lines@[k]@,
                ),
        decreases lines.len() - i,
    {
        r.push(captures(pattern, lines[i].as_str()));
        i += 1;
    }
    proof {
        assert(found_views(r@) =~= captures_of_lines(pattern@, string_views(lines@)));
    }
    r
}

/// The lines of the section of the card `card_id` in the card list
/// `text`.
fn section_in(text: &str, card_id: &str) -> (r: Vec<String>)
    ensures
        string_views(r@) == card_section_in(text@, card_id@),
{
    let ls = lines_of(text);
    card_section(&ls, card_id)
}

/// The command that lists the cards of the audio server in full.
pub open spec fn full_card_listing() -> InvocationView {
    invocation("pactl"@, seq!["list"@, "cards"@])
}

/// The command that lists the cards of the audio server in full.
pub fn full_card_listing_command() -> (c: Invocation)
    ensures
        c@ == full_card_listing(),
{
    let c = Invocation::new("pactl").arg("list").arg("cards");
    assert(c@.args =~= seq!["list"@, "cards"@]);
    c
}

/// The active profile of a card, read off what came of listing the
/// cards. The exit status of the listing is not looked at.
pub open spec fn active_profile_reading(card_id: Seq<char>, listing: LaunchView) -> Result<
    Seq<char>,
    Failure,
> {
    match output_of(listing, "Failed to execute pactl: "@) {
        Err(e) => Err(e),
        Ok(text) => match active_profile_in(text, card_id) {
            Some(profile) => Ok(profile),
            None => Err(not_found("Could not find active profile for card id: "@ + card_id)),
        },
    }
}

/// The profiles of a card, read off what came of listing the cards. The
/// exit status of the listing is not looked at. A card without profiles
/// counts as not found.
pub open spec fn profiles_reading(card_id: Seq<char>, listing: LaunchView) -> Result<
    Seq<Seq<char>>,
    Failure,
> {
    match output_of(listing, "Failed to execute pactl: "@) {
        Err(e) => Err(e),
        Ok(text) => if profiles_in(text, card_id).len() == 0 {
            Err(not_found("Could not find profiles for card id: "@ + card_id))
        } else {
            Ok(profiles_in(text, card_id))
        },
    }
}

/// The active profile of a card, read off what came of listing the
/// cards.
pub fn read_active_profile(card_id: &str, listing: &Launch) -> (r: Result<String, ControlError>)
    ensures
        text_result(r) == active_profile_reading(card_id@, listing@),
{
    match listing.output("Failed to execute pactl: ") {
        Err(e) => Err(e),
        Ok(text) => {
            let section = section_in(text, card_id);
            let found = capture_lines("Active Profile: (.+)", &section);
            match first_capture(&found) {
                Some(profile) => Ok(profile),
                None => Err(
                    ControlError::prefixed(
                        ErrorKind::NotFound,
                        "Could not find active profile for card id: ",
                        card_id,
                    ),
                ),
            }
        },
    }
}

/// The profiles of a card, read off what came of listing the cards.
pub fn read_profiles(card_id: &str, listing: &Launch) -> (r: Result<Vec<String>, ControlError>)
    ensures
        match r {
            Ok(profiles) => profiles_reading(card_id@, listing@) == Ok::<Seq<Seq<char>>, Failure>(
                string_views(profiles@),
            ),
            Err(e) => profiles_reading(card_id@, listing@) == Err::<Seq<Seq<char>>, Failure>(e@),
        },
{
    match listing.output("Failed to execute pactl: ") {
        Err(e) => Err(e),
        Ok(text) => {
            let section = section_in(text, card_id);
            let found = capture_lines(
                "\\s+(.+):\\s.+\\s\\(sinks:.+sources:.+\\spriority:.+\\savailable: (yes|no)\\)",
                &section,
            );
            let profiles = all_captures(&found);
            if profiles.len() == 0 {
                Err(
                    ControlError::prefixed(
                        ErrorKind::NotFound,
                        "Could not find profiles for card id: ",
                        card_id,
                    ),
                )
            } else {
                Ok(profiles)
            }
        },
    }
}

/// The active profile of the card `card_id`.
pub fn get_active_profile(card_id: &str, outcomes: &[Launch]) -> (r: Step<String>)
    ensures
        text_step(r) == single_step(
            full_card_listing(),
            launch_views(outcomes@),
            |listing: LaunchView| active_profile_reading(card_id@, listing),
        ),
{
    if outcomes.len() == 0 {
        Step::Run(full_card_listing_command())
    } else {
        Step::Done(read_active_profile(card_id, &outcomes[0]))
    }
}

/// The command that makes `profile` the active profile of a card.
pub open spec fn profile_setting(card_id: Seq<char>, profile: Seq<char>) -> InvocationView {
    invocation("pactl"@, seq!["set-card-profile"@, card_id, profile])
}

/// Makes `profile` the active profile of the card `card_id`.
pub fn set_profile(card_id: &str, profile: &str, outcomes: &[Launch]) -> (r: Step<()>)
    ensures
        value_step(r) == write_step(
            profile_setting(card_id@, profile@),
            launch_views(outcomes@),
            "Failed to execute pactl: "@,
        ),
{
    let c = Invocation::new("pactl").arg("set-card-profile").arg(card_id).arg(profile);
    assert(c@.args =~= seq!["set-card-profile"@, card_id@, profile@]);
    answer_write(c, outcomes, "Failed to execute pactl: ")
}

/// The profiles of the card `card_id`, in the order of the listing.
pub fn get_profiles(card_id: &str, outcomes: &[Launch]) -> (r: Step<Vec<String>>)
    ensures
        match r {
            Step::Run(c) => outcomes@.len() == 0 && c@ == full_card_listing(),
            Step::Done(Ok(profiles)) => outcomes@.len() > 0 && profiles_reading(
                card_id@,
                outcomes@[0]@,
            ) == Ok::<Seq<Seq<char>>, Failure>(string_views(profiles@)),
            Step::Done(Err(e)) => outcomes@.len() > 0 && profiles_reading(card_id@, outcomes@[0]@)
                == Err::<Seq<Seq<char>>, Failure>(e@),
        },
{
    if outcomes.len() == 0 {
        Step::Run(full_card_listing_command())
    } else {
        Step::Done(read_profiles(card_id, &outcomes[0]))
    }
}

} // verus!

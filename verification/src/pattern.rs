//! Regular expressions, matched by the `regex` crate.

use vstd::prelude::*;

verus! {

/// What the first match of the regular expression `pattern` in `haystack`
/// captures: one entry for each group of the pattern, the whole match
/// first, each the text that the group matched, or `None` where the group
/// took no part. `None` where the pattern matches nowhere in `haystack`,
/// or is no regular expression that the crate accepts.
pub uninterp spec fn regex_captures(pattern: Seq<char>, haystack: Seq<char>) -> Option<
    Seq<Option<Seq<char>>>,
>;

/// The captured groups, each text taken by its view.
pub open spec fn group_views(groups: Seq<Option<String>>) -> Seq<Option<Seq<char>>> {
    groups.map_values(
        |g: Option<String>|
            match g {
                Some(s) => Some(s@),
                None => None,
            },
    )
}

/// The captures as the contracts speak of them.
pub open spec fn captures_view(captures: Option<Vec<Option<String>>>) -> Option<
    Seq<Option<Seq<char>>>,
> {
    match captures {
        Some(groups) => Some(group_views(groups@)),
        None => None,
    }
}

/// Compiles `pattern` with `regex::Regex::new` and searches `haystack`
/// with `Regex::captures`. The contract claims only that the groups handed
/// back are the ones that this pair of calls yields for these two texts,
/// which is what `regex_captures` names; a pattern that `Regex::new`
/// refuses gives `None`, as a haystack without a match does.
#[verifier::external_body]
pub(crate) fn captures(pattern: &str, haystack: &str) -> (r: Option<Vec<Option<String>>>)
    ensures
        captures_view(r) == regex_captures(pattern@, haystack@),
{
    let re = match regex::Regex::new(pattern) {
        Ok(re) => re,
        Err(_) => return None,
    };
    let found = re.captures(haystack)?;
    Some(found.iter().map(|g| g.map(|m| m.as_str().to_string())).collect())
}

/// What group `i` of the captures holds: `None` where nothing matched,
/// where there is no such group, or where the group took no part.
pub open spec fn group_at(captures: Option<Seq<Option<Seq<char>>>>, i: int) -> Option<Seq<char>> {
    match captures {
        Some(groups) => if 0 <= i < groups.len() {
            groups[i]
        } else {
            None
        },
        None => None,
    }
}

/// What the last group of the captures holds.
pub open spec fn last_group(captures: Option<Seq<Option<Seq<char>>>>) -> Option<Seq<char>> {
    match captures {
        Some(groups) => group_at(captures, groups.len() - 1),
        None => None,
    }
}

/// The text that group `i` of `captures` holds.
pub fn group_text(captures: &Option<Vec<Option<String>>>, i: usize) -> (r: Option<&String>)
    ensures
        match r {
            Some(s) => group_at(captures_view(*captures), i as int) == Some(s@),
            None => group_at(captures_view(*captures), i as int) is None,
        },
{
    match captures {
        Some(groups) => if i < groups.len() {
            groups[i].as_ref()
        } else {
            None
        },
        None => None,
    }
}

/// The text that the last group of `captures` holds.
pub fn last_group_text(captures: &Option<Vec<Option<String>>>) -> (r: Option<&String>)
    ensures
        match r {
            Some(s) => last_group(captures_view(*captures)) == Some(s@),
            None => last_group(captures_view(*captures)) is None,
        },
{
    match captures {
        Some(groups) => if groups.len() > 0 {
            group_text(captures, groups.len() - 1)
        } else {
            None
        },
        None => None,
    }
}

} // verus!

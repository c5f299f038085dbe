//! Cards, and the identifiers of the objects of the graph.

use crate::command::{
    invocation, launch_views, output_of, single_step, text_step, Invocation, InvocationView,
    Launch, LaunchView, Step,
};
use crate::decimal::{is_numeral, numeral};
use crate::error::{not_found, text_result, ControlError, ErrorKind, Failure};
use crate::text::{
    begins_with, chars_of, contains, equal, first_where, includes, lemma_first_where_unique, lines,
    split_lines, split_words, starts_with, string_of, strip_around, strip_both, tokens, trim,
    trimmed, views,
};
use vstd::prelude::*;

verus! {

/// What the reading of a dump of the graph holds of the object it is in:
/// the identifier of the object, and the node identifier and the port
/// name that its properties have given so far.
pub struct PortScan {
    pub object: Option<Seq<char>>,
    pub node: Option<Seq<char>>,
    pub port: Option<Seq<char>>,
}

/// The identifiers that a port name resolves to.
#[derive(Clone, Debug, PartialEq, Eq)]
pub struct PortIds {
    pub object_id: String,
    pub node_id: Option<String>,
}

/// The identifiers as sequences of characters.
pub struct PortIdsView {
    pub object_id: Seq<char>,
    pub node_id: Option<Seq<char>>,
}

impl View for PortIds {
    type V = PortIdsView;

    open spec fn view(&self) -> PortIdsView {
        PortIdsView {
            object_id: self.object_id@,
            node_id: match self.node_id {
                Some(n) => Some(n@),
                None => None,
            },
        }
    }
}

/// Whether `line` announces a new object.
pub open spec fn is_object_line(line: Seq<char>) -> bool {
    starts_with(trim(line), "id: "@)
}

/// The identifier that an object line announces: its second word; empty
/// where the line has one word only.
pub open spec fn announced_id(line: Seq<char>) -> Seq<char> {
    let words = tokens(line);
    if words.len() >= 2 {
        words[1]
    } else {
        Seq::empty()
    }
}

/// The value of a property line: its last word, without the quotation
/// marks around it.
pub open spec fn property_value(line: Seq<char>) -> Option<Seq<char>> {
    let words = tokens(line);
    if words.len() >= 1 {
        Some(strip_both(words.last(), '"'))
    } else {
        None
    }
}

/// Whether `line` gives the node identifier to a reading that keeps track
/// of it: it speaks of `node.id`.
pub open spec fn gives_node(line: Seq<char>, with_node: bool) -> bool {
    with_node && contains(line, "node.id"@)
}

/// Whether `line` gives the port name: it speaks of `port.name` and does
/// not give the node identifier.
pub open spec fn gives_port(line: Seq<char>, with_node: bool) -> bool {
    !gives_node(line, with_node) && contains(line, "port.name"@)
}

/// The reading after one more line. An object line starts a new object
/// and forgets node and port; it may give the one or the other itself.
/// Outside of any object, no line gives anything.
pub open spec fn port_step(scan: PortScan, line: Seq<char>, with_node: bool) -> PortScan {
    let entered = if is_object_line(line) {
        PortScan { object: Some(announced_id(line)), node: None, port: None }
    } else {
        scan
    };
    if entered.object is None {
        entered
    } else if gives_node(line, with_node) {
        PortScan { node: property_value(line), ..entered }
    } else if gives_port(line, with_node) {
        PortScan { port: property_value(line), ..entered }
    } else {
        entered
    }
}

/// Whether the object that the reading is in carries the port `target`,
/// and a node identifier where one is asked for.
pub open spec fn scan_matches(scan: PortScan, target: Seq<char>, with_node: bool) -> bool {
    &&& scan.object is Some
    &&& scan.port == Some(target)
    &&& with_node ==> scan.node is Some
}

/// The first object among `lines` that carries the port `target`, the
/// reading being at `scan` before them. An object ends where the next one
/// is announced, or with the last line.
pub open spec fn resolve_from(
    scan: PortScan,
    lines: Seq<Seq<char>>,
    target: Seq<char>,
    with_node: bool,
) -> Option<PortIdsView>
    decreases lines.len(),
{
    if (lines.len() == 0 || is_object_line(lines[0])) && scan_matches(scan, target, with_node) {
        Some(PortIdsView { object_id: scan.object.unwrap(), node_id: scan.node })
    } else if lines.len() == 0 {
        None
    } else {
        resolve_from(port_step(scan, lines[0], with_node), lines.skip(1), target, with_node)
    }
}

/// The identifiers of the first object in the dump `info` that carries
/// the port `target`.
pub open spec fn resolve_port(info: Seq<char>, target: Seq<char>, with_node: bool) -> Option<
    PortIdsView,
> {
    resolve_from(
        PortScan { object: None, node: None, port: None },
        lines(info),
        target,
        with_node,
    )
}

/// The reading after the first `n` of `lines`.
pub open spec fn scan_at(lines: Seq<Seq<char>>, n: int, with_node: bool) -> PortScan
    decreases n,
{
    if n <= 0 || n > lines.len() {
        PortScan { object: None, node: None, port: None }
    } else {
        port_step(scan_at(lines, n - 1, with_node), lines[n - 1], with_node)
    }
}

/// Whether an object ends before line `n`: the line announces the next
/// object, or the lines end there.
pub open spec fn is_boundary(lines: Seq<Seq<char>>, n: int) -> bool {
    0 <= n <= lines.len() && (n == lines.len() || is_object_line(lines[n]))
}

/// Whether the object that ends before line `n` carries the port
/// `target`.
pub open spec fn carries_at(
    lines: Seq<Seq<char>>,
    n: int,
    target: Seq<char>,
    with_node: bool,
) -> bool {
    is_boundary(lines, n) && scan_matches(scan_at(lines, n, with_node), target, with_node)
}

proof fn lemma_resolve_from_boundary(
    lines: Seq<Seq<char>>,
    target: Seq<char>,
    with_node: bool,
    i: int,
    n: int,
)
    requires
        0 <= i <= n <= lines.len(),
        carries_at(lines, n, target, with_node),
        forall|m: int| i <= m < n ==> !carries_at(lines, m, target, with_node),
    ensures
        resolve_from(scan_at(lines, i, with_node), lines.skip(i), target, with_node) == Some(
            PortIdsView {
                object_id: scan_at(lines, n, with_node).object.unwrap(),
                node_id: scan_at(lines, n, with_node).node,
            },
        ),
    decreases n - i,
{
    let rest = lines.skip(i);
    if i < n {
        assert(!carries_at(lines, i, target, with_node));
        assert(rest[0] == lines[i]);
        assert(rest.skip(1) == lines.skip(i + 1));
        lemma_resolve_from_boundary(lines, target, with_node, i + 1, n);
    } else if i < lines.len() {
        assert(rest[0] == lines[i]);
    }
}

proof fn lemma_resolve_from_nothing(
    lines: Seq<Seq<char>>,
    target: Seq<char>,
    with_node: bool,
    i: int,
)
    requires
        0 <= i <= lines.len(),
        forall|m: int| i <= m <= lines.len() ==> !carries_at(lines, m, target, with_node),
    ensures
        resolve_from(scan_at(lines, i, with_node), lines.skip(i), target, with_node) is None,
    decreases lines.len() - i,
{
    let rest = lines.skip(i);
    assert(!carries_at(lines, i, target, with_node));
    if i < lines.len() {
        assert(rest[0] == lines[i]);
        assert(rest.skip(1) == lines.skip(i + 1));
        lemma_resolve_from_nothing(lines, target, with_node, i + 1);
    }
}

/// A port resolves to the first object of the dump that carries it: to
/// what the reading holds where that object ends.
pub proof fn lemma_resolves_to_first_object(
    info: Seq<char>,
    target: Seq<char>,
    with_node: bool,
    n: int,
)
    requires
        carries_at(lines(info), n, target, with_node),
        forall|m: int| 0 <= m < n ==> !carries_at(lines(info), m, target, with_node),
    ensures
        resolve_port(info, target, with_node) == Some(
            PortIdsView {
                object_id: scan_at(lines(info), n, with_node).object.unwrap(),
                node_id: scan_at(lines(info), n, with_node).node,
            },
        ),
{
    assert(lines(info).skip(0) == lines(info));
    lemma_resolve_from_boundary(lines(info), target, with_node, 0, n);
}

/// A port that no object of the dump carries does not resolve.
pub proof fn lemma_resolves_to_nothing(info: Seq<char>, target: Seq<char>, with_node: bool)
    requires
        forall|m: int| 0 <= m <= lines(info).len() ==> !carries_at(lines(info), m, target, with_node),
    ensures
        resolve_port(info, target, with_node) is None,
{
    assert(lines(info).skip(0) == lines(info));
    lemma_resolve_from_nothing(lines(info), target, with_node, 0);
}

/// The value of the last line from `b` up to `e` that gives the node
/// identifier.
pub open spec fn last_node_value(lines: Seq<Seq<char>>, b: int, e: int, with_node: bool) -> Option<
    Seq<char>,
>
    decreases e - b,
{
    if e <= b || e > lines.len() {
        None
    } else if gives_node(lines[e - 1], with_node) {
        property_value(lines[e - 1])
    } else {
        last_node_value(lines, b, e - 1, with_node)
    }
}

/// The value of the last line from `b` up to `e` that gives the port
/// name.
pub open spec fn last_port_value(lines: Seq<Seq<char>>, b: int, e: int, with_node: bool) -> Option<
    Seq<char>,
>
    decreases e - b,
{
    if e <= b || e > lines.len() {
        None
    } else if gives_port(lines[e - 1], with_node) {
        property_value(lines[e - 1])
    } else {
        last_port_value(lines, b, e - 1, with_node)
    }
}

/// Where an object ends, the reading holds what the lines of the object
/// say, and nothing of what came before it: the identifier that its
/// first line announces, and the values of the last of its lines that
/// give the node identifier and the port name.
pub proof fn lemma_scan_of_object(lines: Seq<Seq<char>>, b: int, e: int, with_node: bool)
    requires
        0 <= b < e <= lines.len(),
        is_object_line(lines[b]),
        forall|k: int| b < k < e ==> !is_object_line(#[trigger] lines[k]),
    ensures
        scan_at(lines, e, with_node) == (PortScan {
            object: Some(announced_id(lines[b])),
            node: last_node_value(lines, b, e, with_node),
            port: last_port_value(lines, b, e, with_node),
        }),
    decreases e - b,
{
    if e > b + 1 {
        lemma_scan_of_object(lines, b, e - 1, with_node);
        assert(!is_object_line(lines[e - 1]));
    } else {
        assert(last_node_value(lines, b, b, with_node) is None);
        assert(last_port_value(lines, b, b, with_node) is None);
    }
}

/// The reading of a dump, as the scanner holds it.
struct Tracker {
    object: Option<Vec<char>>,
    node: Option<Vec<char>>,
    port: Option<Vec<char>>,
}

impl View for Tracker {
    type V = PortScan;

    closed spec fn view(&self) -> PortScan {
        PortScan {
            object: match self.object {
                Some(v) => Some(v@),
                None => None,
            },
            node: match self.node {
                Some(v) => Some(v@),
                None => None,
            },
            port: match self.port {
                Some(v) => Some(v@),
                None => None,
            },
        }
    }
}

fn value_of_property(line: &Vec<char>) -> (r: Option<Vec<char>>)
    ensures
        match r {
            Some(v) => property_value(line@) == Some(v@),
            None => property_value(line@) is None,
        },
{
    let words = split_words(line);
    if words.len() >= 1 {
        assert(words[words.len() - 1]@ == tokens(line@).last());
        Some(strip_around(&words[words.len() - 1], '"'))
    } else {
        None
    }
}

fn announces_object(line: &Vec<char>) -> (b: bool)
    ensures
        b == is_object_line(line@),
{
    let key = chars_of("id: ");
    let t = trimmed(line);
    begins_with(&t, &key)
}

fn advance(scan: Tracker, line: &Vec<char>, with_node: bool) -> (r: Tracker)
    ensures
        r@ == port_step(scan@, line@, with_node),
{
    let node_key = chars_of("node.id");
    let port_key = chars_of("port.name");
    let mut entered = scan;
    if announces_object(line) {
        let words = split_words(line);
        let id = if words.len() >= 2 {
            assert(words[1]@ == tokens(line@)[1]);
            words[1].clone()
        } else {
            Vec::new()
        };
        entered = Tracker { object: Some(id), node: None, port: None };
    }
    if entered.object.is_none() {
        entered
    } else if with_node && includes(line, &node_key) {
        Tracker { object: entered.object, node: value_of_property(line), port: entered.port }
    } else if includes(line, &port_key) {
        Tracker { object: entered.object, node: entered.node, port: value_of_property(line) }
    } else {
        entered
    }
}

fn carries(scan: &Tracker, target: &Vec<char>, with_node: bool) -> (b: bool)
    ensures
        b == scan_matches(scan@, target@, with_node),
{
    if scan.object.is_none() {
        return false;
    }
    if with_node && scan.node.is_none() {
        return false;
    }
    match &scan.port {
        Some(p) => equal(p, target),
        None => false,
    }
}

fn ids_of(scan: &Tracker) -> (r: PortIds)
    requires
        scan.object is Some,
    ensures
        r@ == (PortIdsView { object_id: scan@.object.unwrap(), node_id: scan@.node }),
{
    let object_id = match &scan.object {
        Some(o) => string_of(o),
        None => String::new(),
    };
    let node_id = match &scan.node {
        Some(n) => Some(string_of(n)),
        None => None,
    };
    PortIds { object_id, node_id }
}

/// Finds the first object in the dump `info` that carries the port
/// `target`; with `with_node`, the first that also names its node.
pub fn find_port(info: &str, target: &str, with_node: bool) -> (r: Option<PortIds>)
    ensures
        match r {
            Some(ids) => resolve_port(info@, target@, with_node) == Some(ids@) && (with_node
                ==> ids.node_id is Some),
            None => resolve_port(info@, target@, with_node) is None,
        },
{
    let text = chars_of(info);
    let name = chars_of(target);
    let ls = split_lines(&text);
    let mut scan = Tracker { object: None, node: None, port: None };
    let mut i: usize = 0;
    proof {
        assert(lines(info@).skip(0) == lines(info@));
    }
    while i < ls.len()
        invariant
            i <= ls.len(),
            views(ls@) == lines(info@),
            name@ == target@,
            resolve_port(info@, target@, with_node) == resolve_from(
                scan@,
                lines(info@).skip(i as int),
                target@,
                with_node,
            ),
        decreases ls.len() - i,
    {
        let line = &ls[i];
        proof {
            let rest = lines(info@).skip(i as int);
            assert(rest[0] == line@);
            assert(rest.skip(1) == lines(info@).skip(i + 1));
        }
        if announces_object(line) && carries(&scan, &name, with_node) {
            return Some(ids_of(&scan));
        }
        scan = advance(scan, line, with_node);
        i += 1;
    }
    if carries(&scan, &name, with_node) {
        Some(ids_of(&scan))
    } else {
        None
    }
}

/// Whether a line of the short card listing names the card `card_name`
/// and gives it an identifier: it holds the name, and its first word is
/// a numeral.
pub open spec fn identifies_card(line: Seq<char>, card_name: Seq<char>) -> bool {
    &&& contains(line, card_name)
    &&& tokens(line).len() >= 1
    &&& is_numeral(tokens(line)[0])
}

/// The identifier of the card `card_name` in a short card listing: the
/// first word of the first line that names the card and gives it an
/// identifier. A line that holds the name and begins with no number is
/// passed over.
pub open spec fn card_id_in(listing: Seq<char>, card_name: Seq<char>) -> Option<Seq<char>> {
    let ls = lines(listing);
    let i = first_where(ls, |line: Seq<char>| identifies_card(line, card_name)) as int;
    if i < ls.len() {
        Some(tokens(ls[i])[0])
    } else {
        None
    }
}

/// The identifier of a card is a numeral: one digit or more, and nothing
/// else.
pub proof fn lemma_card_id_is_numeral(listing: Seq<char>, card_name: Seq<char>)
    ensures
        card_id_in(listing, card_name) matches Some(id) ==> is_numeral(id),
{
    let ls = lines(listing);
    let p = |line: Seq<char>| identifies_card(line, card_name);
    crate::text::lemma_first_where(ls, p);
    if first_where(ls, p) < ls.len() {
        assert(p(ls[first_where(ls, p) as int]));
    }
}

/// The identifier of the card `card_name`, read off what came of listing
/// the cards. The exit status of the listing is not looked at.
pub open spec fn card_id_by_name(card_name: Seq<char>, listing: LaunchView) -> Result<
    Seq<char>,
    Failure,
> {
    match output_of(listing, "Failed to execute pactl: "@) {
        Err(e) => Err(e),
        Ok(text) => match card_id_in(text, card_name) {
            Some(id) => Ok(id),
            None => Err(not_found("Could not find card with name: "@ + card_name)),
        },
    }
}

/// The object identifier of the port `target`, read off what came of
/// dumping the graph. The exit status of the dump is not looked at.
pub open spec fn object_id_by_port_name(target: Seq<char>, info: LaunchView) -> Result<
    Seq<char>,
    Failure,
> {
    match output_of(info, "Failed to execute pw-cli: "@) {
        Err(e) => Err(e),
        Ok(text) => match resolve_port(text, target, false) {
            Some(ids) => Ok(ids.object_id),
            None => Err(not_found("Could not find object ID for port name: "@ + target)),
        },
    }
}

/// The node identifier of the port `target`, read off what came of
/// dumping the graph. The exit status of the dump is not looked at.
pub open spec fn node_id_by_port_name(target: Seq<char>, info: LaunchView) -> Result<
    Seq<char>,
    Failure,
> {
    match output_of(info, "Failed to execute pw-cli: "@) {
        Err(e) => Err(e),
        Ok(text) => match resolve_port(text, target, true) {
            Some(PortIdsView { node_id: Some(node), .. }) => Ok(node),
            _ => Err(not_found("Could not find node ID for port name: "@ + target)),
        },
    }
}

/// The command that dumps the graph.
pub open spec fn graph_dump() -> InvocationView {
    invocation("pw-cli"@, seq!["info"@, "all"@])
}

/// The command that lists the cards of the audio server, one to a line.
pub open spec fn card_listing() -> InvocationView {
    invocation("pactl"@, seq!["list"@, "cards"@, "short"@])
}

/// The command that dumps the graph.
pub fn get_pipewire_info() -> (c: Invocation)
    ensures
        c@ == graph_dump(),
{
    let c = Invocation::new("pw-cli").arg("info").arg("all");
    assert(c@.args =~= seq!["info"@, "all"@]);
    c
}

/// The command that lists the cards of the audio server, one to a line.
pub fn card_listing_command() -> (c: Invocation)
    ensures
        c@ == card_listing(),
{
    let c = Invocation::new("pactl").arg("list").arg("cards").arg("short");
    assert(c@.args =~= seq!["list"@, "cards"@, "short"@]);
    c
}

/// The identifier of the card `card_name` in a short card listing.
pub fn find_card_id(listing: &str, card_name: &str) -> (r: Option<String>)
    ensures
        match r {
            Some(id) => card_id_in(listing@, card_name@) == Some(id@) && is_numeral(id@),
            None => card_id_in(listing@, card_name@) is None,
        },
{
    let text = chars_of(listing);
    let name = chars_of(card_name);
    let ls = split_lines(&text);
    let ghost p = |line: Seq<char>| identifies_card(line, card_name@);
    let mut i: usize = 0;
    while i < ls.len()
        invariant
            i <= ls.len(),
            views(ls@) == lines(listing@),
            name@ == card_name@,
            p == |line: Seq<char>| identifies_card(line, card_name@),
            forall|k: int| 0 <= k < i ==> !p(#[trigger] lines(listing@)[k]),
        decreases ls.len() - i,
    {
        let line = &ls[i];
        assert(line@ == lines(listing@)[i as int]);
        if includes(line, &name) {
            let words = split_words(line);
            if words.len() >= 1 {
                assert(words[0]@ == tokens(line@)[0]);
                if numeral(&words[0]) {
                    proof {
                        assert(p(lines(listing@)[i as int]));
                        lemma_first_where_unique(lines(listing@), p, i as int);
                    }
                    return Some(string_of(&words[0]));
                }
            }
        }
        assert(!p(lines(listing@)[i as int]));
        i += 1;
    }
    proof {
        lemma_first_where_unique(lines(listing@), p, i as int);
    }
    None
}

/// The identifier of the card `card_name`, read off what came of listing
/// the cards.
pub fn card_id_from(card_name: &str, listing: &Launch) -> (r: Result<String, ControlError>)
    ensures
        text_result(r) == card_id_by_name(card_name@, listing@),
        r matches Ok(id) ==> is_numeral(id@),
{
    match listing.output("Failed to execute pactl: ") {
        Err(e) => Err(e),
        Ok(text) => match find_card_id(text, card_name) {
            Some(id) => Ok(id),
            None => Err(
                ControlError::prefixed(
                    ErrorKind::NotFound,
                    "Could not find card with name: ",
                    card_name,
                ),
            ),
        },
    }
}

/// The object identifier of the port `target`, read off what came of
/// dumping the graph.
pub fn object_id_from(target: &str, info: &Launch) -> (r: Result<String, ControlError>)
    ensures
        text_result(r) == object_id_by_port_name(target@, info@),
{
    match info.output("Failed to execute pw-cli: ") {
        Err(e) => Err(e),
        Ok(text) => match find_port(text, target, false) {
            Some(ids) => Ok(ids.object_id),
            None => Err(
                ControlError::prefixed(
                    ErrorKind::NotFound,
                    "Could not find object ID for port name: ",
                    target,
                ),
            ),
        },
    }
}

/// The node identifier of the port `target`, read off what came of
/// dumping the graph.
pub fn node_id_from(target: &str, info: &Launch) -> (r: Result<String, ControlError>)
    ensures
        text_result(r) == node_id_by_port_name(target@, info@),
{
    match info.output("Failed to execute pw-cli: ") {
        Err(e) => Err(e),
        Ok(text) => match find_port(text, target, true) {
            Some(PortIds { node_id: Some(node), .. }) => Ok(node),
            _ => Err(
                ControlError::prefixed(
                    ErrorKind::NotFound,
                    "Could not find node ID for port name: ",
                    target,
                ),
            ),
        },
    }
}

/// The identifier that the audio server gives the card `card_name`: lists
/// the cards, then reads the identifier off the listing.
pub fn get_card_id_by_name(card_name: &str, outcomes: &[Launch]) -> (r: Step<String>)
    ensures
        text_step(r) == single_step(
            card_listing(),
            launch_views(outcomes@),
            |listing: LaunchView| card_id_by_name(card_name@, listing),
        ),
        r matches Step::Done(Ok(id)) ==> is_numeral(id@),
{
    if outcomes.len() == 0 {
        Step::Run(card_listing_command())
    } else {
        Step::Done(card_id_from(card_name, &outcomes[0]))
    }
}

/// The object identifier of the port `target_port_name`: dumps the graph,
/// then looks for the port in the dump.
pub fn get_object_id_by_port_name(target_port_name: &str, outcomes: &[Launch]) -> (r: Step<String>)
    ensures
        text_step(r) == single_step(
            graph_dump(),
            launch_views(outcomes@),
            |info: LaunchView| object_id_by_port_name(target_port_name@, info),
        ),
{
    if outcomes.len() == 0 {
        Step::Run(get_pipewire_info())
    } else {
        Step::Done(object_id_from(target_port_name, &outcomes[0]))
    }
}

/// The node identifier of the port `target_port_name`: dumps the graph,
/// then looks for the port in the dump.
pub fn get_node_id_by_port_name(target_port_name: &str, outcomes: &[Launch]) -> (r: Step<String>)
    ensures
        text_step(r) == single_step(
            graph_dump(),
            launch_views(outcomes@),
            |info: LaunchView| node_id_by_port_name(target_port_name@, info),
        ),
{
    if outcomes.len() == 0 {
        Step::Run(get_pipewire_info())
    } else {
        Step::Done(node_id_from(target_port_name, &outcomes[0]))
    }
}

} // verus!

//! Character sequences: the scanning primitives that every parser of tool
//! output in this crate is written with.

use vstd::prelude::*;

verus! {

/// `String::push` of the standard library: the character is appended, and
/// nothing else changes.
pub assume_specification[ String::push ](s: &mut String, c: char)
    ensures
        final(s)@ == old(s)@.push(c),
;

/// The characters of `s`, in order.
pub fn chars_of(s: &str) -> (v: Vec<char>)
    ensures
        v@ == s@,
{
    let mut v: Vec<char> = Vec::new();
    for c in it: s.chars()
        invariant
            v@ == it.seq().take(it.index()),
            it.seq() == s@,
    {
        v.push(c);
    }
    v
}

/// The string made of the characters of `v`, in order.
pub fn string_of(v: &Vec<char>) -> (s: String)
    ensures
        s@ == v@,
{
    let mut s = String::new();
    let mut i: usize = 0;
    while i < v.len()
        invariant
            i <= v.len(),
            s@ == v@.take(i as int),
        decreases v.len() - i,
    {
        s.push(v[i]);
        i += 1;
    }
    s
}

/// The views of a sequence of character vectors.
pub open spec fn views(v: Seq<Vec<char>>) -> Seq<Seq<char>> {
    v.map_values(|x: Vec<char>| x@)
}

/// The views of a sequence of strings.
pub open spec fn string_views(v: Seq<String>) -> Seq<Seq<char>> {
    v.map_values(|x: String| x@)
}

/// Whether `c` has the Unicode property White_Space.
#[verifier::opaque]
pub open spec fn is_whitespace(c: char) -> bool {
    let n = c as u32;
    ||| 0x09 <= n <= 0x0D
    ||| n == 0x20
    ||| n == 0x85
    ||| n == 0xA0
    ||| n == 0x1680
    ||| 0x2000 <= n <= 0x200A
    ||| n == 0x2028
    ||| n == 0x2029
    ||| n == 0x202F
    ||| n == 0x205F
    ||| n == 0x3000
}

/// Whether `c` is whitespace.
pub fn is_space(c: char) -> (b: bool)
    ensures
        b == is_whitespace(c),
{
    proof {
        reveal(is_whitespace);
    }
    let n: u32 = c as u32;
    (0x09 <= n && n <= 0x0D) || n == 0x20 || n == 0x85 || n == 0xA0 || n == 0x1680 || (0x2000 <= n
        && n <= 0x200A) || n == 0x2028 || n == 0x2029 || n == 0x202F || n == 0x205F || n == 0x3000
}

/// The position of the first `c` in `s`, or the length of `s` where there
/// is none.
pub open spec fn index_of(s: Seq<char>, c: char) -> nat
    decreases s.len(),
{
    if s.len() == 0 || s[0] == c {
        0
    } else {
        1 + index_of(s.skip(1), c)
    }
}

/// `index_of` names a position within `s` or its length; no `c` stands
/// before it, and where it lies within `s` it holds `c`.
pub proof fn lemma_index_of(s: Seq<char>, c: char)
    ensures
        index_of(s, c) <= s.len(),
        forall|i: int| 0 <= i < index_of(s, c) ==> s[i] != c,
        index_of(s, c) < s.len() ==> s[index_of(s, c) as int] == c,
    decreases s.len(),
{
    if s.len() == 0 || s[0] == c {
    } else {
        lemma_index_of(s.skip(1), c);
        assert forall|i: int| 0 <= i < index_of(s, c) implies s[i] != c by {
            if i > 0 {
                assert(s[i] == s.skip(1)[i - 1]);
            }
        }
    }
}

/// Any position before which no `c` stands, and which holds `c` or ends
/// `s`, is the one `index_of` names.
pub proof fn lemma_index_of_unique(s: Seq<char>, c: char, n: int)
    requires
        0 <= n <= s.len(),
        forall|i: int| 0 <= i < n ==> s[i] != c,
        n < s.len() ==> s[n] == c,
    ensures
        index_of(s, c) == n,
{
    lemma_index_of(s, c);
    let m = index_of(s, c) as int;
    if m < n {
        assert(s[m] == c);
    } else if n < m {
        assert(s[n] == c);
    }
}

/// The pieces of `s` between the occurrences of `sep`: one more piece than
/// there are separators, the empty ones included.
pub open spec fn split(s: Seq<char>, sep: char) -> Seq<Seq<char>>
    decreases s.len(),
{
    let n = index_of(s, sep) as int;
    if n >= s.len() {
        seq![s]
    } else {
        seq![s.take(n)] + split(s.skip(n + 1), sep)
    }
}

/// The subsequence of `s` from `from` up to `to`, as a vector of its own.
pub(crate) fn slice_of(s: &Vec<char>, from: usize, to: usize) -> (r: Vec<char>)
    requires
        from <= to <= s.len(),
    ensures
        r@ == s@.subrange(from as int, to as int),
{
    let mut r: Vec<char> = Vec::new();
    let mut i: usize = from;
    while i < to
        invariant
            from <= i <= to <= s.len(),
            r@ == s@.subrange(from as int, i as int),
        decreases to - i,
    {
        r.push(s[i]);
        i += 1;
    }
    r
}

/// The first position at or after `from` that holds `c`, or the length of
/// `s`.
pub(crate) fn find_char(s: &Vec<char>, from: usize, c: char) -> (r: usize)
    requires
        from <= s.len(),
    ensures
        r == from + index_of(s@.skip(from as int), c),
        from <= r <= s.len(),
{
    let mut i: usize = from;
    while i < s.len() && s[i] != c
        invariant
            from <= i <= s.len(),
            forall|k: int| from <= k < i ==> s@[k] != c,
        decreases s.len() - i,
    {
        i += 1;
    }
    proof {
        lemma_index_of_unique(s@.skip(from as int), c, i - from);
    }
    i
}

/// Splits `s` at every `sep`.
pub fn split_chars(s: &Vec<char>, sep: char) -> (r: Vec<Vec<char>>)
    ensures
        views(r@) == split(s@, sep),
{
    let mut r: Vec<Vec<char>> = Vec::new();
    let mut pos: usize = 0;
    proof {
        assert(s@.skip(0) == s@);
        assert(views(r@) + split(s@, sep) == split(s@, sep));
    }
    loop
        invariant_except_break
            pos <= s.len(),
            split(s@, sep) == views(r@) + split(s@.skip(pos as int), sep),
        ensures
            views(r@) == split(s@, sep),
        decreases s.len() - pos,
    {
        let end = find_char(s, pos, sep);
        let piece = slice_of(s, pos, end);
        let ghost rest = s@.skip(pos as int);
        let ghost before = r@;
        proof {
            assert(rest.take(end - pos) == s@.subrange(pos as int, end as int));
        }
        r.push(piece);
        proof {
            assert(views(r@) == views(before) + seq![piece@]);
        }
        if end >= s.len() {
            proof {
                assert(rest.take(end - pos) == rest);
            }
            break;
        }
        proof {
            assert(rest.skip(end - pos + 1) == s@.skip(end + 1));
        }
        pos = end + 1;
    }
    r
}

/// Splitting gives at least one piece.
pub proof fn lemma_split_len(s: Seq<char>, sep: char)
    ensures
        split(s, sep).len() >= 1,
    decreases s.len(),
{
    let n = index_of(s, sep) as int;
    if n < s.len() {
        lemma_split_len(s.skip(n + 1), sep);
    }
}

/// `s` without the carriage return at its end, if it ends in one.
pub open spec fn strip_cr(s: Seq<char>) -> Seq<char> {
    if s.len() > 0 && s.last() == '\r' {
        s.drop_last()
    } else {
        s
    }
}

/// The lines of `s`. A line ends at a line feed, or at a carriage return
/// directly followed by one; neither belongs to the line. What follows the
/// last line feed is a line of its own unless it is empty.
pub open spec fn lines(s: Seq<char>) -> Seq<Seq<char>> {
    let pieces = split(s, '\n');
    let ended = Seq::new((pieces.len() - 1) as nat, |i: int| strip_cr(pieces[i]));
    if pieces.last().len() == 0 {
        ended
    } else {
        ended.push(pieces.last())
    }
}

/// Splits `s` into its lines.
pub fn split_lines(s: &Vec<char>) -> (r: Vec<Vec<char>>)
    ensures
        views(r@) == lines(s@),
{
    let pieces = split_chars(s, '\n');
    proof {
        lemma_split_len(s@, '\n');
    }
    let ghost ps = split(s@, '\n');
    let mut r: Vec<Vec<char>> = Vec::new();
    let mut i: usize = 0;
    while i + 1 < pieces.len()
        invariant
            pieces.len() >= 1,
            i + 1 <= pieces.len(),
            views(pieces@) == ps,
            views(r@) == Seq::new(i as nat, |k: int| strip_cr(ps[k])),
        decreases pieces.len() - i,
    {
        let piece = &pieces[i];
        let n: usize = piece.len();
        assert(piece@ == ps[i as int]);
        let line = if n > 0 && piece[n - 1] == '\r' {
            slice_of(piece, 0, n - 1)
        } else {
            slice_of(piece, 0, n)
        };
        proof {
            assert(piece@.subrange(0, n as int) == piece@);
            assert(line@ == strip_cr(ps[i as int]));
        }
        let ghost before = r@;
        r.push(line);
        proof {
            assert(views(r@) == views(before).push(line@));
            assert(views(r@) =~= Seq::new((i + 1) as nat, |k: int| strip_cr(ps[k])));
        }
        i += 1;
    }
    let last = &pieces[pieces.len() - 1];
    assert(last@ == ps.last());
    if last.len() > 0 {
        let copy = slice_of(last, 0, last.len());
        proof {
            assert(last@.subrange(0, last.len() as int) == last@);
        }
        let ghost before = r@;
        r.push(copy);
        proof {
            assert(views(r@) =~= views(before).push(ps.last()));
        }
    }
    r
}

/// Whether `needle` stands in `hay` at position `i`.
pub open spec fn occurs_at(hay: Seq<char>, needle: Seq<char>, i: int) -> bool {
    &&& 0 <= i
    &&& i + needle.len() <= hay.len()
    &&& hay.subrange(i, i + needle.len()) == needle
}

/// Whether `needle` stands somewhere in `hay`. The empty sequence stands
/// in every sequence.
pub open spec fn contains(hay: Seq<char>, needle: Seq<char>) -> bool {
    exists|i: int| occurs_at(hay, needle, i)
}

/// Whether `s` begins with `prefix`.
pub open spec fn starts_with(s: Seq<char>, prefix: Seq<char>) -> bool {
    occurs_at(s, prefix, 0)
}

/// Whether `needle` stands in `hay` at position `i`.
pub fn matches_at(hay: &Vec<char>, needle: &Vec<char>, i: usize) -> (b: bool)
    ensures
        b == occurs_at(hay@, needle@, i as int),
{
    if i > hay.len() || needle.len() > hay.len() - i {
        return false;
    }
    let mut k: usize = 0;
    while k < needle.len()
        invariant
            k <= needle.len(),
            i + needle.len() <= hay.len(),
            forall|j: int| 0 <= j < k ==> hay@[i + j] == needle@[j],
        decreases needle.len() - k,
    {
        if hay[i + k] != needle[k] {
            proof {
                assert(hay@.subrange(i as int, i + needle.len())[k as int] == hay@[i + k]);
            }
            return false;
        }
        k += 1;
    }
    proof {
        assert(hay@.subrange(i as int, i + needle.len()) =~= needle@);
    }
    true
}

/// Whether `s` begins with `prefix`.
pub fn begins_with(s: &Vec<char>, prefix: &Vec<char>) -> (b: bool)
    ensures
        b == starts_with(s@, prefix@),
{
    matches_at(s, prefix, 0)
}

/// Whether `needle` stands somewhere in `hay`.
pub fn includes(hay: &Vec<char>, needle: &Vec<char>) -> (b: bool)
    ensures
        b == contains(hay@, needle@),
{
    if needle.len() > hay.len() {
        return false;
    }
    let last: usize = hay.len() - needle.len();
    let mut i: usize = 0;
    loop
        invariant
            last == hay.len() - needle.len(),
            i <= last,
            forall|j: int| 0 <= j < i ==> !occurs_at(hay@, needle@, j),
        decreases last - i,
    {
        if matches_at(hay, needle, i) {
            return true;
        }
        if i >= last {
            return false;
        }
        i += 1;
    }
}

/// How many whitespace characters `s` begins with.
pub open spec fn leading_spaces(s: Seq<char>) -> nat
    decreases s.len(),
{
    if s.len() == 0 || !is_whitespace(s[0]) {
        0
    } else {
        1 + leading_spaces(s.skip(1))
    }
}

/// How many whitespace characters `s` ends with.
pub open spec fn trailing_spaces(s: Seq<char>) -> nat
    decreases s.len(),
{
    if s.len() == 0 || !is_whitespace(s.last()) {
        0
    } else {
        1 + trailing_spaces(s.drop_last())
    }
}

/// How many characters other than whitespace `s` begins with.
pub open spec fn leading_word(s: Seq<char>) -> nat
    decreases s.len(),
{
    if s.len() == 0 || is_whitespace(s[0]) {
        0
    } else {
        1 + leading_word(s.skip(1))
    }
}

/// `leading_spaces` counts whitespace only, and stops at the first
/// character that is none.
pub proof fn lemma_leading_spaces(s: Seq<char>)
    ensures
        leading_spaces(s) <= s.len(),
        forall|i: int| 0 <= i < leading_spaces(s) ==> is_whitespace(s[i]),
        leading_spaces(s) < s.len() ==> !is_whitespace(s[leading_spaces(s) as int]),
    decreases s.len(),
{
    if s.len() == 0 || !is_whitespace(s[0]) {
    } else {
        lemma_leading_spaces(s.skip(1));
        assert forall|i: int| 0 <= i < leading_spaces(s) implies is_whitespace(s[i]) by {
            if i > 0 {
                assert(s[i] == s.skip(1)[i - 1]);
            }
        }
    }
}

/// A count of whitespace at the beginning of `s` that stops at a
/// character that is none, or at the end, is the one `leading_spaces`
/// gives.
pub proof fn lemma_leading_spaces_unique(s: Seq<char>, n: int)
    requires
        0 <= n <= s.len(),
        forall|i: int| 0 <= i < n ==> is_whitespace(s[i]),
        n < s.len() ==> !is_whitespace(s[n]),
    ensures
        leading_spaces(s) == n,
{
    lemma_leading_spaces(s);
    let m = leading_spaces(s) as int;
    if m < n {
        assert(is_whitespace(s[m]));
    } else if n < m {
        assert(!is_whitespace(s[n]));
    }
}

/// `trailing_spaces` counts whitespace only, and stops at the last
/// character that is none.
pub proof fn lemma_trailing_spaces(s: Seq<char>)
    ensures
        trailing_spaces(s) <= s.len(),
        forall|i: int| s.len() - trailing_spaces(s) <= i < s.len() ==> is_whitespace(s[i]),
        trailing_spaces(s) < s.len() ==> !is_whitespace(s[s.len() - trailing_spaces(s) - 1]),
    decreases s.len(),
{
    if s.len() == 0 || !is_whitespace(s.last()) {
    } else {
        lemma_trailing_spaces(s.drop_last());
        assert forall|i: int| s.len() - trailing_spaces(s) <= i < s.len() implies is_whitespace(
            s[i],
        ) by {
            if i < s.len() - 1 {
                assert(s[i] == s.drop_last()[i]);
            }
        }
    }
}

/// A count of whitespace at the end of `s` that stops at a character
/// that is none, or at the beginning, is the one `trailing_spaces` gives.
pub proof fn lemma_trailing_spaces_unique(s: Seq<char>, n: int)
    requires
        0 <= n <= s.len(),
        forall|i: int| s.len() - n <= i < s.len() ==> is_whitespace(s[i]),
        n < s.len() ==> !is_whitespace(s[s.len() - n - 1]),
    ensures
        trailing_spaces(s) == n,
{
    lemma_trailing_spaces(s);
    let m = trailing_spaces(s) as int;
    if m < n {
        assert(is_whitespace(s[s.len() - m - 1]));
    } else if n < m {
        assert(!is_whitespace(s[s.len() - n - 1]));
    }
}

/// `leading_word` counts characters other than whitespace only, and
/// stops at the first whitespace.
pub proof fn lemma_leading_word(s: Seq<char>)
    ensures
        leading_word(s) <= s.len(),
        forall|i: int| 0 <= i < leading_word(s) ==> !is_whitespace(s[i]),
        leading_word(s) < s.len() ==> is_whitespace(s[leading_word(s) as int]),
    decreases s.len(),
{
    if s.len() == 0 || is_whitespace(s[0]) {
    } else {
        lemma_leading_word(s.skip(1));
        assert forall|i: int| 0 <= i < leading_word(s) implies !is_whitespace(s[i]) by {
            if i > 0 {
                assert(s[i] == s.skip(1)[i - 1]);
            }
        }
    }
}

/// A count of characters other than whitespace at the beginning of `s`
/// that stops at whitespace, or at the end, is the one `leading_word`
/// gives.
pub proof fn lemma_leading_word_unique(s: Seq<char>, n: int)
    requires
        0 <= n <= s.len(),
        forall|i: int| 0 <= i < n ==> !is_whitespace(s[i]),
        n < s.len() ==> is_whitespace(s[n]),
    ensures
        leading_word(s) == n,
{
    lemma_leading_word(s);
    let m = leading_word(s) as int;
    if m < n {
        assert(!is_whitespace(s[m]));
    } else if n < m {
        assert(is_whitespace(s[n]));
    }
}

/// `s` without the whitespace at its two ends.
pub open spec fn trim(s: Seq<char>) -> Seq<char> {
    let t = s.skip(leading_spaces(s) as int);
    t.take(t.len() - trailing_spaces(t))
}

/// Whether `s` holds nothing but whitespace.
pub open spec fn is_blank(s: Seq<char>) -> bool {
    forall|i: int| 0 <= i < s.len() ==> is_whitespace(#[trigger] s[i])
}

/// The first position at or after `from` that holds no whitespace, or the
/// length of `s`.
pub(crate) fn skip_spaces(s: &Vec<char>, from: usize) -> (r: usize)
    requires
        from <= s.len(),
    ensures
        r == from + leading_spaces(s@.skip(from as int)),
        from <= r <= s.len(),
{
    let mut i: usize = from;
    while i < s.len() && is_space(s[i])
        invariant
            from <= i <= s.len(),
            forall|k: int| from <= k < i ==> is_whitespace(s@[k]),
        decreases s.len() - i,
    {
        i += 1;
    }
    proof {
        lemma_leading_spaces_unique(s@.skip(from as int), i - from);
    }
    i
}

/// The first position at or after `from` that holds whitespace, or the
/// length of `s`.
pub(crate) fn skip_word(s: &Vec<char>, from: usize) -> (r: usize)
    requires
        from <= s.len(),
    ensures
        r == from + leading_word(s@.skip(from as int)),
        from <= r <= s.len(),
{
    let mut i: usize = from;
    while i < s.len() && !is_space(s[i])
        invariant
            from <= i <= s.len(),
            forall|k: int| from <= k < i ==> !is_whitespace(s@[k]),
        decreases s.len() - i,
    {
        i += 1;
    }
    proof {
        lemma_leading_word_unique(s@.skip(from as int), i - from);
    }
    i
}

/// Removes the whitespace at the two ends of `s`.
pub fn trimmed(s: &Vec<char>) -> (r: Vec<char>)
    ensures
        r@ == trim(s@),
{
    let start = skip_spaces(s, 0);
    let mut end: usize = s.len();
    while end > start && is_space(s[end - 1])
        invariant
            start <= end <= s.len(),
            forall|k: int| end <= k < s.len() ==> is_whitespace(s@[k]),
        decreases end,
    {
        end -= 1;
    }
    proof {
        assert(s@.skip(0) == s@);
        let t = s@.skip(start as int);
        lemma_leading_spaces(s@);
        lemma_trailing_spaces_unique(t, s.len() - end);
        assert(t.take(t.len() - (s.len() - end)) == s@.subrange(start as int, end as int));
    }
    slice_of(s, start, end)
}

/// A sequence is blank where, and only where, trimming leaves nothing of
/// it.
pub proof fn lemma_blank_trim(s: Seq<char>)
    ensures
        is_blank(s) <==> trim(s).len() == 0,
{
    lemma_leading_spaces(s);
    let t = s.skip(leading_spaces(s) as int);
    lemma_trailing_spaces(t);
    if is_blank(s) {
        if leading_spaces(s) < s.len() {
            assert(is_whitespace(s[leading_spaces(s) as int]));
        }
    } else {
        let i = choose|i: int| 0 <= i < s.len() && !is_whitespace(#[trigger] s[i]);
        if trim(s).len() == 0 {
            assert(leading_spaces(s) <= i);
            assert(t[i - leading_spaces(s)] == s[i]);
        }
    }
}

/// Whether `s` holds nothing but whitespace.
pub fn blank(s: &Vec<char>) -> (b: bool)
    ensures
        b == is_blank(s@),
{
    let n = skip_spaces(s, 0);
    proof {
        assert(s@.skip(0) == s@);
        lemma_leading_spaces(s@);
    }
    n == s.len()
}

/// The words of `s`: its longest runs of characters other than whitespace,
/// in order.
pub open spec fn tokens(s: Seq<char>) -> Seq<Seq<char>>
    decreases s.len(),
{
    if s.len() == 0 {
        seq![]
    } else if is_whitespace(s[0]) {
        tokens(s.skip(1))
    } else {
        let n = leading_word(s) as int;
        if n >= s.len() {
            seq![s]
        } else {
            seq![s.take(n)] + tokens(s.skip(n))
        }
    }
}

/// The whitespace that `s` begins with adds no word.
pub proof fn lemma_tokens_skip_spaces(s: Seq<char>)
    ensures
        tokens(s) == tokens(s.skip(leading_spaces(s) as int)),
    decreases s.len(),
{
    if s.len() == 0 || !is_whitespace(s[0]) {
        assert(s.skip(0) == s);
    } else {
        lemma_tokens_skip_spaces(s.skip(1));
        lemma_leading_spaces(s.skip(1));
        assert(s.skip(1).skip(leading_spaces(s.skip(1)) as int) == s.skip(
            leading_spaces(s) as int,
        ));
    }
}

/// Splits `s` into its words.
pub fn split_words(s: &Vec<char>) -> (r: Vec<Vec<char>>)
    ensures
        views(r@) == tokens(s@),
{
    let mut r: Vec<Vec<char>> = Vec::new();
    let mut pos: usize = 0;
    proof {
        assert(s@.skip(0) == s@);
        assert(views(r@) + tokens(s@) == tokens(s@));
    }
    loop
        invariant_except_break
            pos <= s.len(),
            tokens(s@) == views(r@) + tokens(s@.skip(pos as int)),
        ensures
            views(r@) == tokens(s@),
        decreases s.len() - pos,
    {
        let start = skip_spaces(s, pos);
        let ghost rest = s@.skip(pos as int);
        let ghost word = s@.skip(start as int);
        proof {
            lemma_tokens_skip_spaces(rest);
            assert(rest.skip(start - pos) == word);
        }
        if start >= s.len() {
            proof {
                assert(views(r@) + tokens(word) == views(r@));
            }
            break;
        }
        let end = skip_word(s, start);
        let piece = slice_of(s, start, end);
        let ghost before = r@;
        proof {
            lemma_leading_spaces(rest);
            assert(word[0] == rest[start - pos]);
            assert(word.take(end - start) == s@.subrange(start as int, end as int));
            if end >= s.len() {
                assert(word.take(end - start) == word);
            } else {
                assert(word.skip(end - start) == s@.skip(end as int));
            }
        }
        r.push(piece);
        proof {
            assert(views(r@) == views(before) + seq![piece@]);
        }
        if end >= s.len() {
            break;
        }
        pos = end;
    }
    r
}

/// How many times `c` stands at the beginning of `s`, one after another.
pub open spec fn leading_run(s: Seq<char>, c: char) -> nat
    decreases s.len(),
{
    if s.len() == 0 || s[0] != c {
        0
    } else {
        1 + leading_run(s.skip(1), c)
    }
}

/// How many times `c` stands at the end of `s`, one after another.
pub open spec fn trailing_run(s: Seq<char>, c: char) -> nat
    decreases s.len(),
{
    if s.len() == 0 || s.last() != c {
        0
    } else {
        1 + trailing_run(s.drop_last(), c)
    }
}

/// `leading_run` counts occurrences of `c` only, and stops at the first
/// other character.
pub proof fn lemma_leading_run(s: Seq<char>, c: char)
    ensures
        leading_run(s, c) <= s.len(),
        forall|i: int| 0 <= i < leading_run(s, c) ==> s[i] == c,
        leading_run(s, c) < s.len() ==> s[leading_run(s, c) as int] != c,
    decreases s.len(),
{
    if s.len() == 0 || s[0] != c {
    } else {
        lemma_leading_run(s.skip(1), c);
        assert forall|i: int| 0 <= i < leading_run(s, c) implies s[i] == c by {
            if i > 0 {
                assert(s[i] == s.skip(1)[i - 1]);
            }
        }
    }
}

/// A count of `c` at the beginning of `s` that stops at another
/// character, or at the end, is the one `leading_run` gives.
pub proof fn lemma_leading_run_unique(s: Seq<char>, c: char, n: int)
    requires
        0 <= n <= s.len(),
        forall|i: int| 0 <= i < n ==> s[i] == c,
        n < s.len() ==> s[n] != c,
    ensures
        leading_run(s, c) == n,
{
    lemma_leading_run(s, c);
    let m = leading_run(s, c) as int;
    if m < n {
        assert(s[m] == c);
    } else if n < m {
        assert(s[n] != c);
    }
}

/// `trailing_run` counts occurrences of `c` only, and stops at the last
/// other character.
pub proof fn lemma_trailing_run(s: Seq<char>, c: char)
    ensures
        trailing_run(s, c) <= s.len(),
        forall|i: int| s.len() - trailing_run(s, c) <= i < s.len() ==> s[i] == c,
        trailing_run(s, c) < s.len() ==> s[s.len() - trailing_run(s, c) - 1] != c,
    decreases s.len(),
{
    if s.len() == 0 || s.last() != c {
    } else {
        lemma_trailing_run(s.drop_last(), c);
        assert forall|i: int| s.len() - trailing_run(s, c) <= i < s.len() implies s[i] == c by {
            if i < s.len() - 1 {
                assert(s[i] == s.drop_last()[i]);
            }
        }
    }
}

/// A count of `c` at the end of `s` that stops at another character, or
/// at the beginning, is the one `trailing_run` gives.
pub proof fn lemma_trailing_run_unique(s: Seq<char>, c: char, n: int)
    requires
        0 <= n <= s.len(),
        forall|i: int| s.len() - n <= i < s.len() ==> s[i] == c,
        n < s.len() ==> s[s.len() - n - 1] != c,
    ensures
        trailing_run(s, c) == n,
{
    lemma_trailing_run(s, c);
    let m = trailing_run(s, c) as int;
    if m < n {
        assert(s[s.len() - m - 1] == c);
    } else if n < m {
        assert(s[s.len() - n - 1] != c);
    }
}

/// `s` without the run of `c` at its end.
pub open spec fn strip_end(s: Seq<char>, c: char) -> Seq<char> {
    s.take(s.len() - trailing_run(s, c))
}

/// `s` without the runs of `c` at its two ends.
pub open spec fn strip_both(s: Seq<char>, c: char) -> Seq<char> {
    strip_end(s.skip(leading_run(s, c) as int), c)
}

/// Removes every `c` at the end of `s`.
pub fn strip_trailing(s: &Vec<char>, c: char) -> (r: Vec<char>)
    ensures
        r@ == strip_end(s@, c),
{
    let mut end: usize = s.len();
    while end > 0 && s[end - 1] == c
        invariant
            end <= s.len(),
            forall|k: int| end <= k < s.len() ==> s@[k] == c,
        decreases end,
    {
        end -= 1;
    }
    proof {
        lemma_trailing_run_unique(s@, c, s.len() - end);
    }
    slice_of(s, 0, end)
}

/// Removes every `c` at the two ends of `s`.
pub fn strip_around(s: &Vec<char>, c: char) -> (r: Vec<char>)
    ensures
        r@ == strip_both(s@, c),
{
    let mut start: usize = 0;
    while start < s.len() && s[start] == c
        invariant
            start <= s.len(),
            forall|k: int| 0 <= k < start ==> s@[k] == c,
        decreases s.len() - start,
    {
        start += 1;
    }
    let mut end: usize = s.len();
    while end > start && s[end - 1] == c
        invariant
            start <= end <= s.len(),
            forall|k: int| end <= k < s.len() ==> s@[k] == c,
        decreases end,
    {
        end -= 1;
    }
    proof {
        lemma_leading_run_unique(s@, c, start as int);
        let t = s@.skip(start as int);
        lemma_trailing_run_unique(t, c, s.len() - end);
        assert(t.take(t.len() - (s.len() - end)) == s@.subrange(start as int, end as int));
    }
    slice_of(s, start, end)
}

/// `s` without `prefix` at its beginning, as often as it stands there.
pub open spec fn strip_prefixes(s: Seq<char>, prefix: Seq<char>) -> Seq<char>
    decreases s.len(),
{
    if prefix.len() > 0 && starts_with(s, prefix) {
        strip_prefixes(s.skip(prefix.len() as int), prefix)
    } else {
        s
    }
}

/// Removes `prefix` from the beginning of `s`, as often as it stands there.
pub fn strip_leading(s: &Vec<char>, prefix: &Vec<char>) -> (r: Vec<char>)
    ensures
        r@ == strip_prefixes(s@, prefix@),
{
    let mut start: usize = 0;
    proof {
        assert(s@.skip(0) == s@);
    }
    if prefix.len() > 0 {
        while matches_at(s, prefix, start)
            invariant
                start <= s.len(),
                prefix.len() > 0,
                strip_prefixes(s@, prefix@) == strip_prefixes(s@.skip(start as int), prefix@),
            decreases s.len() - start,
        {
            proof {
                let t = s@.skip(start as int);
                assert(t.subrange(0, prefix.len() as int) == s@.subrange(
                    start as int,
                    start + prefix.len(),
                ));
                assert(t.skip(prefix.len() as int) == s@.skip(start + prefix.len()));
            }
            start += prefix.len();
        }
        proof {
            let t = s@.skip(start as int);
            if start + prefix.len() <= s.len() {
                assert(t.subrange(0, prefix.len() as int) == s@.subrange(
                    start as int,
                    start + prefix.len(),
                ));
            }
        }
    }
    proof {
        assert(s@.subrange(start as int, s.len() as int) == s@.skip(start as int));
    }
    slice_of(s, start, s.len())
}

/// The position of the first of `lines` of which `p` holds, or the number
/// of lines where it holds of none.
pub open spec fn first_where(lines: Seq<Seq<char>>, p: spec_fn(Seq<char>) -> bool) -> nat
    decreases lines.len(),
{
    if lines.len() == 0 || p(lines[0]) {
        0
    } else {
        1 + first_where(lines.skip(1), p)
    }
}

/// `first_where` names a position among `lines` or their number; `p`
/// holds of no line before it, and where it names a line, `p` holds of
/// that line.
pub proof fn lemma_first_where(lines: Seq<Seq<char>>, p: spec_fn(Seq<char>) -> bool)
    ensures
        first_where(lines, p) <= lines.len(),
        forall|i: int| 0 <= i < first_where(lines, p) ==> !p(#[trigger] lines[i]),
        first_where(lines, p) < lines.len() ==> p(lines[first_where(lines, p) as int]),
    decreases lines.len(),
{
    if lines.len() == 0 || p(lines[0]) {
    } else {
        lemma_first_where(lines.skip(1), p);
        assert forall|i: int| 0 <= i < first_where(lines, p) implies !p(#[trigger] lines[i]) by {
            if i > 0 {
                assert(lines[i] == lines.skip(1)[i - 1]);
            }
        }
    }
}

/// A position before which `p` holds of no line, and at which it holds or
/// the lines end, is the one `first_where` names.
pub proof fn lemma_first_where_unique(
    lines: Seq<Seq<char>>,
    p: spec_fn(Seq<char>) -> bool,
    n: int,
)
    requires
        0 <= n <= lines.len(),
        forall|i: int| 0 <= i < n ==> !p(#[trigger] lines[i]),
        n < lines.len() ==> p(lines[n]),
    ensures
        first_where(lines, p) == n,
{
    lemma_first_where(lines, p);
    let m = first_where(lines, p) as int;
    if m < n {
        assert(p(lines[m]));
    } else if n < m {
        assert(p(lines[n]));
    }
}

/// Whether `a` and `b` hold the same characters.
pub fn equal(a: &Vec<char>, b: &Vec<char>) -> (r: bool)
    ensures
        r == (a@ == b@),
{
    if a.len() != b.len() {
        return false;
    }
    let r = matches_at(a, b, 0);
    proof {
        assert(a@.subrange(0, a.len() as int) == a@);
    }
    r
}

/// The lines of `text`, each a string of its own.
pub fn lines_of(text: &str) -> (r: Vec<String>)
    ensures
        string_views(r@) == lines(text@),
{
    let chars = chars_of(text);
    let ls = split_lines(&chars);
    let mut r: Vec<String> = Vec::new();
    let mut i: usize = 0;
    while i < ls.len()
        invariant
            i <= ls.len(),
            views(ls@) == lines(text@),
            string_views(r@) == lines(text@).take(i as int),
        decreases ls.len() - i,
    {
        let ghost before = r@;
        let line = string_of(&ls[i]);
        r.push(line);
        proof {
            assert(ls@[i as int]@ == lines(text@)[i as int]);
            assert(string_views(r@) =~= string_views(before).push(line@));
            assert(lines(text@).take(i + 1) =~= lines(text@).take(i as int).push(
                lines(text@)[i as int],
            ));
        }
        i += 1;
    }
    proof {
        assert(lines(text@).take(i as int) == lines(text@));
    }
    r
}

} // verus!

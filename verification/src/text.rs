//! White space, lines and fields of a text, over sequences of characters.

use vstd::prelude::*;

verus! {

/// Whether `c` carries Unicode's `White_Space` property.
pub open spec fn is_space(c: char) -> bool {
    let n = c as u32;
    ||| 0x09 <= n <= 0x0D
    ||| n == 0x20
    ||| n == 0x85
    ||| n == 0xA0
    ||| n == 0x1680
    ||| 0x2000 <= n <= 0x200A
    ||| n == 0x2028
    ||| n == 0x2029
    ||| n == 0x202F
    ||| n == 0x205F
    ||| n == 0x3000
}

/// The first position at or after `from` that holds no white space, or the
/// length of `s` where only white space follows.
pub open spec fn skip_spaces(s: Seq<char>, from: int) -> int
    decreases s.len() - from,
{
    if from >= s.len() {
        s.len() as int
    } else if !is_space(s[from]) {
        from
    } else {
        skip_spaces(s, from + 1)
    }
}

/// The first position at or after `from` that holds white space, or the
/// length of `s` where none follows.
pub open spec fn word_end(s: Seq<char>, from: int) -> int
    decreases s.len() - from,
{
    if from >= s.len() {
        s.len() as int
    } else if is_space(s[from]) {
        from
    } else {
        word_end(s, from + 1)
    }
}

/// The end of `s` once the white space before position `to` is cut off.
pub open spec fn trim_back(s: Seq<char>, to: int) -> int
    decreases to,
{
    if to <= 0 {
        0
    } else if !is_space(s[to - 1]) {
        to
    } else {
        trim_back(s, to - 1)
    }
}

/// `s` without leading and trailing white space.
pub open spec fn trimmed(s: Seq<char>) -> Seq<char> {
    let a = skip_spaces(s, 0);
    let b = trim_back(s, s.len() as int);
    if a < b {
        s.subrange(a, b)
    } else {
        Seq::empty()
    }
}

/// Whether `s` holds nothing but white space.
pub open spec fn is_blank(s: Seq<char>) -> bool {
    skip_spaces(s, 0) >= s.len()
}

/// Skipping white space moves forward, stays within the text, and stops
/// on a character that is no white space or at the end.
pub proof fn lemma_skip_spaces_bounds(s: Seq<char>, from: int)
    requires
        0 <= from <= s.len(),
    ensures
        from <= skip_spaces(s, from) <= s.len(),
        skip_spaces(s, from) < s.len() ==> !is_space(s[skip_spaces(s, from)]),
    decreases s.len() - from,
{
    if from < s.len() && is_space(s[from]) {
        lemma_skip_spaces_bounds(s, from + 1);
    }
}

/// The end of a word lies within the text, and beyond the word's start
/// where a word starts there.
pub proof fn lemma_word_end_bounds(s: Seq<char>, from: int)
    requires
        0 <= from <= s.len(),
    ensures
        from <= word_end(s, from) <= s.len(),
        from < s.len() && !is_space(s[from]) ==> from < word_end(s, from),
    decreases s.len() - from,
{
    if from < s.len() && !is_space(s[from]) {
        lemma_word_end_bounds(s, from + 1);
    }
}

/// The fields of `s` from position `from` on: its maximal runs of characters
/// that are no white space, in order.
pub open spec fn fields_from(s: Seq<char>, from: int) -> Seq<Seq<char>>
    decreases s.len() - from,
{
    if from < 0 {
        Seq::empty()
    } else {
        let a = skip_spaces(s, from);
        if a >= s.len() {
            Seq::empty()
        } else {
            let b = word_end(s, a);
            proof {
                lemma_skip_spaces_bounds(s, from);
                lemma_word_end_bounds(s, a);
            }
            seq![s.subrange(a, b)] + fields_from(s, b)
        }
    }
}

/// The white-space-separated fields of `s`.
pub open spec fn fields(s: Seq<char>) -> Seq<Seq<char>> {
    fields_from(s, 0)
}

/// The first position at or after `from` that holds a line feed, or the
/// length of `s` where none follows.
pub open spec fn line_end(s: Seq<char>, from: int) -> int
    decreases s.len() - from,
{
    if from >= s.len() {
        s.len() as int
    } else if s[from] == '\n' {
        from
    } else {
        line_end(s, from + 1)
    }
}

/// The end of a line lies at or after its start and within the text.
pub proof fn lemma_line_end_bounds(s: Seq<char>, from: int)
    requires
        0 <= from <= s.len(),
    ensures
        from <= line_end(s, from) <= s.len(),
    decreases s.len() - from,
{
    if from < s.len() && s[from] != '\n' {
        lemma_line_end_bounds(s, from + 1);
    }
}

/// The lines of `s` from position `from` on. A line ends before a line feed
/// or at the end of `s`; after a final line feed an empty line follows.
pub open spec fn lines_from(s: Seq<char>, from: int) -> Seq<Seq<char>>
    decreases s.len() - from,
{
    if from < 0 || from > s.len() {
        Seq::empty()
    } else {
        let e = line_end(s, from);
        if e >= s.len() {
            seq![s.subrange(from, s.len() as int)]
        } else {
            proof {
                lemma_line_end_bounds(s, from);
            }
            seq![s.subrange(from, e)] + lines_from(s, e + 1)
        }
    }
}

/// The lines of `s`, split at each line feed.
pub open spec fn split_lines(s: Seq<char>) -> Seq<Seq<char>> {
    lines_from(s, 0)
}

/// Whether `s` holds no line feed.
pub open spec fn is_single_line(s: Seq<char>) -> bool {
    forall|i: int| 0 <= i < s.len() ==> s[i] != '\n'
}

/// A text without a line feed is one line.
pub proof fn lemma_single_line(s: Seq<char>)
    requires
        is_single_line(s),
    ensures
        split_lines(s) == seq![s],
{
    lemma_line_end_of_single_line(s, 0);
    assert(s.subrange(0, s.len() as int) =~= s);
}

/// In a text without a line feed every line ends with the text.
proof fn lemma_line_end_of_single_line(s: Seq<char>, from: int)
    requires
        is_single_line(s),
        0 <= from <= s.len(),
    ensures
        line_end(s, from) == s.len(),
    decreases s.len() - from,
{
    if from < s.len() {
        lemma_line_end_of_single_line(s, from + 1);
    }
}

/// Behind a prefix a line ends where it ends without the prefix.
proof fn lemma_line_end_after_prefix(p: Seq<char>, y: Seq<char>, k: int)
    requires
        0 <= k <= y.len(),
    ensures
        line_end(p + y, p.len() + k) == p.len() + line_end(y, k),
    decreases y.len() - k,
{
    if k < y.len() {
        assert((p + y)[p.len() + k] == y[k]);
        if y[k] != '\n' {
            lemma_line_end_after_prefix(p, y, k + 1);
        }
    }
}

/// Behind a prefix the lines are those of the text without the prefix.
proof fn lemma_lines_after_prefix(p: Seq<char>, y: Seq<char>, k: int)
    requires
        0 <= k <= y.len(),
    ensures
        lines_from(p + y, p.len() + k) == lines_from(y, k),
    decreases y.len() - k,
{
    let z = p + y;
    lemma_line_end_after_prefix(p, y, k);
    lemma_line_end_bounds(y, k);
    let e = line_end(y, k);
    assert(z.subrange(p.len() + k, p.len() + e) =~= y.subrange(k, e));
    if e < y.len() {
        lemma_lines_after_prefix(p, y, e + 1);
    }
}

/// A line of `x` ends in `x` followed by a line feed where it ends in `x`
/// alone, the last one before that line feed.
proof fn lemma_line_end_in_prefix(x: Seq<char>, rest: Seq<char>, from: int)
    requires
        0 <= from <= x.len(),
        rest.len() > 0,
        rest[0] == '\n',
    ensures
        line_end(x, from) < x.len() ==> line_end(x + rest, from) == line_end(x, from),
        line_end(x, from) >= x.len() ==> line_end(x + rest, from) == x.len(),
    decreases x.len() - from,
{
    if from < x.len() {
        assert((x + rest)[from] == x[from]);
        if x[from] != '\n' {
            lemma_line_end_in_prefix(x, rest, from + 1);
        }
    } else {
        assert((x + rest)[from] == rest[0]);
    }
}

/// The lines of two texts joined by a line feed, from a position in the
/// first text on.
proof fn lemma_lines_across_line_feed(x: Seq<char>, y: Seq<char>, from: int)
    requires
        0 <= from <= x.len(),
    ensures
        lines_from(x + seq!['\n'] + y, from) == lines_from(x, from) + split_lines(y),
    decreases x.len() - from,
{
    let rest = seq!['\n'] + y;
    let z = x + seq!['\n'] + y;
    assert(z =~= x + rest);
    lemma_line_end_in_prefix(x, rest, from);
    lemma_line_end_bounds(x, from);
    let e = line_end(x, from);
    if e < x.len() {
        assert(z.subrange(from, e) =~= x.subrange(from, e));
        lemma_lines_across_line_feed(x, y, e + 1);
        assert(lines_from(z, from) =~= lines_from(x, from) + split_lines(y));
    } else {
        assert(z.subrange(from, x.len() as int) =~= x.subrange(from, x.len() as int));
        lemma_lines_after_prefix(x + seq!['\n'], y, 0);
        assert(lines_from(z, from) =~= lines_from(x, from) + split_lines(y));
    }
}

/// The lines of two texts joined by a line feed are the lines of the first,
/// followed by the lines of the second.
pub proof fn lemma_split_lines_concat(x: Seq<char>, y: Seq<char>)
    ensures
        split_lines(x + seq!['\n'] + y) == split_lines(x) + split_lines(y),
{
    lemma_lines_across_line_feed(x, y, 0);
}

/// `lines` put together to one text, a line feed between each two.
pub open spec fn join_lines(lines: Seq<Seq<char>>) -> Seq<char>
    decreases lines.len(),
{
    if lines.len() == 0 {
        Seq::empty()
    } else if lines.len() == 1 {
        lines[0]
    } else {
        join_lines(lines.drop_last()) + seq!['\n'] + lines.last()
    }
}

/// Lines that hold no line feed are found again when the text that they
/// were put together to is split.
pub proof fn lemma_split_joined_lines(lines: Seq<Seq<char>>)
    requires
        lines.len() > 0,
        forall|i: int| 0 <= i < lines.len() ==> is_single_line(#[trigger] lines[i]),
    ensures
        split_lines(join_lines(lines)) == lines,
    decreases lines.len(),
{
    if lines.len() == 1 {
        lemma_single_line(lines[0]);
        assert(seq![lines[0]] =~= lines);
    } else {
        let before = lines.drop_last();
        lemma_split_joined_lines(before);
        lemma_single_line(lines.last());
        lemma_split_lines_concat(join_lines(before), lines.last());
        assert(before + seq![lines.last()] =~= lines);
    }
}

/// No white space stands between a position and the end of the word there.
proof fn lemma_word_is_unbroken(s: Seq<char>, from: int)
    requires
        0 <= from <= s.len(),
    ensures
        forall|j: int| from <= j < word_end(s, from) ==> !is_space(#[trigger] s[j]),
    decreases s.len() - from,
{
    if from < s.len() && !is_space(s[from]) {
        lemma_word_is_unbroken(s, from + 1);
    }
}

/// Whether `w` is a word: not empty, and free of white space.
pub open spec fn is_word(w: Seq<char>) -> bool {
    &&& w.len() > 0
    &&& forall|j: int| 0 <= j < w.len() ==> !is_space(#[trigger] w[j])
}

/// Each field of a text is a word.
pub proof fn lemma_fields_are_words(s: Seq<char>, from: int)
    requires
        0 <= from <= s.len(),
    ensures
        forall|i: int| 0 <= i < fields_from(s, from).len() ==> is_word(#[trigger] fields_from(s, from)[i]),
    decreases s.len() - from,
{
    lemma_skip_spaces_bounds(s, from);
    let a = skip_spaces(s, from);
    if a < s.len() {
        lemma_word_end_bounds(s, a);
        lemma_word_is_unbroken(s, a);
        let b = word_end(s, a);
        lemma_fields_are_words(s, b);
        assert(is_word(s.subrange(a, b)));
        assert forall|i: int| 0 <= i < fields_from(s, from).len() implies is_word(
            #[trigger] fields_from(s, from)[i],
        ) by {
            if i > 0 {
                assert(fields_from(s, from)[i] == fields_from(s, b)[i - 1]);
            }
        }
    }
}

/// Whether `g` holds nothing but white space.
pub open spec fn is_gap(g: Seq<char>) -> bool {
    forall|j: int| 0 <= j < g.len() ==> is_space(#[trigger] g[j])
}

/// Behind a prefix white space ends where it ends without the prefix.
proof fn lemma_skip_spaces_after_prefix(p: Seq<char>, y: Seq<char>, k: int)
    requires
        0 <= k <= y.len(),
    ensures
        skip_spaces(p + y, p.len() + k) == p.len() + skip_spaces(y, k),
    decreases y.len() - k,
{
    if k < y.len() {
        assert((p + y)[p.len() + k] == y[k]);
        if is_space(y[k]) {
            lemma_skip_spaces_after_prefix(p, y, k + 1);
        }
    }
}

/// Behind a prefix a word ends where it ends without the prefix.
proof fn lemma_word_end_after_prefix(p: Seq<char>, y: Seq<char>, k: int)
    requires
        0 <= k <= y.len(),
    ensures
        word_end(p + y, p.len() + k) == p.len() + word_end(y, k),
    decreases y.len() - k,
{
    if k < y.len() {
        assert((p + y)[p.len() + k] == y[k]);
        if !is_space(y[k]) {
            lemma_word_end_after_prefix(p, y, k + 1);
        }
    }
}

/// Behind a prefix the fields are those of the text without the prefix.
proof fn lemma_fields_after_prefix(p: Seq<char>, y: Seq<char>, k: int)
    requires
        0 <= k <= y.len(),
    ensures
        fields_from(p + y, p.len() + k) == fields_from(y, k),
    decreases y.len() - k,
{
    let z = p + y;
    lemma_skip_spaces_after_prefix(p, y, k);
    lemma_skip_spaces_bounds(y, k);
    let a = skip_spaces(y, k);
    if a < y.len() {
        lemma_word_end_after_prefix(p, y, a);
        lemma_word_end_bounds(y, a);
        let b = word_end(y, a);
        assert(z.subrange(p.len() + a, p.len() + b) =~= y.subrange(a, b));
        lemma_fields_after_prefix(p, y, b);
    }
}

/// White space from `from` up to `to`, and none at `to`: skipping it from
/// `from` leads to `to`.
proof fn lemma_skip_spaces_is(s: Seq<char>, from: int, to: int)
    requires
        0 <= from <= to <= s.len(),
        forall|j: int| from <= j < to ==> is_space(#[trigger] s[j]),
        to == s.len() || !is_space(s[to]),
    ensures
        skip_spaces(s, from) == to,
    decreases to - from,
{
    if from < to {
        lemma_skip_spaces_is(s, from + 1, to);
    }
}

/// No white space from `from` up to `to`, and white space or the end at
/// `to`: the word at `from` ends at `to`.
proof fn lemma_word_end_is(s: Seq<char>, from: int, to: int)
    requires
        0 <= from <= to <= s.len(),
        forall|j: int| from <= j < to ==> !is_space(#[trigger] s[j]),
        to == s.len() || is_space(s[to]),
    ensures
        word_end(s, from) == to,
    decreases to - from,
{
    if from < to {
        lemma_word_end_is(s, from + 1, to);
    }
}

/// The fields of a text that begins with white space and a word, and goes
/// on with white space or ends there, are that word and the fields of what
/// follows it.
pub proof fn lemma_fields_after_word(gap: Seq<char>, word: Seq<char>, rest: Seq<char>)
    requires
        is_gap(gap),
        is_word(word),
        rest.len() == 0 || is_space(rest[0]),
    ensures
        fields(gap + word + rest) == seq![word] + fields(rest),
{
    let s = gap + word + rest;
    let a = gap.len() as int;
    let b = a + word.len();
    assert forall|j: int| 0 <= j < a implies is_space(#[trigger] s[j]) by {
        assert(s[j] == gap[j]);
    }
    assert forall|j: int| a <= j < b implies !is_space(#[trigger] s[j]) by {
        assert(s[j] == word[j - a]);
    }
    if rest.len() > 0 {
        assert(s[b] == rest[0]);
    }
    lemma_skip_spaces_is(s, 0, a);
    lemma_word_end_is(s, a, b);
    assert(s.subrange(a, b) =~= word);
    lemma_fields_after_prefix(gap + word, rest, 0);
}

/// Cutting off trailing white space keeps every character that is none.
proof fn lemma_trim_back_keeps(s: Seq<char>, to: int, a: int)
    requires
        0 <= a < to <= s.len(),
        !is_space(s[a]),
    ensures
        a < trim_back(s, to) <= to,
    decreases to,
{
    if is_space(s[to - 1]) {
        lemma_trim_back_keeps(s, to - 1, a);
    }
}

/// A text is blank exactly where nothing is left of it once the white
/// space around it is cut off; what is left of another text begins and ends
/// with a character that is no white space.
pub proof fn lemma_trimmed_of_blank(s: Seq<char>)
    ensures
        is_blank(s) <==> trimmed(s).len() == 0,
        !is_blank(s) ==> !is_space(trimmed(s).first()) && !is_space(trimmed(s).last()),
{
    lemma_skip_spaces_bounds(s, 0);
    let a = skip_spaces(s, 0);
    lemma_trim_back_stops(s, s.len() as int);
    if a < s.len() {
        lemma_trim_back_keeps(s, s.len() as int, a);
    }
}

/// Cutting off trailing white space stops behind a character that is none,
/// or at the start.
proof fn lemma_trim_back_stops(s: Seq<char>, to: int)
    requires
        0 <= to <= s.len(),
    ensures
        0 <= trim_back(s, to) <= to,
        trim_back(s, to) > 0 ==> !is_space(s[trim_back(s, to) - 1]),
    decreases to,
{
    if to > 0 && is_space(s[to - 1]) {
        lemma_trim_back_stops(s, to - 1);
    }
}

/// A text of white space alone has no field.
pub proof fn lemma_fields_of_gap(gap: Seq<char>)
    requires
        is_gap(gap),
    ensures
        fields(gap).len() == 0,
        is_blank(gap),
{
    lemma_skip_spaces_is(gap, 0, gap.len() as int);
}

/// What `strings` hold, each as its sequence of characters.
pub open spec fn string_views(strings: Seq<String>) -> Seq<Seq<char>> {
    strings.map_values(|s: String| s@)
}

/// Whether `needle` stands somewhere in `hay` as a run of neighbours.
pub open spec fn occurs_in(needle: Seq<char>, hay: Seq<char>) -> bool {
    exists|i: int|
        0 <= i <= hay.len() - needle.len() && #[trigger] hay.subrange(i, i + needle.len())
            == needle
}

/// Tells whether `needle` stands somewhere in `hay`.
pub fn contains(hay: &Vec<char>, needle: &Vec<char>) -> (r: bool)
    ensures
        r == occurs_in(needle@, hay@),
{
    let n: usize = hay.len();
    let m: usize = needle.len();
    if m > n {
        return false;
    }
    let mut i: usize = 0;
    while i <= n - m
        invariant
            n == hay.len(),
            m == needle.len(),
            m <= n,
            i <= n - m + 1,
            forall|k: int| 0 <= k < i ==> #[trigger] hay@.subrange(k, k + m) != needle@,
        decreases n - m + 1 - i,
    {
        let mut j: usize = 0;
        while j < m && hay[i + j] == needle[j]
            invariant
                n == hay.len(),
                m == needle.len(),
                i <= n - m,
                j <= m,
                forall|k: int| 0 <= k < j ==> hay@[i + k] == needle@[k],
            decreases m - j,
        {
            j += 1;
        }
        if j >= m {
            assert(hay@.subrange(i as int, i + m) =~= needle@);
            return true;
        }
        assert(hay@.subrange(i as int, i + m)[j as int] != needle@[j as int]);
        i += 1;
    }
    false
}

/// Tells whether `c` is white space.
pub fn is_whitespace(c: char) -> (r: bool)
    ensures
        r == is_space(c),
{
    let n: u32 = c as u32;
    (0x09 <= n && n <= 0x0D) || n == 0x20 || n == 0x85 || n == 0xA0 || n == 0x1680 || (0x2000 <= n
        && n <= 0x200A) || n == 0x2028 || n == 0x2029 || n == 0x202F || n == 0x205F || n == 0x3000
}

/// The characters of `s`, in order.
pub fn characters(s: &str) -> (r: Vec<char>)
    ensures
        r@ == s@,
{
    let mut out: Vec<char> = Vec::new();
    for c in it: s.chars()
        invariant
            out@ == it.seq().take(it.index() as int),
    {
        out.push(c);
    }
    out
}

} // verus!

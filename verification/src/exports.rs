//! Reading the export table out of the library inspector's listing.

use vstd::prelude::*;
use vstd::string::StrSliceExecFns;
use vstd::string::StringExecFns;
use crate::error::GeneratorError;
use crate::error::ParseFailure;
use crate::text::characters;
use crate::text::fields;
use crate::text::fields_from;
use crate::text::is_blank;
use crate::text::is_single_line;
use crate::text::is_whitespace;
use crate::text::is_word;
use crate::text::join_lines;
use crate::text::lemma_fields_are_words;
use crate::text::lemma_skip_spaces_bounds;
use crate::text::lemma_split_joined_lines;
use crate::text::lemma_word_end_bounds;
use crate::text::line_end;
use crate::text::lines_from;
use crate::text::skip_spaces;
use crate::text::split_lines;
use crate::text::string_views;
use crate::text::trim_back;
use crate::text::trimmed;
use crate::text::word_end;

verus! {

/// The position of the name among the fields of an export line, from zero.
pub const NAME_FIELD: usize = 3;

/// The line that stands above the export table.
pub open spec fn column_header() -> Seq<char> {
    "ordinal hint RVA      name"@
}

/// Whether `line`, without the white space around it, is the column header.
pub open spec fn is_header(line: Seq<char>) -> bool {
    trimmed(line) == column_header()
}

/// The index of the first header line at or after `from`, or the number of
/// lines where there is none.
pub open spec fn find_header(lines: Seq<Seq<char>>, from: int) -> int
    decreases lines.len() - from,
{
    if from >= lines.len() {
        lines.len() as int
    } else if is_header(lines[from]) {
        from
    } else {
        find_header(lines, from + 1)
    }
}

/// The index of the first blank line at or after `from`, or the number of
/// lines where there is none.
pub open spec fn table_end(lines: Seq<Seq<char>>, from: int) -> int
    decreases lines.len() - from,
{
    if from >= lines.len() {
        lines.len() as int
    } else if is_blank(lines[from]) {
        from
    } else {
        table_end(lines, from + 1)
    }
}

/// The index of the first line of the export table: the header and the
/// separator below it are passed over.
pub open spec fn table_start(lines: Seq<Seq<char>>) -> int {
    let h = find_header(lines, 0);
    if h + 2 <= lines.len() {
        h + 2
    } else {
        lines.len() as int
    }
}

/// Whether a line among `lines[from..to]` has too few fields to hold a name.
pub open spec fn has_short_line(lines: Seq<Seq<char>>, from: int, to: int) -> bool {
    exists|i: int| from <= i < to && #[trigger] fields(lines[i]).len() <= NAME_FIELD
}

/// The name field of each of `lines[from..to]`, in order.
pub open spec fn names_of_lines(lines: Seq<Seq<char>>, from: int, to: int) -> Seq<Seq<char>> {
    Seq::new((to - from) as nat, |i: int| fields(lines[from + i])[NAME_FIELD as int])
}

/// What a listing yields: the names of its export table in the order of the
/// listing, or the reason why it has none.
///
/// The table begins two lines below the first header line and ends before
/// the first blank line, or with the listing. Of each of its lines only the
/// name field is read.
pub open spec fn parse_export_table(listing: Seq<char>) -> Result<Seq<Seq<char>>, ParseFailure> {
    let lines = split_lines(listing);
    if find_header(lines, 0) >= lines.len() {
        Err(ParseFailure::MissingHeader)
    } else {
        let start = table_start(lines);
        let end = table_end(lines, start);
        if has_short_line(lines, start, end) {
            Err(ParseFailure::ShortLine)
        } else {
            Ok(names_of_lines(lines, start, end))
        }
    }
}

/// The table that begins at `from` ends at or after `from` and within the
/// lines.
pub proof fn lemma_table_end_bounds(lines: Seq<Seq<char>>, from: int)
    requires
        0 <= from <= lines.len(),
    ensures
        from <= table_end(lines, from) <= lines.len(),
    decreases lines.len() - from,
{
    if from < lines.len() && !is_blank(lines[from]) {
        lemma_table_end_bounds(lines, from + 1);
    }
}

/// Whether `bounds` gives, line by line, the place of each of `lines` in `text`.
pub open spec fn bounds_match(text: Seq<char>, bounds: Seq<(usize, usize)>, lines: Seq<Seq<char>>) -> bool {
    &&& bounds.len() == lines.len()
    &&& forall|k: int|
        0 <= k < bounds.len() ==> {
            &&& (#[trigger] bounds[k]).0 <= bounds[k].1 <= text.len()
            &&& lines[k] == text.subrange(bounds[k].0 as int, bounds[k].1 as int)
        }
}

/// Where each line of `text` begins and ends.
pub fn line_bounds(text: &Vec<char>) -> (r: Vec<(usize, usize)>)
    ensures
        bounds_match(text@, r@, split_lines(text@)),
{
    let n: usize = text.len();
    let mut out: Vec<(usize, usize)> = Vec::new();
    let mut pos: usize = 0;
    let ghost mut done: Seq<Seq<char>> = Seq::empty();
    loop
        invariant
            n == text.len(),
            pos <= n,
            bounds_match(text@, out@, done),
            split_lines(text@) =~= done + lines_from(text@, pos as int),
        decreases n - pos,
    {
        let mut e: usize = pos;
        while e < n && text[e] != '\n'
            invariant
                n == text.len(),
                pos <= e <= n,
                line_end(text@, pos as int) == line_end(text@, e as int),
            decreases n - e,
        {
            e += 1;
        }
        out.push((pos, e));
        let ghost line = text@.subrange(pos as int, e as int);
        if e >= n {
            proof {
                assert(lines_from(text@, pos as int) =~= seq![line]);
                assert(split_lines(text@) =~= done.push(line));
                done = done.push(line);
            }
            return out;
        }
        proof {
            assert(lines_from(text@, pos as int) =~= seq![line] + lines_from(text@, e + 1));
            assert(done + (seq![line] + lines_from(text@, e + 1)) =~= done.push(line) + lines_from(
                text@,
                e + 1,
            ));
            done = done.push(line);
        }
        pos = e + 1;
    }
}

/// The first position of the line `text[ls..le]`, at or after `from`, that
/// holds no white space; positions count from the line's start.
pub fn scan_spaces(text: &Vec<char>, ls: usize, le: usize, from: usize) -> (r: usize)
    requires
        ls <= le <= text.len(),
        from <= le - ls,
    ensures
        r == skip_spaces(text@.subrange(ls as int, le as int), from as int),
        from <= r <= le - ls,
{
    let ghost line = text@.subrange(ls as int, le as int);
    let n: usize = le - ls;
    let mut i: usize = from;
    while i < n && is_whitespace(text[ls + i])
        invariant
            ls <= le <= text.len(),
            n == le - ls,
            from <= i <= n,
            line == text@.subrange(ls as int, le as int),
            skip_spaces(line, from as int) == skip_spaces(line, i as int),
        decreases n - i,
    {
        i += 1;
    }
    i
}

/// The first position of the line `text[ls..le]`, at or after `from`, that
/// holds white space; positions count from the line's start.
pub fn scan_word(text: &Vec<char>, ls: usize, le: usize, from: usize) -> (r: usize)
    requires
        ls <= le <= text.len(),
        from <= le - ls,
    ensures
        r == word_end(text@.subrange(ls as int, le as int), from as int),
        from <= r <= le - ls,
{
    let ghost line = text@.subrange(ls as int, le as int);
    let n: usize = le - ls;
    let mut i: usize = from;
    while i < n && !is_whitespace(text[ls + i])
        invariant
            ls <= le <= text.len(),
            n == le - ls,
            from <= i <= n,
            line == text@.subrange(ls as int, le as int),
            word_end(line, from as int) == word_end(line, i as int),
        decreases n - i,
    {
        i += 1;
    }
    i
}

/// The end of the line `text[ls..le]` once its trailing white space is cut
/// off; positions count from the line's start.
pub fn scan_back(text: &Vec<char>, ls: usize, le: usize) -> (r: usize)
    requires
        ls <= le <= text.len(),
    ensures
        r == trim_back(text@.subrange(ls as int, le as int), le - ls),
        r <= le - ls,
{
    let ghost line = text@.subrange(ls as int, le as int);
    let mut i: usize = le - ls;
    while i > 0 && is_whitespace(text[ls + i - 1])
        invariant
            ls <= le <= text.len(),
            i <= le - ls,
            line == text@.subrange(ls as int, le as int),
            trim_back(line, le - ls) == trim_back(line, i as int),
        decreases i,
    {
        i -= 1;
    }
    i
}

/// The place of field number `index` (from zero) in the line `text[ls..le]`,
/// counted from the line's start, if the line has that many fields.
pub fn field_at(text: &Vec<char>, ls: usize, le: usize, index: usize) -> (r: Option<(usize, usize)>)
    requires
        ls <= le <= text.len(),
    ensures
        r is Some <==> fields(text@.subrange(ls as int, le as int)).len() > index,
        r matches Some((a, b)) ==> {
            &&& a <= b <= le - ls
            &&& fields(text@.subrange(ls as int, le as int))[index as int] == text@.subrange(
                ls + a,
                ls + b,
            )
        },
{
    let ghost line = text@.subrange(ls as int, le as int);
    let n: usize = le - ls;
    let mut pos: usize = 0;
    let mut k: usize = 0;
    let ghost mut seen: Seq<Seq<char>> = Seq::empty();
    loop
        invariant
            ls <= le <= text.len(),
            n == le - ls,
            pos <= n,
            k <= index,
            seen.len() == k,
            line == text@.subrange(ls as int, le as int),
            fields(line) =~= seen + fields_from(line, pos as int),
        decreases n - pos,
    {
        let a: usize = scan_spaces(text, ls, le, pos);
        if a >= n {
            proof {
                assert(fields_from(line, pos as int) =~= Seq::<Seq<char>>::empty());
            }
            return None;
        }
        let b: usize = scan_word(text, ls, le, a);
        proof {
            lemma_skip_spaces_bounds(line, pos as int);
            lemma_word_end_bounds(line, a as int);
            assert(fields_from(line, pos as int) =~= seq![line.subrange(a as int, b as int)]
                + fields_from(line, b as int));
            assert(line.subrange(a as int, b as int) =~= text@.subrange(ls + a, ls + b));
        }
        if k == index {
            return Some((a, b));
        }
        proof {
            assert(seen + (seq![line.subrange(a as int, b as int)] + fields_from(line, b as int))
                =~= seen.push(line.subrange(a as int, b as int)) + fields_from(line, b as int));
            seen = seen.push(line.subrange(a as int, b as int));
        }
        k += 1;
        pos = b;
    }
}

/// Tells whether the line `text[ls..le]`, without the white space around it,
/// is the column header.
pub fn line_is_header(text: &Vec<char>, ls: usize, le: usize) -> (r: bool)
    requires
        ls <= le <= text.len(),
    ensures
        r == is_header(text@.subrange(ls as int, le as int)),
{
    let ghost line = text@.subrange(ls as int, le as int);
    let header = "ordinal hint RVA      name";
    let a: usize = scan_spaces(text, ls, le, 0);
    let b: usize = scan_back(text, ls, le);
    let hn: usize = header.unicode_len();
    if a >= b {
        proof {
            reveal_strlit("ordinal hint RVA      name");
        }
        return false;
    }
    if b - a != hn {
        return false;
    }
    let mut i: usize = 0;
    while i < hn
        invariant
            ls <= le <= text.len(),
            a < b <= le - ls,
            b - a == hn,
            hn == header@.len(),
            header@ == column_header(),
            a == skip_spaces(line, 0),
            b == trim_back(line, le - ls),
            i <= hn,
            line == text@.subrange(ls as int, le as int),
            forall|j: int| 0 <= j < i ==> line[a + j] == header@[j],
        decreases hn - i,
    {
        if text[ls + a + i] != header.get_char(i) {
            assert(trimmed(line)[i as int] != header@[i as int]);
            return false;
        }
        i += 1;
    }
    assert(trimmed(line) =~= header@);
    true
}

/// Tells whether the line `text[ls..le]` holds nothing but white space.
pub fn line_is_blank(text: &Vec<char>, ls: usize, le: usize) -> (r: bool)
    requires
        ls <= le <= text.len(),
    ensures
        r == is_blank(text@.subrange(ls as int, le as int)),
{
    let a: usize = scan_spaces(text, ls, le, 0);
    a >= le - ls
}

/// Reads the export table out of the inspector's listing.
///
/// On success the names come in the order of the listing, one for each line
/// of the table. The listing is refused where it has no header line, and
/// where a line of the table has fewer than four fields.
pub fn extract_exports(listing: &str) -> (r: Result<Vec<String>, GeneratorError>)
    ensures
        match parse_export_table(listing@) {
            Ok(names) => r is Ok && string_views(r->Ok_0@) == names,
            Err(failure) => r == Err::<Vec<String>, GeneratorError>(GeneratorError::Parse(failure)),
        },
{
    let text = characters(listing);
    let bounds = line_bounds(&text);
    let ghost lines = split_lines(listing@);
    let count: usize = bounds.len();
    let mut h: usize = 0;
    while h < count && !line_is_header(&text, bounds[h].0, bounds[h].1)
        invariant
            text@ == listing@,
            lines == split_lines(listing@),
            bounds_match(text@, bounds@, lines),
            count == bounds.len(),
            h <= count,
            find_header(lines, 0) == find_header(lines, h as int),
        decreases count - h,
    {
        h += 1;
    }
    if h >= count {
        return Err(GeneratorError::Parse(ParseFailure::MissingHeader));
    }
    let start: usize = if count - h >= 2 {
        h + 2
    } else {
        count
    };
    let mut names: Vec<String> = Vec::new();
    let mut i: usize = start;
    while i < count && !line_is_blank(&text, bounds[i].0, bounds[i].1)
        invariant
            text@ == listing@,
            lines == split_lines(listing@),
            bounds_match(text@, bounds@, lines),
            count == bounds.len(),
            start == table_start(lines),
            start <= i <= count,
            table_end(lines, start as int) == table_end(lines, i as int),
            names.len() == i - start,
            forall|j: int| start <= j < i ==> fields(lines[j]).len() > NAME_FIELD,
            forall|j: int|
                0 <= j < names.len() ==> (#[trigger] names[j])@ == fields(
                    lines[start + j],
                )[NAME_FIELD as int],
        decreases count - i,
    {
        let ls: usize = bounds[i].0;
        let le: usize = bounds[i].1;
        match field_at(&text, ls, le, NAME_FIELD) {
            None => {
                proof {
                    lemma_table_end_bounds(lines, i + 1);
                    assert(fields(lines[i as int]).len() <= NAME_FIELD);
                }
                return Err(GeneratorError::Parse(ParseFailure::ShortLine));
            },
            Some((a, b)) => {
                let name = String::from_str(listing.substring_char(ls + a, ls + b));
                names.push(name);
            },
        }
        i += 1;
    }
    proof {
        let end = table_end(lines, start as int);
        assert(end == i);
        assert(!has_short_line(lines, start as int, end));
        assert(string_views(names@) =~= names_of_lines(lines, start as int, end));
    }
    Ok(names)
}

/// The search for the header from `from` on ends on the first header line
/// at or after `from`, or behind the last line where there is none.
pub proof fn lemma_find_header_bounds(lines: Seq<Seq<char>>, from: int)
    requires
        0 <= from <= lines.len(),
    ensures
        from <= find_header(lines, from) <= lines.len(),
        find_header(lines, from) < lines.len() ==> is_header(lines[find_header(lines, from)]),
        forall|i: int| from <= i < find_header(lines, from) ==> !is_header(#[trigger] lines[i]),
    decreases lines.len() - from,
{
    if from < lines.len() && !is_header(lines[from]) {
        lemma_find_header_bounds(lines, from + 1);
    }
}

/// Where the lines from `from` up to `end` are not blank, and the lines end
/// at `end` or line `end` is blank, the table that begins at `from` ends at
/// `end`.
pub proof fn lemma_table_end_is(lines: Seq<Seq<char>>, from: int, end: int)
    requires
        0 <= from <= end <= lines.len(),
        forall|i: int| from <= i < end ==> !is_blank(#[trigger] lines[i]),
        end == lines.len() || is_blank(lines[end]),
    ensures
        table_end(lines, from) == end,
    decreases end - from,
{
    if from < end {
        lemma_table_end_is(lines, from + 1, end);
    }
}

/// A listing that holds the column header, a separator line, then `n` lines
/// that each have a name field, then a blank line, yields exactly `n` names:
/// the name fields of those lines, in the order of the listing.
pub proof fn lemma_well_formed_listing_yields_all_names(listing: Seq<char>, n: nat)
    requires
        find_header(split_lines(listing), 0) + 2 + n < split_lines(listing).len(),
        forall|i: int|
            find_header(split_lines(listing), 0) + 2 <= i < find_header(split_lines(listing), 0)
                + 2 + n ==> {
                &&& !is_blank(#[trigger] split_lines(listing)[i])
                &&& fields(split_lines(listing)[i]).len() > NAME_FIELD
            },
        is_blank(split_lines(listing)[find_header(split_lines(listing), 0) + 2 + n]),
    ensures
        parse_export_table(listing) is Ok,
        parse_export_table(listing)->Ok_0.len() == n,
        forall|i: int|
            0 <= i < n ==> (#[trigger] parse_export_table(listing)->Ok_0[i]) == fields(
                split_lines(listing)[find_header(split_lines(listing), 0) + 2 + i],
            )[NAME_FIELD as int],
{
    let lines = split_lines(listing);
    lemma_find_header_bounds(lines, 0);
    let start = find_header(lines, 0) + 2;
    lemma_table_end_is(lines, start, start + n);
}

/// A listing of which no line is the column header is refused for that
/// reason: it yields no table, neither an empty one nor a part of one.
pub proof fn lemma_listing_without_header_is_refused(listing: Seq<char>)
    requires
        forall|i: int|
            0 <= i < split_lines(listing).len() ==> !is_header(#[trigger] split_lines(listing)[i]),
    ensures
        parse_export_table(listing) == Err::<Seq<Seq<char>>, ParseFailure>(
            ParseFailure::MissingHeader,
        ),
{
    lemma_find_header_bounds(split_lines(listing), 0);
}

/// A listing with a header is refused as soon as one line of its export
/// table has fewer than four fields.
pub proof fn lemma_short_line_is_refused(listing: Seq<char>, i: int)
    requires
        find_header(split_lines(listing), 0) < split_lines(listing).len(),
        table_start(split_lines(listing)) <= i < table_end(
            split_lines(listing),
            table_start(split_lines(listing)),
        ),
        fields(split_lines(listing)[i]).len() < 4,
    ensures
        parse_export_table(listing) == Err::<Seq<Seq<char>>, ParseFailure>(ParseFailure::ShortLine),
{
}

/// A listing is read with success exactly where it has a header line and
/// every line of its export table has a name field.
pub proof fn lemma_success_condition(listing: Seq<char>)
    ensures
        parse_export_table(listing) is Ok <==> {
            &&& find_header(split_lines(listing), 0) < split_lines(listing).len()
            &&& forall|i: int|
                table_start(split_lines(listing)) <= i < table_end(
                    split_lines(listing),
                    table_start(split_lines(listing)),
                ) ==> #[trigger] fields(split_lines(listing)[i]).len() > NAME_FIELD
        },
{
}

/// Every name that a listing yields is a word: it is not empty and holds
/// no white space, so no line feed either.
pub proof fn lemma_extracted_names_are_words(listing: Seq<char>)
    requires
        parse_export_table(listing) is Ok,
    ensures
        forall|i: int|
            0 <= i < parse_export_table(listing)->Ok_0.len() ==> is_word(
                #[trigger] parse_export_table(listing)->Ok_0[i],
            ),
{
    let lines = split_lines(listing);
    let start = table_start(lines);
    let end = table_end(lines, start);
    let names = parse_export_table(listing)->Ok_0;
    lemma_find_header_bounds(lines, 0);
    lemma_table_end_bounds(lines, start);
    assert forall|i: int| 0 <= i < names.len() implies is_word(#[trigger] names[i]) by {
        lemma_fields_are_words(lines[start + i], 0);
        assert(fields(lines[start + i]).len() > NAME_FIELD);
        assert(names[i] == fields(lines[start + i])[NAME_FIELD as int]);
    }
}

/// Where no line from `from` up to `h` is the header and line `h` is, the
/// search from `from` on ends on `h`.
pub proof fn lemma_find_header_is(lines: Seq<Seq<char>>, from: int, h: int)
    requires
        0 <= from <= h < lines.len(),
        forall|i: int| from <= i < h ==> !is_header(#[trigger] lines[i]),
        is_header(lines[h]),
    ensures
        find_header(lines, from) == h,
    decreases h - from,
{
    if from < h {
        lemma_find_header_is(lines, from + 1, h);
    }
}

/// A listing put together from any lines that are no header, a header
/// line, a separator line, then rows that each have a name field, then a
/// blank line and whatever follows it, yields the name field of each row,
/// in the order of the rows, and nothing else.
pub proof fn lemma_rows_yield_their_names(
    before: Seq<Seq<char>>,
    header: Seq<char>,
    separator: Seq<char>,
    rows: Seq<Seq<char>>,
    after: Seq<Seq<char>>,
)
    requires
        forall|i: int|
            0 <= i < before.len() ==> is_single_line(#[trigger] before[i]) && !is_header(before[i]),
        is_single_line(header),
        is_header(header),
        is_single_line(separator),
        forall|i: int|
            0 <= i < rows.len() ==> is_single_line(#[trigger] rows[i]) && fields(rows[i]).len()
                > NAME_FIELD,
        forall|i: int| 0 <= i < after.len() ==> is_single_line(#[trigger] after[i]),
        after.len() > 0,
        is_blank(after[0]),
    ensures
        parse_export_table(join_lines(before + seq![header, separator] + rows + after)) == Ok::<
            Seq<Seq<char>>,
            ParseFailure,
        >(Seq::new(rows.len(), |i: int| fields(rows[i])[NAME_FIELD as int])),
{
    let lines = before + seq![header, separator] + rows + after;
    let h = before.len() as int;
    let start = h + 2;
    let end = start + rows.len();
    assert forall|i: int| 0 <= i < lines.len() implies is_single_line(#[trigger] lines[i]) by {
        if i < h {
            assert(lines[i] == before[i]);
        } else if i < start {
        } else if i < end {
            assert(lines[i] == rows[i - start]);
        } else {
            assert(lines[i] == after[i - end]);
        }
    }
    lemma_split_joined_lines(lines);
    assert forall|i: int| 0 <= i < h implies !is_header(#[trigger] lines[i]) by {
        assert(lines[i] == before[i]);
    }
    assert(lines[h] == header);
    lemma_find_header_is(lines, 0, h);
    assert forall|i: int| start <= i < end implies !is_blank(#[trigger] lines[i]) && fields(
        lines[i],
    ).len() > NAME_FIELD by {
        assert(lines[i] == rows[i - start]);
    }
    assert(lines[end] == after[0]);
    lemma_table_end_is(lines, start, end);
    assert(!has_short_line(lines, start, end));
    assert(names_of_lines(lines, start, end) =~= Seq::new(
        rows.len(),
        |i: int| fields(rows[i])[NAME_FIELD as int],
    )) by {
        assert forall|i: int| 0 <= i < rows.len() implies lines[start + i] == rows[i] by {}
    }
}

} // verus!

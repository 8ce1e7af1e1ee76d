//! The module-definition text that names the exports to the librarian.

use vstd::prelude::*;
use vstd::string::StrSliceExecFns;
use vstd::string::StringExecFns;
use vstd::utf8::encode_utf8;
use crate::exports::lemma_extracted_names_are_words;
use crate::exports::parse_export_table;
use crate::text::is_single_line;
use crate::text::is_space;
use crate::text::is_word;
use crate::text::lemma_single_line;
use crate::text::lemma_split_lines_concat;
use crate::text::split_lines;
use crate::text::string_views;

verus! {

/// The directive line that opens a module definition.
pub open spec fn exports_directive() -> Seq<char> {
    "EXPORTS\n"@
}

/// What ends each line of a module definition.
pub open spec fn line_feed() -> Seq<char> {
    "\n"@
}

/// The module definition for `names`: the directive line, then each name on
/// a line of its own, in the order given.
pub open spec fn definition_text(names: Seq<Seq<char>>) -> Seq<char>
    decreases names.len(),
{
    if names.len() == 0 {
        exports_directive()
    } else {
        definition_text(names.drop_last()) + names.last() + line_feed()
    }
}

/// The bytes of the module-definition file for `names`.
pub open spec fn definition_bytes(names: Seq<Seq<char>>) -> Seq<u8> {
    encode_utf8(definition_text(names))
}

/// Writes out the module definition for `exports`.
pub fn module_definition(exports: &Vec<String>) -> (r: String)
    ensures
        r@ == definition_text(string_views(exports@)),
{
    let ghost names = string_views(exports@);
    let mut out = String::from_str("EXPORTS\n");
    let n: usize = exports.len();
    let mut i: usize = 0;
    while i < n
        invariant
            n == exports.len(),
            i <= n,
            names == string_views(exports@),
            out@ == definition_text(names.take(i as int)),
        decreases n - i,
    {
        proof {
            assert(names.take(i + 1).drop_last() =~= names.take(i as int));
            assert(names.take(i + 1).last() == exports@[i as int]@);
        }
        out.append(exports[i].as_str());
        out.append("\n");
        i += 1;
    }
    proof {
        assert(names.take(n as int) =~= names);
    }
    out
}

/// The bytes of the module-definition file for `exports`: its text in
/// UTF-8.
pub fn module_definition_bytes(exports: &Vec<String>) -> (r: Vec<u8>)
    ensures
        r@ == definition_bytes(string_views(exports@)),
{
    let text = module_definition(exports);
    text.as_str().as_bytes_vec()
}

/// Two lists that hold the same names in the same order have the same
/// module definition, byte for byte: writing it again changes nothing.
pub proof fn lemma_definition_is_reproducible(first: Seq<String>, second: Seq<String>)
    requires
        string_views(first) == string_views(second),
    ensures
        definition_text(string_views(first)) == definition_text(string_views(second)),
        definition_bytes(string_views(first)) == definition_bytes(string_views(second)),
{
}

/// The module definition of a list with one more name is that of the list,
/// followed by the name and a line feed: the names keep their order.
pub proof fn lemma_definition_grows_at_its_end(names: Seq<Seq<char>>, name: Seq<char>)
    ensures
        definition_text(names.push(name)) == definition_text(names) + name + line_feed(),
{
    assert(names.push(name).drop_last() =~= names);
}

/// A module definition ends with a line feed.
pub proof fn lemma_definition_ends_with_line_feed(names: Seq<Seq<char>>)
    ensures
        definition_text(names).len() > 0,
        definition_text(names).last() == '\n',
{
    reveal_strlit("EXPORTS\n");
    reveal_strlit("\n");
}

/// Read line by line, the module definition of names that hold no line
/// feed is the directive, then the names, one to a line and in their
/// order, then the empty line after the last line feed.
pub proof fn lemma_definition_lines(names: Seq<Seq<char>>)
    requires
        forall|i: int| 0 <= i < names.len() ==> is_single_line(#[trigger] names[i]),
    ensures
        split_lines(definition_text(names)) == seq!["EXPORTS"@] + names + seq![
            Seq::<char>::empty(),
        ],
    decreases names.len(),
{
    let empty = Seq::<char>::empty();
    reveal_strlit("EXPORTS\n");
    reveal_strlit("EXPORTS");
    reveal_strlit("\n");
    lemma_single_line(empty);
    if names.len() == 0 {
        let word = "EXPORTS"@;
        assert(definition_text(names) =~= word + seq!['\n'] + empty);
        lemma_single_line(word);
        lemma_split_lines_concat(word, empty);
        assert(split_lines(definition_text(names)) =~= seq![word] + names + seq![empty]);
    } else {
        let before = names.drop_last();
        let name = names.last();
        let text = definition_text(before);
        lemma_definition_lines(before);
        lemma_definition_ends_with_line_feed(before);
        let body = text.drop_last();
        assert(text =~= body + seq!['\n'] + empty);
        lemma_split_lines_concat(body, empty);
        assert(split_lines(body) =~= seq!["EXPORTS"@] + before) by {
            assert(split_lines(text).drop_last() =~= split_lines(body));
            assert((seq!["EXPORTS"@] + before + seq![empty]).drop_last() =~= seq!["EXPORTS"@]
                + before);
        }
        lemma_single_line(name);
        lemma_split_lines_concat(body, name);
        assert(definition_text(names) =~= (body + seq!['\n'] + name) + seq!['\n'] + empty);
        lemma_split_lines_concat(body + seq!['\n'] + name, empty);
        assert(split_lines(definition_text(names)) =~= seq!["EXPORTS"@] + names + seq![empty]);
    }
}

/// The module definition written for the names that a listing yields
/// holds, below the directive, exactly those names, one to a line and in
/// the order of the listing.
pub proof fn lemma_definition_of_extracted_names(listing: Seq<char>)
    requires
        parse_export_table(listing) is Ok,
    ensures
        split_lines(definition_text(parse_export_table(listing)->Ok_0)) == seq!["EXPORTS"@]
            + parse_export_table(listing)->Ok_0 + seq![Seq::<char>::empty()],
{
    let names = parse_export_table(listing)->Ok_0;
    lemma_extracted_names_are_words(listing);
    assert forall|i: int| 0 <= i < names.len() implies is_single_line(#[trigger] names[i]) by {
        assert(is_word(names[i]));
        assert forall|j: int| 0 <= j < names[i].len() implies names[i][j] != '\n' by {
            assert(!is_space(names[i][j]));
        }
    }
    lemma_definition_lines(names);
}

} // verus!

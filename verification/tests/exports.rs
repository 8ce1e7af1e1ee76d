use import_stub::error::GeneratorError;
use import_stub::error::ParseFailure;
use import_stub::exports::extract_exports;
use import_stub::exports::field_at;
use import_stub::exports::line_bounds;
use import_stub::exports::line_is_blank;
use import_stub::exports::line_is_header;
use import_stub::exports::scan_back;
use import_stub::exports::scan_spaces;
use import_stub::exports::scan_word;
use import_stub::exports::NAME_FIELD;
use import_stub::text::characters;
use import_stub::text::contains;
use import_stub::text::is_whitespace;

fn names(list: &[&str]) -> Vec<String> {
    list.iter().map(|s| s.to_string()).collect()
}

#[test]
fn listing_with_two_exports() {
    let listing = "ordinal hint RVA      name\n-------- ---- -------- ----\n   1    0 00001000 lua_call\n   2    1 00001010 lua_call2\n\n";
    assert_eq!(extract_exports(listing), Ok(names(&["lua_call", "lua_call2"])));
}

#[test]
fn listing_with_carriage_returns() {
    let listing = "Dump of file lua_shared.dll\r\n\r\n    ordinal hint RVA      name\r\n\r\n          1    0 00001000 luaL_addlstring\r\n          2    1 00001010 luaL_addstring\r\n          3    2 00001020 luaL_addvalue\r\n\r\n  Summary\r\n\r\n        1000 .data\r\n";
    assert_eq!(
        extract_exports(listing),
        Ok(names(&["luaL_addlstring", "luaL_addstring", "luaL_addvalue"]))
    );
}

#[test]
fn names_come_in_the_order_of_the_listing() {
    let mut listing = String::from("ordinal hint RVA      name\n\n");
    let mut expected: Vec<String> = Vec::new();
    for i in 0..50 {
        let name = format!("sym_{}", (i * 37) % 50);
        listing.push_str(&format!("  {}  {:X} {:08X} {}\n", i + 1, i, 0x1000 + 16 * i, name));
        expected.push(name);
    }
    listing.push_str("\n  Summary\n");
    let got = extract_exports(&listing).unwrap();
    assert_eq!(got.len(), 50);
    assert_eq!(got, expected);
}

#[test]
fn listing_without_header_is_refused() {
    let listing = "   1    0 00001000 lua_call\n   2    1 00001010 lua_call2\n\n";
    assert_eq!(extract_exports(listing), Err(GeneratorError::Parse(ParseFailure::MissingHeader)));
}

#[test]
fn empty_listing_is_refused() {
    assert_eq!(extract_exports(""), Err(GeneratorError::Parse(ParseFailure::MissingHeader)));
}

#[test]
fn header_with_other_spacing_is_no_header() {
    let listing = "ordinal hint RVA name\n\n   1    0 00001000 lua_call\n\n";
    assert_eq!(extract_exports(listing), Err(GeneratorError::Parse(ParseFailure::MissingHeader)));
}

#[test]
fn short_line_is_refused() {
    let listing = "ordinal hint RVA      name\n-------- ---- -------- ----\n   1    0 00001000 lua_call\n   2    1 00001010\n\n";
    assert_eq!(extract_exports(listing), Err(GeneratorError::Parse(ParseFailure::ShortLine)));
}

#[test]
fn short_first_line_is_refused() {
    let listing = "ordinal hint RVA      name\n\nlua_call\n";
    assert_eq!(extract_exports(listing), Err(GeneratorError::Parse(ParseFailure::ShortLine)));
}

#[test]
fn short_line_after_the_table_is_not_read() {
    let listing = "ordinal hint RVA      name\n\n 1 0 00001000 lua_call\n\n  Summary\n";
    assert_eq!(extract_exports(listing), Ok(names(&["lua_call"])));
}

#[test]
fn table_ends_with_the_listing() {
    let listing = "ordinal hint RVA      name\n\n 1 0 00001000 lua_call\n 2 1 00001010 lua_close";
    assert_eq!(extract_exports(listing), Ok(names(&["lua_call", "lua_close"])));
}

#[test]
fn header_alone_gives_an_empty_table() {
    assert_eq!(extract_exports("ordinal hint RVA      name"), Ok(names(&[])));
    assert_eq!(extract_exports("ordinal hint RVA      name\n----"), Ok(names(&[])));
    assert_eq!(extract_exports("ordinal hint RVA      name\n----\n\n"), Ok(names(&[])));
}

#[test]
fn line_below_the_header_is_passed_over() {
    let listing = "ordinal hint RVA      name\n 9 9 9 not_a_name\n 1 0 00001000 lua_call\n\n";
    assert_eq!(extract_exports(listing), Ok(names(&["lua_call"])));
}

#[test]
fn first_header_counts() {
    let listing = "ordinal hint RVA      name\n\n 1 0 0 a\nordinal hint RVA      name\n 2 1 1 b\n\n";
    assert_eq!(extract_exports(listing), Ok(names(&["a", "name", "b"])));
}

#[test]
fn leading_fields_are_not_examined() {
    let listing = "ordinal hint RVA      name\n\n x y z lua_call = forwarded\n\n";
    assert_eq!(extract_exports(listing), Ok(names(&["lua_call"])));
}

#[test]
fn fields_are_separated_by_any_white_space() {
    let listing = "\u{a0}ordinal hint RVA      name\t\n\n1\t0\u{2003}00001000\u{3000}lua_call\u{85}\n \t \nrest\n";
    assert_eq!(extract_exports(listing), Ok(names(&["lua_call"])));
}

#[test]
fn names_may_hold_any_other_character() {
    let listing = "ordinal hint RVA      name\n\n 1 0 0 ?f\u{e9}@@YAXXZ\n\n";
    assert_eq!(extract_exports(listing), Ok(names(&["?f\u{e9}@@YAXXZ"])));
}

#[test]
fn white_space_is_what_std_calls_white_space() {
    for n in 0..=0x10FFFFu32 {
        if let Some(c) = char::from_u32(n) {
            assert_eq!(is_whitespace(c), c.is_whitespace(), "U+{:04X}", n);
        }
    }
}

#[test]
fn characters_of_a_text() {
    assert_eq!(characters("a\u{e9}\n"), vec!['a', '\u{e9}', '\n']);
    assert_eq!(characters(""), Vec::<char>::new());
}

#[test]
fn lines_of_a_text() {
    assert_eq!(line_bounds(&characters("ab\n\ncd")), vec![(0, 2), (3, 3), (4, 6)]);
    assert_eq!(line_bounds(&characters("ab\n")), vec![(0, 2), (3, 3)]);
    assert_eq!(line_bounds(&characters("")), vec![(0, 0)]);
}

#[test]
fn scanning_a_line() {
    let text = characters("xx  ab cd  ");
    assert_eq!(scan_spaces(&text, 2, 11, 0), 2);
    assert_eq!(scan_word(&text, 2, 11, 2), 4);
    assert_eq!(scan_spaces(&text, 2, 11, 4), 5);
    assert_eq!(scan_spaces(&text, 2, 11, 7), 9);
    assert_eq!(scan_word(&text, 2, 11, 5), 7);
    assert_eq!(scan_back(&text, 2, 11), 7);
    assert_eq!(scan_back(&text, 2, 4), 0);
    assert!(line_is_blank(&text, 2, 4));
    assert!(!line_is_blank(&text, 2, 5));
    assert!(line_is_blank(&text, 3, 3));
}

#[test]
fn field_of_a_line() {
    let text = characters("  1 22  333 name rest ");
    let n = text.len();
    assert_eq!(field_at(&text, 0, n, 0), Some((2, 3)));
    assert_eq!(field_at(&text, 0, n, NAME_FIELD), Some((12, 16)));
    assert_eq!(field_at(&text, 0, n, 4), Some((17, 21)));
    assert_eq!(field_at(&text, 0, n, 5), None);
    assert_eq!(field_at(&text, 0, 11, NAME_FIELD), None);
    assert_eq!(field_at(&text, 4, n, 0), Some((0, 2)));
}

#[test]
fn header_line() {
    let text = characters("  ordinal hint RVA      name \r");
    assert!(line_is_header(&text, 0, text.len()));
    assert!(!line_is_header(&text, 3, text.len()));
    assert!(!line_is_header(&text, 0, 10));
    let other = characters("ordinal hint RVA      nam3");
    assert!(!line_is_header(&other, 0, other.len()));
}

#[test]
fn run_within_a_text() {
    assert!(contains(&characters("x86_64-pc-windows-msvc"), &characters("x86_64")));
    assert!(contains(&characters("abc"), &characters("")));
    assert!(contains(&characters("aab"), &characters("ab")));
    assert!(!contains(&characters("x86_6"), &characters("x86_64")));
    assert!(!contains(&characters("i686-pc-windows-msvc"), &characters("x86_64")));
}

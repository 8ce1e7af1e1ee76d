use import_stub::error::GeneratorError;
use import_stub::error::ParseFailure;
use import_stub::exports::extract_exports;
use import_stub::module_def::module_definition;
use import_stub::module_def::module_definition_bytes;
use import_stub::pipeline::advance;
use import_stub::pipeline::first_step;
use import_stub::pipeline::step_writes_file;
use import_stub::pipeline::Progress;
use import_stub::pipeline::Step;
use import_stub::platform::confirm_library;
use import_stub::platform::discover;
use import_stub::platform::join_path;
use import_stub::platform::library_name;
use import_stub::platform::registry_key;
use import_stub::platform::registry_value;
use import_stub::platform::segments;
use import_stub::platform::Platform;
use import_stub::toolchain::definition_path;
use import_stub::toolchain::import_library_path;
use import_stub::toolchain::inspection_outcome;
use import_stub::toolchain::inspector_arguments;
use import_stub::toolchain::inspector_program;
use import_stub::toolchain::librarian_arguments;
use import_stub::toolchain::librarian_outcome;
use import_stub::toolchain::librarian_program;
use import_stub::toolchain::link_directives;
use import_stub::toolchain::write_outcome;
use import_stub::wrapper::LuaAuxiliaryWrapper;
use import_stub::wrapper::LuaBuffer;
use import_stub::wrapper::LuaWrapper;

#[test]
fn definition_of_two_symbols() {
    let symbols = vec!["Foo".to_string(), "Bar".to_string()];
    assert_eq!(module_definition(&symbols), "EXPORTS\nFoo\nBar\n");
}

#[test]
fn definition_bytes_are_utf8() {
    let symbols = vec!["Foo".to_string(), "f\u{e9}".to_string()];
    assert_eq!(module_definition_bytes(&symbols), b"EXPORTS\nFoo\nf\xc3\xa9\n".to_vec());
}

#[test]
fn definition_of_no_symbol() {
    assert_eq!(module_definition(&Vec::new()), "EXPORTS\n");
}

#[test]
fn definition_is_the_same_each_time() {
    let symbols = vec!["lua_call".to_string(), "lua_close".to_string(), "lua_call".to_string()];
    let first = module_definition(&symbols);
    let second = module_definition(&symbols.clone());
    assert_eq!(first.as_bytes(), second.as_bytes());
    assert_eq!(module_definition_bytes(&symbols), module_definition_bytes(&symbols.clone()));
    assert_eq!(module_definition_bytes(&symbols), first.as_bytes());
    assert_eq!(first, "EXPORTS\nlua_call\nlua_close\nlua_call\n");
}

#[test]
fn definition_of_an_extracted_table() {
    let listing = "ordinal hint RVA      name\n-------- ---- -------- ----\n   1    0 00001000 lua_call\n   2    1 00001010 lua_call2\n\n";
    let symbols = extract_exports(listing).unwrap();
    assert_eq!(module_definition(&symbols), "EXPORTS\nlua_call\nlua_call2\n");
}

#[test]
fn platform_of_a_target() {
    assert_eq!(Platform::from_target("x86_64-pc-windows-msvc"), Platform::X64);
    assert_eq!(Platform::from_target("i686-pc-windows-msvc"), Platform::X86);
    assert_eq!(Platform::from_target(""), Platform::X86);
    assert_eq!(Platform::from_target("x86-64"), Platform::X86);
    assert_eq!(Platform::X64.machine(), "X64");
    assert_eq!(Platform::X86.machine(), "X86");
}

#[test]
fn discovery_without_entry_fails() {
    assert_eq!(discover(None, Platform::X64), Err(GeneratorError::Discovery));
    assert_eq!(discover(None, Platform::X86), Err(GeneratorError::Discovery));
    assert_eq!(advance(first_step(), Err(GeneratorError::Discovery)), Progress::Aborted(GeneratorError::Discovery));
    assert!(!step_writes_file(first_step()));
}

#[test]
fn discovery_joins_the_fixed_path() {
    assert_eq!(
        discover(Some("C:\\Steam"), Platform::X64),
        Ok("C:\\Steam\\steamapps\\common\\GarrysMod\\bin\\win64\\lua_shared.dll".to_string())
    );
    assert_eq!(
        discover(Some("C:\\Steam"), Platform::X86),
        Ok("C:\\Steam\\steamapps\\common\\GarrysMod\\bin\\lua_shared.dll".to_string())
    );
    assert_eq!(segments(Platform::X64).len(), 6);
    assert_eq!(segments(Platform::X86), vec!["steamapps", "common", "GarrysMod", "bin", "lua_shared.dll"]);
    assert_eq!(join_path("root", &Vec::new()), "root");
    assert_eq!(join_path("", &vec!["a".to_string(), "b".to_string()]), "\\a\\b");
}

#[test]
fn missing_file_fails_discovery() {
    assert_eq!(confirm_library("p".to_string(), true), Ok("p".to_string()));
    assert_eq!(confirm_library("p".to_string(), false), Err(GeneratorError::Discovery));
}

#[test]
fn fixed_names() {
    assert_eq!(registry_key(), "SOFTWARE\\WOW6432Node\\Valve\\Steam");
    assert_eq!(registry_value(), "InstallPath");
    assert_eq!(library_name(), "lua_shared");
    assert_eq!(inspector_program(), "dumpbin.exe");
    assert_eq!(librarian_program(), "lib.exe");
}

#[test]
fn artifact_paths() {
    assert_eq!(definition_path("C:\\out", "lua_shared"), "C:\\out\\lua_shared.def");
    assert_eq!(import_library_path("C:\\out", "lua_shared"), "C:\\out\\lua_shared.lib");
}

#[test]
fn tool_arguments() {
    assert_eq!(inspector_arguments("C:\\x\\lua_shared.dll"), vec!["/EXPORTS", "C:\\x\\lua_shared.dll"]);
    assert_eq!(
        librarian_arguments("lua_shared", Platform::X64, "C:\\out"),
        vec!["/NOLOGO", "/MACHINE:X64", "/DEF:C:\\out\\lua_shared.def", "/OUT:C:\\out\\lua_shared.lib"]
    );
    assert_eq!(librarian_arguments("n", Platform::X86, "o")[1], "/MACHINE:X86");
    assert_eq!(
        link_directives("C:\\out", "lua_shared"),
        vec!["cargo:rustc-link-search=native=C:\\out", "cargo:rustc-link-lib=dylib=lua_shared"]
    );
}

#[test]
fn tool_outcomes() {
    assert_eq!(inspection_outcome(None), Err(GeneratorError::Toolchain));
    assert_eq!(inspection_outcome(Some("text".to_string())), Ok("text".to_string()));
    assert_eq!(librarian_outcome(false, false), Err(GeneratorError::Toolchain));
    assert_eq!(librarian_outcome(false, true), Err(GeneratorError::Toolchain));
    assert_eq!(librarian_outcome(true, false), Err(GeneratorError::Link));
    assert_eq!(librarian_outcome(true, true), Ok(()));
    assert_eq!(write_outcome(false), Err(GeneratorError::Io));
    assert_eq!(write_outcome(true), Ok(()));
}

#[test]
fn steps_in_order() {
    assert_eq!(first_step(), Step::Discover);
    assert_eq!(advance(Step::Discover, Ok(())), Progress::Run(Step::Extract));
    assert_eq!(advance(Step::Extract, Ok(())), Progress::Run(Step::Write));
    assert_eq!(advance(Step::Write, Ok(())), Progress::Run(Step::Build));
    assert_eq!(advance(Step::Build, Ok(())), Progress::Finished);
    assert!(!step_writes_file(Step::Extract));
    assert!(step_writes_file(Step::Write));
    assert!(step_writes_file(Step::Build));
}

#[test]
fn every_failure_aborts() {
    let failures = [
        GeneratorError::Discovery,
        GeneratorError::Toolchain,
        GeneratorError::Parse(ParseFailure::MissingHeader),
        GeneratorError::Parse(ParseFailure::ShortLine),
        GeneratorError::Link,
        GeneratorError::Io,
    ];
    for step in [Step::Discover, Step::Extract, Step::Write, Step::Build] {
        for e in failures {
            assert_eq!(advance(step, Err(e)), Progress::Aborted(e));
        }
    }
}

#[test]
fn messages() {
    assert_eq!(GeneratorError::Discovery.message(), "shared library not found");
    assert_eq!(GeneratorError::Toolchain.message(), "toolchain program not found or not started");
    assert_eq!(
        GeneratorError::Parse(ParseFailure::MissingHeader).message(),
        "export listing has no column header"
    );
    assert_eq!(
        GeneratorError::Parse(ParseFailure::ShortLine).message(),
        "export line has fewer than four fields"
    );
    assert_eq!(GeneratorError::Link.message(), "librarian reported a failure");
    assert_eq!(GeneratorError::Io.message(), "file could not be written");
}

#[test]
fn handles_share_the_state() {
    let w = LuaWrapper { state: 0x1000 };
    let aux: LuaAuxiliaryWrapper = w.get_auxiliary_wrapper();
    assert_eq!(aux.state, 0x1000);
    let back: LuaWrapper = aux.get_standard_wrapper();
    assert_eq!(back.state, w.state);
    let buffer = LuaBuffer { buffer: 0x2000 };
    assert_eq!(buffer.buffer, 0x2000);
}

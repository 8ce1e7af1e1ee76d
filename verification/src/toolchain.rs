//! How the two programs of the platform toolchain are called, and what
//! their outcome means for the build.

use vstd::prelude::*;
use vstd::string::StringExecFns;
use crate::error::GeneratorError;
use crate::platform::machine_name;
use crate::platform::path_separator;
use crate::platform::Platform;
use crate::text::string_views;

verus! {

/// The path of the artifact `name` with the ending `extension` in `out_dir`.
pub open spec fn artifact_path(out_dir: Seq<char>, name: Seq<char>, extension: Seq<char>) -> Seq<
    char,
> {
    out_dir + path_separator() + name + extension
}

/// The path of the module-definition file.
pub open spec fn definition_location(out_dir: Seq<char>, name: Seq<char>) -> Seq<char> {
    artifact_path(out_dir, name, ".def"@)
}

/// The path of the import library.
pub open spec fn import_library_location(out_dir: Seq<char>, name: Seq<char>) -> Seq<char> {
    artifact_path(out_dir, name, ".lib"@)
}

/// The arguments with which the inspector lists the exports of `library`.
pub open spec fn inspector_call(library: Seq<char>) -> Seq<Seq<char>> {
    seq!["/EXPORTS"@, library]
}

/// The arguments with which the librarian builds the import library: no
/// banner, the architecture, the module definition to read and the library
/// to write.
pub open spec fn librarian_call(name: Seq<char>, platform: Platform, out_dir: Seq<char>) -> Seq<
    Seq<char>,
> {
    seq![
        "/NOLOGO"@,
        "/MACHINE:"@ + machine_name(platform),
        "/DEF:"@ + definition_location(out_dir, name),
        "/OUT:"@ + import_library_location(out_dir, name),
    ]
}

/// The two lines that tell the build where the import library lies and
/// what it is called.
pub open spec fn link_lines(out_dir: Seq<char>, name: Seq<char>) -> Seq<Seq<char>> {
    seq!["cargo:rustc-link-search=native="@ + out_dir, "cargo:rustc-link-lib=dylib="@ + name]
}

/// What the run of a tool means: it was not there or did not start, it
/// ended with a failure of the given kind, or it did its work.
pub open spec fn tool_outcome(started: bool, success: bool, failure: GeneratorError) -> Result<
    (),
    GeneratorError,
> {
    if !started {
        Err(GeneratorError::Toolchain)
    } else if !success {
        Err(failure)
    } else {
        Ok(())
    }
}

/// The file name of the inspector.
pub fn inspector_program() -> (r: String)
    ensures
        r@ == "dumpbin.exe"@,
{
    String::from_str("dumpbin.exe")
}

/// The file name of the librarian.
pub fn librarian_program() -> (r: String)
    ensures
        r@ == "lib.exe"@,
{
    String::from_str("lib.exe")
}

/// The path of the module-definition file for `name` in `out_dir`.
pub fn definition_path(out_dir: &str, name: &str) -> (r: String)
    ensures
        r@ == definition_location(out_dir@, name@),
{
    let mut out = String::from_str(out_dir);
    out.append("\\");
    out.append(name);
    out.append(".def");
    out
}

/// The path of the import library for `name` in `out_dir`.
pub fn import_library_path(out_dir: &str, name: &str) -> (r: String)
    ensures
        r@ == import_library_location(out_dir@, name@),
{
    let mut out = String::from_str(out_dir);
    out.append("\\");
    out.append(name);
    out.append(".lib");
    out
}

/// The arguments for the inspector.
pub fn inspector_arguments(library: &str) -> (r: Vec<String>)
    ensures
        string_views(r@) == inspector_call(library@),
{
    let mut out: Vec<String> = Vec::new();
    out.push(String::from_str("/EXPORTS"));
    out.push(String::from_str(library));
    assert(string_views(out@) =~= inspector_call(library@));
    out
}

/// The arguments for the librarian.
pub fn librarian_arguments(name: &str, platform: Platform, out_dir: &str) -> (r: Vec<String>)
    ensures
        string_views(r@) == librarian_call(name@, platform, out_dir@),
{
    let mut machine = String::from_str("/MACHINE:");
    machine.append(platform.machine().as_str());
    let mut definition = String::from_str("/DEF:");
    definition.append(definition_path(out_dir, name).as_str());
    let mut library = String::from_str("/OUT:");
    library.append(import_library_path(out_dir, name).as_str());
    let mut out: Vec<String> = Vec::new();
    out.push(String::from_str("/NOLOGO"));
    out.push(machine);
    out.push(definition);
    out.push(library);
    assert(string_views(out@) =~= librarian_call(name@, platform, out_dir@));
    out
}

/// The lines that hand the import library on to the link step.
pub fn link_directives(out_dir: &str, name: &str) -> (r: Vec<String>)
    ensures
        string_views(r@) == link_lines(out_dir@, name@),
{
    let mut search = String::from_str("cargo:rustc-link-search=native=");
    search.append(out_dir);
    let mut library = String::from_str("cargo:rustc-link-lib=dylib=");
    library.append(name);
    let mut out: Vec<String> = Vec::new();
    out.push(search);
    out.push(library);
    assert(string_views(out@) =~= link_lines(out_dir@, name@));
    out
}

/// Judges the run of the inspector. `listing` is what it printed, if it
/// could be started at all.
pub fn inspection_outcome(listing: Option<String>) -> (r: Result<String, GeneratorError>)
    ensures
        match listing {
            Some(text) => r == Ok::<String, GeneratorError>(text),
            None => r == Err::<String, GeneratorError>(GeneratorError::Toolchain),
        },
{
    match listing {
        Some(text) => Ok(text),
        None => Err(GeneratorError::Toolchain),
    }
}

/// Judges the run of the librarian: `started` tells whether it was found
/// and started, `success` whether it then ended with success.
pub fn librarian_outcome(started: bool, success: bool) -> (r: Result<(), GeneratorError>)
    ensures
        r == tool_outcome(started, success, GeneratorError::Link),
{
    if !started {
        Err(GeneratorError::Toolchain)
    } else if !success {
        Err(GeneratorError::Link)
    } else {
        Ok(())
    }
}

/// Judges the writing of the module-definition file.
pub fn write_outcome(written: bool) -> (r: Result<(), GeneratorError>)
    ensures
        r == tool_outcome(true, written, GeneratorError::Io),
{
    if written {
        Ok(())
    } else {
        Err(GeneratorError::Io)
    }
}

/// The librarian reads the module definition where it was written: the
/// path in its `/DEF:` argument is the path of the module-definition file.
pub proof fn lemma_librarian_reads_the_definition(
    name: Seq<char>,
    platform: Platform,
    out_dir: Seq<char>,
)
    ensures
        librarian_call(name, platform, out_dir).len() == 4,
        librarian_call(name, platform, out_dir)[2] == "/DEF:"@ + definition_location(out_dir, name),
        librarian_call(name, platform, out_dir)[3] == "/OUT:"@ + import_library_location(
            out_dir,
            name,
        ),
{
}

} // verus!

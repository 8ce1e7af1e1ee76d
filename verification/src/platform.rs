//! The two target architectures, and where the shared library is expected
//! for each.

use vstd::prelude::*;
use vstd::string::StringExecFns;
use crate::error::GeneratorError;
use crate::text::characters;
use crate::text::contains;
use crate::text::occurs_in;
use crate::text::string_views;

verus! {

/// A target architecture.
#[derive(Clone, Copy, Debug, PartialEq, Eq, Structural)]
pub enum Platform {
    /// The 64-bit architecture.
    X64,
    /// The 32-bit architecture.
    X86,
}

/// The architecture that a target triple stands for: the 64-bit one where
/// the triple names it, else the 32-bit one.
pub open spec fn platform_of_target(target: Seq<char>) -> Platform {
    if occurs_in("x86_64"@, target) {
        Platform::X64
    } else {
        Platform::X86
    }
}

/// The name by which the librarian knows `platform`.
pub open spec fn machine_name(platform: Platform) -> Seq<char> {
    match platform {
        Platform::X64 => "X64"@,
        Platform::X86 => "X86"@,
    }
}

/// The way from the installation root down to the shared library, one
/// directory after the other and the file at the end.
pub open spec fn library_segments(platform: Platform) -> Seq<Seq<char>> {
    match platform {
        Platform::X64 => seq![
            "steamapps"@,
            "common"@,
            "GarrysMod"@,
            "bin"@,
            "win64"@,
            "lua_shared.dll"@,
        ],
        Platform::X86 => seq!["steamapps"@, "common"@, "GarrysMod"@, "bin"@, "lua_shared.dll"@],
    }
}

/// What separates the parts of a path.
pub open spec fn path_separator() -> Seq<char> {
    "\\"@
}

/// `root` followed by each of `segments`, a separator before each.
pub open spec fn joined(root: Seq<char>, segments: Seq<Seq<char>>) -> Seq<char>
    decreases segments.len(),
{
    if segments.len() == 0 {
        root
    } else {
        joined(root, segments.drop_last()) + path_separator() + segments.last()
    }
}

/// Where the shared library is expected below `install_root`.
pub open spec fn library_location(install_root: Seq<char>, platform: Platform) -> Seq<char> {
    joined(install_root, library_segments(platform))
}

impl Platform {
    /// The architecture that the target triple `target` stands for.
    pub fn from_target(target: &str) -> (r: Platform)
        ensures
            r == platform_of_target(target@),
    {
        let hay = characters(target);
        let needle = characters("x86_64");
        if contains(&hay, &needle) {
            Platform::X64
        } else {
            Platform::X86
        }
    }

    /// The name by which the librarian knows this architecture.
    pub fn machine(&self) -> (r: String)
        ensures
            r@ == machine_name(*self),
    {
        match self {
            Platform::X64 => String::from_str("X64"),
            Platform::X86 => String::from_str("X86"),
        }
    }
}

/// The key of the configuration store under which the installation is
/// registered.
pub fn registry_key() -> (r: String)
    ensures
        r@ == "SOFTWARE\\WOW6432Node\\Valve\\Steam"@,
{
    String::from_str("SOFTWARE\\WOW6432Node\\Valve\\Steam")
}

/// The name of the entry, under that key, that holds the installation root.
pub fn registry_value() -> (r: String)
    ensures
        r@ == "InstallPath"@,
{
    String::from_str("InstallPath")
}

/// The name of the shared library, without directory and extension; the
/// artifacts of the build are named after it.
pub fn library_name() -> (r: String)
    ensures
        r@ == "lua_shared"@,
{
    String::from_str("lua_shared")
}

/// The way from the installation root down to the shared library.
pub fn segments(platform: Platform) -> (r: Vec<String>)
    ensures
        string_views(r@) == library_segments(platform),
{
    let mut out: Vec<String> = Vec::new();
    out.push(String::from_str("steamapps"));
    out.push(String::from_str("common"));
    out.push(String::from_str("GarrysMod"));
    out.push(String::from_str("bin"));
    match platform {
        Platform::X64 => {
            out.push(String::from_str("win64"));
        },
        Platform::X86 => {},
    }
    out.push(String::from_str("lua_shared.dll"));
    assert(string_views(out@) =~= library_segments(platform));
    out
}

/// Joins `parts` to `root`, a separator before each.
pub fn join_path(root: &str, parts: &Vec<String>) -> (r: String)
    ensures
        r@ == joined(root@, string_views(parts@)),
{
    let ghost names = string_views(parts@);
    let mut out = String::from_str(root);
    let n: usize = parts.len();
    let mut i: usize = 0;
    while i < n
        invariant
            n == parts.len(),
            i <= n,
            names == string_views(parts@),
            out@ == joined(root@, names.take(i as int)),
        decreases n - i,
    {
        proof {
            assert(names.take(i + 1).drop_last() =~= names.take(i as int));
            assert(names.take(i + 1).last() == parts@[i as int]@);
        }
        out.append("\\");
        out.append(parts[i].as_str());
        i += 1;
    }
    proof {
        assert(names.take(n as int) =~= names);
    }
    out
}

/// Finds where the shared library is expected. `entry` is what the
/// configuration store holds for the installation root, if it holds
/// anything: without an entry there is nothing to look for.
pub fn discover(entry: Option<&str>, platform: Platform) -> (r: Result<String, GeneratorError>)
    ensures
        match entry {
            Some(root) => r is Ok && r->Ok_0@ == library_location(root@, platform),
            None => r == Err::<String, GeneratorError>(GeneratorError::Discovery),
        },
{
    match entry {
        Some(root) => {
            let parts = segments(platform);
            Ok(join_path(root, &parts))
        },
        None => Err(GeneratorError::Discovery),
    }
}

/// Accepts the expected location where a file is present there, and gives
/// the build up where none is.
pub fn confirm_library(location: String, present: bool) -> (r: Result<String, GeneratorError>)
    ensures
        present ==> r == Ok::<String, GeneratorError>(location),
        !present ==> r == Err::<String, GeneratorError>(GeneratorError::Discovery),
{
    if present {
        Ok(location)
    } else {
        Err(GeneratorError::Discovery)
    }
}

/// The two architectures share the way down to the shared library but for
/// one directory: the 64-bit library lies one level deeper.
pub proof fn lemma_locations_differ_by_one_directory()
    ensures
        library_segments(Platform::X64).len() == library_segments(Platform::X86).len() + 1,
        library_segments(Platform::X64).last() == library_segments(Platform::X86).last(),
        library_segments(Platform::X64).take(4) == library_segments(Platform::X86).take(4),
{
    assert(library_segments(Platform::X64).take(4) =~= library_segments(Platform::X86).take(4));
}

/// On either architecture the file at the end of the way is the shared
/// library itself: its name, with the ending of a dynamic library.
pub proof fn lemma_location_ends_with_the_library(platform: Platform)
    ensures
        library_segments(platform).last() == "lua_shared"@ + ".dll"@,
{
    reveal_strlit("lua_shared.dll");
    reveal_strlit("lua_shared");
    reveal_strlit(".dll");
    assert("lua_shared.dll"@ =~= "lua_shared"@ + ".dll"@);
}

} // verus!

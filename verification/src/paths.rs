//! Path texts and the places derived from them.

use vstd::prelude::*;

verus! {

/// The text of `base` with `name` adjoined, as `std::path::Path::join` forms it.
pub uninterp spec fn joined(base: Seq<char>, name: Seq<char>) -> Seq<char>;

/// Calls `std::path::Path::join` on the two texts.
///
/// Trusted: the result is the joined path of the two arguments, which
/// depends on nothing but their texts. Both arguments are UTF-8, so the
/// joined path is too and the conversion back loses nothing.
#[verifier::external_body]
pub(crate) fn join(base: &str, name: &str) -> (out: String)
    ensures
        out@ == joined(base@, name@),
{
    std::path::Path::new(base).join(name).to_string_lossy().into_owned()
}

/// Whether `path` lies under `base`, as `std::path::Path::starts_with`
/// decides it: `base` is a prefix of `path`, by whole components.
pub uninterp spec fn lies_under(path: Seq<char>, base: Seq<char>) -> bool;

/// Calls `std::path::Path::starts_with` on the two texts.
///
/// Trusted: the answer says whether the first path lies under the second,
/// which depends on nothing but their texts.
#[verifier::external_body]
pub(crate) fn starts_with(path: &str, base: &str) -> (out: bool)
    ensures
        out == lies_under(path@, base@),
{
    std::path::Path::new(path).starts_with(base)
}

/// Calls `dirs::config_dir`.
///
/// Trusted: nothing is claimed of the result, which depends on the user's
/// environment. A directory whose path is not UTF-8 counts as none.
#[verifier::external_body]
pub(crate) fn config_dir() -> (out: Option<String>) {
    match dirs::config_dir() {
        Some(p) => p.into_os_string().into_string().ok(),
        None => None,
    }
}

/// The name of the manifest file inside the base directory.
pub open spec fn manifest_file_name() -> Seq<char> {
    ".dot.toml"@
}

/// The name of the base directory inside the user's configuration directory.
pub open spec fn base_dir_name() -> Seq<char> {
    "dot"@
}

/// The base storage directory that belongs to a configuration directory.
pub fn base_dir_under(config_dir: &str) -> (out: String)
    ensures
        out@ == joined(config_dir@, base_dir_name()),
{
    join(config_dir, "dot")
}

/// The base storage directory for what the lookup of the configuration
/// directory gave: the directory under it, or none where it gave none.
pub fn base_dir_from(config_dir: Option<String>) -> (out: Option<String>)
    ensures
        match config_dir {
            Some(config) => out matches Some(dir) && dir@ == joined(config@, base_dir_name()),
            None => out is None,
        },
{
    match config_dir {
        Some(config) => Some(base_dir_under(config.as_str())),
        None => None,
    }
}

/// The base storage directory of the user who runs the program, where the
/// environment names a configuration directory.
pub fn default_base_dir() -> (out: Option<String>)
    ensures
        out matches Some(dir) ==> exists|config: Seq<char>|
            dir@ == #[trigger] joined(config, base_dir_name()),
{
    base_dir_from(config_dir())
}

/// The place of the stored copy for a name: the base directory with the
/// name adjoined, where that lies under the base directory.
pub open spec fn stored_place(base_dir: Seq<char>, name: Seq<char>) -> Option<Seq<char>> {
    if lies_under(joined(base_dir, name), base_dir) {
        Some(joined(base_dir, name))
    } else {
        None
    }
}

/// The text of a place, where there is one.
pub open spec fn place_view(place: Option<String>) -> Option<Seq<char>> {
    match place {
        Some(p) => Some(p@),
        None => None,
    }
}

/// The place of the stored copy for a name: the base directory with the
/// name adjoined. There is none where that place would not lie under the
/// base directory, as with a name that is an absolute path elsewhere.
pub fn stored_path(base_dir: &str, name: &str) -> (out: Option<String>)
    ensures
        place_view(out) == stored_place(base_dir@, name@),
{
    let place = join(base_dir, name);
    if starts_with(place.as_str(), base_dir) {
        Some(place)
    } else {
        None
    }
}

/// The manifest file's place: the explicit one when given, else the
/// well-known file under the base directory.
pub fn resolve_manifest_path(explicit: Option<String>, base_dir: &str) -> (out: String)
    ensures
        out@ == match explicit {
            Some(p) => p@,
            None => joined(base_dir@, manifest_file_name()),
        },
{
    match explicit {
        Some(p) => p,
        None => join(base_dir, ".dot.toml"),
    }
}

} // verus!

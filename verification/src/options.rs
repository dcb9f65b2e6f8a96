//! What a run is asked to do, and what it learns from the manifest of
//! the crate it works on.

use crate::text::{replace_all, replaced};
use vstd::prelude::*;
use vstd::string::StringExecFns;

verus! {

/// Generates markdown files from the item index of a crate.
#[derive(Debug)]
pub struct ToMarkdown {
    /// The cargo command that builds the documentation. It must run a
    /// nightly compiler.
    pub cargo_command: String,
    /// Further arguments for `cargo doc`.
    pub cargo_doc_arguments: Option<Vec<String>>,
    /// Further arguments for rustdoc.
    pub rustdoc_arguments: Option<String>,
    /// The directory that the markdown files are written to.
    pub output_dir: String,
    /// Whether markdown files are overwritten even if they have not been
    /// turned back into documentation comments.
    pub force: bool,
}

/// Updates the documentation comments of a crate from markdown files.
#[derive(Debug)]
pub struct FromMarkdown {
    /// The directory that holds the markdown files.
    pub input_dir: String,
    /// Whether the run goes on although the working tree holds changes
    /// that are not committed.
    pub allow_dirty: bool,
}

/// Why the name of the crate could not be read.
#[derive(Clone, Copy, Debug, PartialEq, Eq, Structural)]
pub enum ManifestError {
    /// The manifest is not well-formed, or does not name its package by a
    /// text.
    NoPackageName,
}

/// The text that a TOML document holds under the key `key` of its table
/// `table`; nothing where the document is not well-formed, has no such
/// table or key, or holds something other than a text there.
pub uninterp spec fn toml_text_at(document: Seq<char>, table: Seq<char>, key: Seq<char>) -> Option<
    Seq<char>,
>;

/// Reads the text that a TOML document holds under a key of one of its
/// tables.
///
/// Calls `toml::Table::from_str`, `toml::map::Map::get`,
/// `toml::Value::get` and `toml::Value::as_str`. Nothing is claimed of
/// the result but that it depends on the document, the table and the key
/// alone.
#[verifier::external_body]
fn text_at(document: &str, table: &str, key: &str) -> (r: Option<String>)
    ensures
        r.deep_view() == toml_text_at(document@, table@, key@),
{
    let parsed: toml::Table = document.parse().ok()?;
    parsed.get(table)?.get(key)?.as_str().map(|text| text.to_owned())
}

/// The name under which the documentation compiler knows a package:
/// the name of the package with every `-` turned into `_`.
pub open spec fn crate_name_of(package: Seq<char>) -> Seq<char> {
    replaced(package, seq!['-'], seq!['_'])
}

/// Turns the name of a package into the name of its crate.
pub fn crate_name_for(package: Option<String>) -> (r: Result<String, ManifestError>)
    ensures
        match package {
            Some(name) => r matches Ok(found) && found@ == crate_name_of(name@),
            None => r == Err::<String, ManifestError>(ManifestError::NoPackageName),
        },
{
    proof {
        reveal_strlit("-");
        reveal_strlit("_");
        assert("-"@ == seq!['-']);
        assert("_"@ == seq!['_']);
    }
    match package {
        Some(name) => Ok(replace_all(name.as_str(), "-", "_")),
        None => Err(ManifestError::NoPackageName),
    }
}

/// Reads the name of a crate from the manifest of its package.
pub fn get_crate_name(manifest: &str) -> (r: Result<String, ManifestError>)
    ensures
        match toml_text_at(manifest@, "package"@, "name"@) {
            Some(name) => r matches Ok(found) && found@ == crate_name_of(name),
            None => r == Err::<String, ManifestError>(ManifestError::NoPackageName),
        },
{
    crate_name_for(text_at(manifest, "package", "name"))
}

/// Where the documentation compiler leaves the item index of the crate
/// `crate_name`.
pub fn index_path(crate_name: &str) -> (r: String)
    ensures
        r@ == "./target/doc/"@ + crate_name@ + ".json"@,
{
    let mut path = String::from_str("./target/doc/");
    path.append(crate_name);
    path.append(".json");
    path
}

/// What rustdoc is always asked for: the item index.
pub const DEFAULT_RUSTDOC_ARGUMENTS: &'static str = "-Z unstable-options --output-format=json";

/// The arguments that rustdoc is run with: those that were asked for, a
/// space, and those that are always given.
pub fn rustdoc_arguments_for(asked: &Option<String>) -> (r: String)
    ensures
        r@ == match asked {
            Some(more) => more@ + " "@ + DEFAULT_RUSTDOC_ARGUMENTS@,
            None => DEFAULT_RUSTDOC_ARGUMENTS@,
        },
{
    match asked {
        Some(more) => {
            let mut all = more.clone();
            all.append(" ");
            all.append(DEFAULT_RUSTDOC_ARGUMENTS);
            all
        },
        None => String::from_str(DEFAULT_RUSTDOC_ARGUMENTS),
    }
}

} // verus!

//! Output rendering for parsed Java models: the shared types, the
//! compaction rules, the multi-file Markdown atlas, the pruning of JSON
//! values and the package-scoped JSONL layout.

pub mod compact;
pub mod json_value;
pub mod jsonl;
pub mod markdown;

use vstd::prelude::*;

use self::jsonl::{group_lines, group_packages, jsonl_entries, package_jsonl_path, package_jsonl_path_spec};
use self::markdown::atlas_markdown;
use crate::java_ast::model::JavaFile;
use crate::markdown::{failure_of, heading_check, markdown_events, HeadingFailure, MarkdownError};

verus! {

/// The serialization format for rendered output.
#[derive(Debug, Clone, Copy, PartialEq, Eq, Structural)]
pub enum Format {
    Markdown,
    Json,
    Jsonl,
}

/// One parsed Java file paired with its source path, ready to be rendered.
pub struct FileOutput<'a> {
    pub path: &'a str,
    pub ast: &'a JavaFile,
}

/// One package-scoped JSONL artifact ready to be written to disk.
#[derive(Debug)]
pub struct JsonlPackage {
    pub package: String,
    pub relative_path: String,
    pub contents: String,
}

#[verifier::external_type_specification]
#[verifier::external_body]
pub struct ExJsonError(serde_json::Error);

/// Errors raised by any output renderer.
#[derive(Debug)]
pub enum OutputError {
    /// The rendered Markdown failed validation.
    Markdown(MarkdownError),
    /// A record could not be encoded as JSON.
    Json(serde_json::Error),
}

/// The contents of the shards, one after the other.
pub open spec fn shard_contents(gs: Seq<(Seq<char>, Seq<char>)>) -> Seq<char>
    decreases gs.len(),
{
    if gs.len() == 0 {
        Seq::empty()
    } else {
        shard_contents(gs.drop_last()) + gs.last().1
    }
}

/// `ps` are the JSONL shards that the (package, contents) groups `gs`
/// describe, each stored under its package's path.
pub open spec fn packages_are(ps: Seq<JsonlPackage>, gs: Seq<(Seq<char>, Seq<char>)>) -> bool {
    &&& ps.len() == gs.len()
    &&& forall|k: int| 0 <= k < gs.len() ==> {
        &&& (#[trigger] ps[k]).package@ == gs[k].0
        &&& ps[k].contents@ == gs[k].1
        &&& ps[k].relative_path@ == package_jsonl_path_spec(gs[k].0)
    }
}

/// The contents of the shards `ps`, one after the other.
pub open spec fn joined_contents(ps: Seq<JsonlPackage>) -> Seq<char>
    decreases ps.len(),
{
    if ps.len() == 0 {
        Seq::empty()
    } else {
        joined_contents(ps.drop_last()) + ps.last().contents@
    }
}

/// The JSONL text that `render` gives is the package shards that
/// `render_jsonl_packages` gives, joined in their (package) order: shards
/// that describe the groups `gs` hold exactly the text of `gs`.
pub proof fn lemma_jsonl_text_is_joined_shards(ps: Seq<JsonlPackage>, gs: Seq<(Seq<char>, Seq<char>)>)
    requires
        packages_are(ps, gs),
    ensures
        joined_contents(ps) == shard_contents(gs),
    decreases gs.len(),
{
    if gs.len() > 0 {
        let ps0 = ps.drop_last();
        let gs0 = gs.drop_last();
        assert(packages_are(ps0, gs0)) by {
            assert forall|k: int| 0 <= k < gs0.len() implies {
                &&& (#[trigger] ps0[k]).package@ == gs0[k].0
                &&& ps0[k].contents@ == gs0[k].1
                &&& ps0[k].relative_path@ == package_jsonl_path_spec(gs0[k].0)
            } by {
                assert(ps0[k] == ps[k] && gs0[k] == gs[k]);
            }
        }
        lemma_jsonl_text_is_joined_shards(ps0, gs0);
        assert(ps.last() == ps[ps.len() - 1]);
    }
}

/// Renders a set of parsed files into a single string in the requested
/// format. The JSON encodings are made outside the library: `encoded` holds,
/// for `Json`, the whole pretty-printed array of `{ path, ast }` entries, and
/// for `Jsonl`, one compact record line per file, in the order of `files`.
///
/// - Markdown: the `# Java Atlas` document, once it passes validation.
/// - JSON: the encoded array.
/// - JSONL: the record lines grouped by package, packages in order.
pub fn render(files: &[FileOutput<'_>], format: Format, encoded: &Vec<String>) -> (r: Result<String, OutputError>)
    requires
        format == Format::Json ==> encoded@.len() == 1,
        format == Format::Jsonl ==> encoded@.len() == files@.len(),
    ensures
        format == Format::Markdown ==> match r {
            Ok(s) => s@ == atlas_markdown(files@) && heading_check(markdown_events(s@)) is Ok,
            Err(e) => e matches OutputError::Markdown(m) && (heading_check(markdown_events(atlas_markdown(files@)))
                == Err::<(), HeadingFailure>(failure_of(m))),
        },
        format == Format::Json ==> (r matches Ok(s) && s@ == encoded@[0]@),
        format == Format::Jsonl ==> (r matches Ok(s) && s@ == shard_contents(group_lines(jsonl_entries(files@, encoded@)))),
{
    match format {
        Format::Markdown => match markdown::render(files) {
            Ok(s) => Ok(s),
            Err(e) => Err(OutputError::Markdown(e)),
        },
        Format::Json => Ok(crate::text::copy_string(&encoded[0])),
        Format::Jsonl => {
            let groups = group_packages(files, encoded);
            let ghost gs = jsonl::string_pairs(groups@);
            let mut out = String::new();
            let n = groups.len();
            for k in 0..n
                invariant
                    n == groups@.len(),
                    gs == jsonl::string_pairs(groups@),
                    out@ == shard_contents(gs.take(k as int)),
            {
                out.append(groups[k].1.as_str());
                assert(gs.take(k + 1).drop_last() == gs.take(k as int));
            }
            assert(gs.take(n as int) == gs);
            Ok(out)
        },
    }
}

/// The package-scoped JSONL shards for `.atlas/packages`: one per package,
/// in package order, holding that package's record lines (`lines`, one per
/// file, in the order of `files`) and stored under the package's path.
pub fn render_jsonl_packages(files: &[FileOutput<'_>], lines: &Vec<String>) -> (r: Vec<JsonlPackage>)
    requires
        lines@.len() == files@.len(),
    ensures
        packages_are(r@, group_lines(jsonl_entries(files@, lines@))),
{
    let groups = group_packages(files, lines);
    let ghost gs = jsonl::string_pairs(groups@);
    let mut out: Vec<JsonlPackage> = Vec::new();
    let n = groups.len();
    for k in 0..n
        invariant
            n == groups@.len(),
            gs == jsonl::string_pairs(groups@),
            out@.len() == k,
            forall|q: int| 0 <= q < k ==> {
                &&& (#[trigger] out@[q]).package@ == gs[q].0
                &&& out@[q].contents@ == gs[q].1
                &&& out@[q].relative_path@ == package_jsonl_path_spec(gs[q].0)
            },
    {
        let package = crate::text::copy_string(&groups[k].0);
        let relative_path = package_jsonl_path(package.as_str());
        let contents = crate::text::copy_string(&groups[k].1);
        out.push(JsonlPackage { package, relative_path, contents });
    }
    out
}

} // verus!

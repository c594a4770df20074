//! The multi-file Markdown atlas.

use vstd::prelude::*;

use super::FileOutput;
use crate::java_ast::render::{file_body_markdown, write_file_body};
use crate::markdown::{failure_of, heading_check, markdown_events, validate_markdown, HeadingFailure, MarkdownError};

verus! {

/// One file's section: a `## File:` heading, then the file's body with
/// types starting at h3 and type parameters and thrown types listed.
pub open spec fn file_section(f: FileOutput) -> Seq<char> {
    "## File: `"@ + f.path@ + "`\n\n"@ + file_body_markdown(*f.ast, 3, true)
}

/// The sections of several files, concatenated.
pub open spec fn file_sections(files: Seq<FileOutput>) -> Seq<char>
    decreases files.len(),
{
    if files.len() == 0 {
        Seq::empty()
    } else {
        file_sections(files.drop_last()) + file_section(files.last())
    }
}

/// The whole atlas: one `# Java Atlas` heading, then one section per file.
pub open spec fn atlas_markdown(files: Seq<FileOutput>) -> Seq<char> {
    "# Java Atlas\n\n"@ + file_sections(files)
}

/// The atlas grows file by file: adding a file to the set appends exactly
/// that file's section, under the one `# Java Atlas` heading.
pub proof fn lemma_atlas_appends_sections(files: Seq<FileOutput>, f: FileOutput)
    ensures
        atlas_markdown(files.push(f)) == atlas_markdown(files) + file_section(f),
        atlas_markdown(seq![f]) == "# Java Atlas\n\n"@ + file_section(f),
{
    assert(files.push(f).drop_last() =~= files);
    assert(seq![f].drop_last() =~= Seq::<FileOutput>::empty());
    assert(file_sections(Seq::<FileOutput>::empty()) == Seq::<char>::empty());
    assert(file_sections(seq![f]) =~= Seq::<char>::empty() + file_section(f));
    assert(Seq::<char>::empty() + file_section(f) =~= file_section(f));
    assert(atlas_markdown(files.push(f)) =~= atlas_markdown(files) + file_section(f));
    assert(atlas_markdown(seq![f]) =~= "# Java Atlas\n\n"@ + file_section(f));
}

/// Renders the whole file set as a single Markdown document and validates
/// its heading structure before returning it.
pub fn render(files: &[FileOutput<'_>]) -> (r: Result<String, MarkdownError>)
    ensures
        match r {
            Ok(s) => s@ == atlas_markdown(files@) && heading_check(markdown_events(s@)) is Ok,
            Err(e) => heading_check(markdown_events(atlas_markdown(files@)))
                == Err::<(), HeadingFailure>(failure_of(e)),
        },
{
    let mut out = String::new();
    out.append("# Java Atlas\n\n");
    let ghost head = out@;
    let n = files.len();
    for i in 0..n
        invariant
            n == files@.len(),
            out@ == head + file_sections(files@.take(i as int)),
    {
        let file = &files[i];
        let ghost before = out@;
        out.append("## File: `");
        out.append(file.path);
        out.append("`\n\n");
        write_file_body(file.ast, 3, true, &mut out);
        proof {
            let tk = files@.take(i + 1);
            assert(tk.drop_last() == files@.take(i as int));
            assert(tk.last() == *file);
            assert(out@ =~= head + file_sections(tk));
        }
    }
    assert(files@.take(n as int) == files@);
    match validate_markdown(out.as_str()) {
        Ok(()) => Ok(out),
        Err(e) => Err(e),
    }
}

} // verus!

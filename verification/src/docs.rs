//! The documentation sanitizer: normalizes an embedded Markdown document so
//! that every fenced code block carries an explicit language tag, and
//! re-emits it as canonical Markdown.

use vstd::pervasive::unreached;
use vstd::prelude::*;
use vstd::string::*;

use crate::error::SanitizeError;

verus! {

/// The code blocks of the document comrak parses from `s`, in document
/// pre-order: for each, whether it is fenced, and its info string.
pub uninterp spec fn code_blocks(s: Seq<char>) -> Seq<(bool, Seq<char>)>;

/// The text comrak renders for the document of `s` after the info string of
/// its i-th code block, in document pre-order, is replaced by `infos[i]`.
pub uninterp spec fn rendered(s: Seq<char>, infos: Seq<Seq<char>>) -> Seq<char>;

/// The info string a code block ends up with: a fenced block with an empty
/// info string is tagged `text`; every other block keeps its own.
pub open spec fn tag_info(b: (bool, Seq<char>)) -> Seq<char> {
    if b.0 && b.1.len() == 0 {
        "text"@
    } else {
        b.1
    }
}

/// The info strings of a sequence of code blocks after tagging.
pub open spec fn tagged_infos(blocks: Seq<(bool, Seq<char>)>) -> Seq<Seq<char>> {
    blocks.map_values(|b: (bool, Seq<char>)| tag_info(b))
}

/// The blocks as they stand after one tagging pass: fencedness kept, info
/// string tagged.
pub open spec fn retag_blocks(blocks: Seq<(bool, Seq<char>)>) -> Seq<(bool, Seq<char>)> {
    blocks.map_values(|b: (bool, Seq<char>)| (b.0, tag_info(b)))
}

/// Every fenced code block carries a non-empty info string once tagged.
pub proof fn lemma_fenced_blocks_tagged(blocks: Seq<(bool, Seq<char>)>)
    ensures
        forall|i: int|
            0 <= i < blocks.len() && blocks[i].0 ==> tagged_infos(blocks)[i].len() > 0,
{
    reveal_strlit("text");
    assert forall|i: int|
        0 <= i < blocks.len() && blocks[i].0 implies tagged_infos(blocks)[i].len() > 0 by {
        assert(tagged_infos(blocks)[i] == tag_info(blocks[i]));
    }
}

/// Tagging is idempotent: blocks that already went through one tagging pass
/// come out of a second pass with the same info strings.
pub proof fn lemma_tagging_idempotent(blocks: Seq<(bool, Seq<char>)>)
    ensures
        tagged_infos(retag_blocks(blocks)) == tagged_infos(blocks),
{
    reveal_strlit("text");
    assert forall|i: int|
        0 <= i < blocks.len() implies tagged_infos(retag_blocks(blocks))[i] == tagged_infos(
        blocks,
    )[i] by {
        assert(retag_blocks(blocks)[i] == (blocks[i].0, tag_info(blocks[i])));
        assert(tagged_infos(retag_blocks(blocks))[i] == tag_info(
            (blocks[i].0, tag_info(blocks[i])),
        ));
    }
    assert(tagged_infos(retag_blocks(blocks)) =~= tagged_infos(blocks));
}

#[verifier::external_type_specification]
#[verifier::external_body]
pub struct ExFmtError(core::fmt::Error);

/// Relies on `comrak::parse_document` and `Node::traverse`: yields, in
/// document pre-order, whether each code block of the document is fenced,
/// and its info string.
#[verifier::external_body]
fn scan_code_blocks(markdown: &str) -> (r: Vec<(bool, String)>)
    ensures
        r@.len() == code_blocks(markdown@).len(),
        forall|i: int|
            0 <= i < r@.len() ==> r@[i].0 == code_blocks(markdown@)[i].0 && r@[i].1@ == code_blocks(
                markdown@,
            )[i].1,
{
    let arena = comrak::Arena::new();
    let root = comrak::parse_document(&arena, markdown, &comrak::Options::default());
    let mut out = Vec::new();
    for edge in root.traverse() {
        if let comrak::arena_tree::NodeEdge::Start(node) = edge {
            if let comrak::nodes::NodeValue::CodeBlock(block) = &node.data().value {
                out.push((block.fenced, block.info.clone()));
            }
        }
    }
    out
}

/// Relies on `comrak::parse_document` and `comrak::format_commonmark`:
/// renders the document of `markdown` back to Markdown after setting the
/// info string of its i-th code block, in document pre-order, to `infos[i]`.
/// The call always succeeds: `format_commonmark` constructs no error of its
/// own and only propagates write errors of the output sink, and a `String`
/// sink never reports one.
#[verifier::external_body]
fn render_with_infos(markdown: &str, infos: &Vec<String>) -> (r: Result<String, core::fmt::Error>)
    requires
        infos@.len() == code_blocks(markdown@).len(),
    ensures
        r is Ok,
        r matches Ok(text) ==> text@ == rendered(markdown@, infos.deep_view()),
{
    let arena = comrak::Arena::new();
    let root = comrak::parse_document(&arena, markdown, &comrak::Options::default());
    let mut next = infos.iter();
    for edge in root.traverse() {
        if let comrak::arena_tree::NodeEdge::Start(node) = edge {
            if let comrak::nodes::NodeValue::CodeBlock(block) = &mut node.data_mut().value {
                if let Some(info) = next.next() { block.info = info.clone(); }
            }
        }
    }
    let mut text = String::new();
    comrak::format_commonmark(root, &comrak::Options::default(), &mut text)?;
    Ok(text)
}

/// Computes the info string every code block ends up with: a fenced block
/// whose info string is empty is tagged `text`; every other block keeps its
/// own info string.
pub fn tag_infos(blocks: &Vec<(bool, String)>) -> (r: Vec<String>)
    ensures
        r@.len() == blocks@.len(),
        forall|i: int|
            0 <= i < blocks@.len() ==> r@[i]@ == tag_info((blocks@[i].0, blocks@[i].1@)),
{
    let mut infos: Vec<String> = Vec::new();
    let mut i: usize = 0;
    while i < blocks.len()
        invariant
            i <= blocks@.len(),
            infos@.len() == i,
            forall|j: int| 0 <= j < i ==> infos@[j]@ == tag_info((blocks@[j].0, blocks@[j].1@)),
        decreases blocks@.len() - i,
    {
        let fenced = blocks[i].0;
        if fenced && blocks[i].1.as_str().is_empty() {
            infos.push(String::from_str("text"));
        } else {
            let kept = String::from_str(blocks[i].1.as_str());
            infos.push(kept);
        }
        i = i + 1;
    }
    infos
}

/// Normalizes Markdown documentation: parses it, tags every fenced code
/// block whose info string is empty with the literal `text`, leaves every
/// other node untouched, and re-renders the document as canonical Markdown.
/// The call always succeeds: with a renderer that writes into a `String`,
/// re-rendering cannot fail and no decoding step exists.
pub fn sanitize_documentation(markdown: &str) -> (r: Result<String, SanitizeError>)
    ensures
        r is Ok,
        r matches Ok(text) ==> text@ == rendered(
            markdown@,
            tagged_infos(code_blocks(markdown@)),
        ),
{
    let blocks = scan_code_blocks(markdown);
    let infos = tag_infos(&blocks);
    proof {
        assert(infos.deep_view() =~= tagged_infos(code_blocks(markdown@)));
    }
    match render_with_infos(markdown, &infos) {
        Ok(text) => Ok(text),
        Err(_) => unreached(),
    }
}

} // verus!

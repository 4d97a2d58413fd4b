//! SVG optimization through oxvg: the text is parsed into oxvg's tree, the
//! default optimiser jobs run over it, and the tree is written back as text.

use vstd::prelude::*;

verus! {

#[verifier::external_type_specification]
#[verifier::external_body]
pub struct ExSvgNode<'input, 'arena>(oxvg_ast::node::Node<'input, 'arena>);

#[verifier::external_type_specification]
#[verifier::external_body]
pub struct ExSvgAllocator<'input, 'arena>(oxvg_ast::arena::Allocator<'input, 'arena>);

/// The text that `data` holds, where it is valid UTF-8.
pub uninterp spec fn utf8_text(data: Seq<u8>) -> Option<Seq<char>>;

/// `std::str::from_utf8`, the error dropped.
/// Claimed: the result is the named value `utf8_text` of the bytes.
#[verifier::external_body]
pub fn text_of(data: &[u8]) -> (r: Option<&str>)
    ensures
        match r {
            Some(t) => utf8_text(data@) == Some(t@),
            None => utf8_text(data@).is_none(),
        },
{
    std::str::from_utf8(data).ok()
}

/// `oxvg_optimiser::Jobs::default().run` over the tree, with the allocator
/// wrapped in `oxvg_ast::visitor::Info::new`. The jobs change the tree in
/// place; some keep sets in hash maps seeded per process, so nothing is
/// claimed of what they do.
#[verifier::external_body]
fn run_svg_jobs<'input, 'arena>(
    root: &'arena oxvg_ast::node::Node<'input, 'arena>,
    allocator: oxvg_ast::arena::Allocator<'input, 'arena>,
) -> (r: Result<(), String>) {
    oxvg_optimiser::Jobs::default()
        .run(root, &oxvg_ast::visitor::Info::new(allocator))
        .map_err(|error| error.to_string())
}

/// `oxvg_ast::serialize::Node::serialize`: the tree written as text. Nothing
/// is claimed of the text.
#[verifier::external_body]
fn serialize_svg<'input, 'arena>(root: &'arena oxvg_ast::node::Node<'input, 'arena>) -> (r: Result<String, String>) {
    oxvg_ast::serialize::Node::serialize(root).map_err(|error| error.to_string())
}

/// Runs the optimiser over a parsed tree and writes it back as text; where
/// the jobs fail, their error is the result and nothing is written.
fn optimize_svg_tree<'input, 'arena>(
    root: &'arena oxvg_ast::node::Node<'input, 'arena>,
    allocator: oxvg_ast::arena::Allocator<'input, 'arena>,
) -> (r: Result<String, String>) {
    run_svg_jobs(root, allocator)?;
    serialize_svg(root)
}

/// `oxvg_ast::parse::roxmltree::parse_with_options` over the text, document
/// type declarations allowed as `allow_dtd` says and the other parsing
/// options at their defaults, handing the tree to `optimize_svg_tree`.
/// Nothing is claimed of the result: the jobs keep some of their sets in hash
/// maps seeded per process, so the text written may differ from run to run.
#[verifier::external_body]
pub fn optimize_svg_text(data: &str, allow_dtd: bool) -> (r: Result<String, String>) {
    let options = oxvg_ast::parse::roxmltree::ParsingOptions {
        allow_dtd,
        ..oxvg_ast::parse::roxmltree::ParsingOptions::default()
    };
    match oxvg_ast::parse::roxmltree::parse_with_options(data, options, |dom, allocator| optimize_svg_tree(dom, allocator)) {
        Ok(result) => result,
        Err(error) => Err(error.to_string()),
    }
}

} // verus!

//! Conversion of text that mixes markdown and HTML into HTML.
use dom_query::{Document, NodeId, NodeRef};
use vstd::prelude::*;

verus! {

/// dom_query's `Document`, a parsed HTML tree, carried as an opaque value.
#[verifier::external_type_specification]
#[verifier::external_body]
pub struct ExDocument(Document);

/// dom_query's `NodeId`, the index of a node in a `Document`, carried as an
/// opaque value.
#[verifier::external_type_specification]
#[verifier::external_body]
pub struct ExNodeId(NodeId);

/// The HTML that the markdown crate makes of `text` with GitHub-flavoured
/// markdown and raw HTML kept, or `None` where it reports an error.
pub uninterp spec fn gfm_html(text: Seq<char>) -> Option<Seq<char>>;

/// Relies on `markdown::to_html_with_options` with `Options::gfm()` and
/// `allow_dangerous_html` set.
#[verifier::external_body]
fn markdown_to_html(text: &str) -> (r: Option<String>)
    ensures
        r matches Some(h) ==> gfm_html(text@) == Some(h@),
        r is None ==> gfm_html(text@) is None,
{
    let mut options = markdown::Options::gfm();
    options.compile.allow_dangerous_html = true;
    markdown::to_html_with_options(text, &options).ok()
}

/// Relies on `dom_query::Document::fragment`: parses `html` as an HTML
/// fragment.
#[verifier::external_body]
fn parse_fragment(html: String) -> (r: Document) {
    Document::fragment(html)
}

/// Relies on `Document::select` with the selector `a`: the ids of all
/// anchor elements, in document order.
#[verifier::external_body]
fn anchor_ids(doc: &Document) -> (r: Vec<NodeId>) {
    doc.select("a").nodes().iter().map(|n| n.id).collect()
}

/// Relies on `NodeRef::try_inner_html`: the serialized content of a node,
/// or `None` where serialization fails.
#[verifier::external_body]
fn inner_html_of(doc: &Document, id: NodeId) -> (r: Option<String>) {
    NodeRef::new(id, &doc.tree).try_inner_html().map(|h| h.to_string())
}

/// Relies on `NodeRef::remove_from_parent`: detaches a node from the
/// document.
#[verifier::external_body]
fn remove_node(doc: &Document, id: NodeId) {
    NodeRef::new(id, &doc.tree).remove_from_parent()
}

/// Relies on `Document::root`, `NodeRef::first_element_child` and
/// `NodeRef::try_inner_html`: the serialized content of the fragment's root
/// element (`<html>`), or `None` where there is none or serialization fails.
#[verifier::external_body]
fn root_inner_html(doc: &Document) -> (r: Option<String>) {
    doc.root().first_element_child().and_then(|n| n.try_inner_html()).map(|h| h.to_string())
}

/// Removes the anchor elements whose content is empty.
///
/// Autolinking turns `<a href="x">https://y</a>` into an empty anchor
/// followed by a link to `https://y`; this drops the empty one.
fn remove_empty_anchors(doc: &Document) {
    let ids = anchor_ids(doc);
    let mut i: usize = 0;
    while i < ids.len()
        invariant
            i <= ids@.len(),
        decreases ids@.len() - i,
    {
        let id = ids[i];
        match inner_html_of(doc, id) {
            Some(h) => {
                if h.as_str().is_empty() {
                    remove_node(doc, id);
                }
            },
            None => {},
        }
        i = i + 1;
    }
}

/// Converts `text`, which may mix markdown and HTML, into HTML: markdown
/// with GitHub's extensions, raw HTML kept, empty anchors removed. Returns
/// `None` where the markdown cannot be converted or the result cannot be
/// serialized.
pub fn to_html(text: &str) -> (r: Option<String>)
    ensures
        gfm_html(text@) is None ==> r is None,
{
    match markdown_to_html(text) {
        None => None,
        Some(html) => {
            let doc = parse_fragment(html);
            remove_empty_anchors(&doc);
            root_inner_html(&doc)
        },
    }
}

} // verus!

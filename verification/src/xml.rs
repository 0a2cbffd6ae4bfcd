//! A plain-value model of a parsed XML document, and the trusted bridge
//! that fills it from the `roxmltree` parser.
//!
//! The rest of the crate works only on `XmlElement` values, so every
//! validation rule is verified for every possible tree, whatever the
//! parser produced.

use vstd::prelude::*;

verus! {

/// One attribute of an element: its name and its raw text value.
pub struct XmlAttr {
    pub name: String,
    pub value: String,
}

/// One node of the document tree. Only element nodes carry structure the
/// validators read; text, comment and processing-instruction nodes are
/// kept as `Other` so that the walkers can skip them as the grammar asks.
pub enum XmlNode {
    Element(XmlElement),
    Other,
}

/// One element: its tag name, its attributes in document order, and its
/// child nodes in document order.
pub struct XmlElement {
    pub tag: String,
    pub attrs: Vec<XmlAttr>,
    pub children: Vec<XmlNode>,
}

/// The document tree that parsing a given text yields: the root element,
/// or nothing when the text is not well-formed XML. XML parsing is a
/// function of the text alone, so the result bears a name rather than a
/// page-long description of the XML grammar.
pub uninterp spec fn xml_tree_of(text: Seq<char>) -> Option<XmlElement>;

/// The first attribute with the given name, if any.
pub open spec fn spec_find_attr(attrs: Seq<XmlAttr>, name: Seq<char>) -> Option<Seq<char>>
    decreases attrs.len(),
{
    if attrs.len() == 0 {
        None
    } else if attrs[0].name@ == name {
        Some(attrs[0].value@)
    } else {
        spec_find_attr(attrs.drop_first(), name)
    }
}

/// Look up an attribute by name, returning the first match.
pub fn find_attr<'e>(e: &'e XmlElement, name: &str) -> (r: Option<&'e String>)
    ensures
        match r {
            Some(v) => spec_find_attr(e.attrs@, name@) == Some(v@),
            None => spec_find_attr(e.attrs@, name@) is None,
        },
{
    let n = e.attrs.len();
    let mut i: usize = 0;
    proof {
        assert(e.attrs@.skip(0) =~= e.attrs@);
    }
    while i < n
        invariant
            n == e.attrs@.len(),
            0 <= i <= n,
            spec_find_attr(e.attrs@, name@) == spec_find_attr(e.attrs@.skip(i as int), name@),
        decreases n - i,
    {
        proof {
            assert(e.attrs@.skip(i as int)[0] == e.attrs@[i as int]);
            assert(e.attrs@.skip(i as int).drop_first() =~= e.attrs@.skip(i + 1));
        }
        if crate::text::str_eq(e.attrs[i].name.as_str(), name) {
            return Some(&e.attrs[i].value);
        }
        i += 1;
    }
    proof {
        assert(e.attrs@.skip(n as int) =~= Seq::<XmlAttr>::empty());
    }
    None
}

/// The node handle of the outside XML parser, declared so that the
/// conversion below may take one; the crate never reads into it.
#[verifier::external_type_specification]
#[verifier::external_body]
pub struct ExNode<'a, 'input: 'a>(roxmltree::Node<'a, 'input>);

/// Relies on roxmltree's node accessors -- `tag_name`, `attributes`,
/// `children`, `is_element` -- to copy one element, with its attributes
/// and descendants, into plain values.
#[verifier::external_body]
fn elem_of_node(n: &roxmltree::Node) -> XmlElement {
    XmlElement {
        tag: n.tag_name().name().to_string(),
        attrs: n.attributes().map(
            |a| XmlAttr { name: a.name().to_string(), value: a.value().to_string() },
        ).collect(),
        children: n.children().map(
            |c| if c.is_element() {
                XmlNode::Element(elem_of_node(&c))
            } else {
                XmlNode::Other
            },
        ).collect(),
    }
}

/// Relies on `roxmltree::Document::parse`: it builds the document tree for
/// well-formed XML text and reports an error otherwise, and its outcome is
/// a function of the text alone. A successful parse always holds a root
/// element, which `root_element` hands out.
#[verifier::external_body]
pub(crate) fn parse_xml_tree(text: &str) -> (r: Option<XmlElement>)
    ensures
        r == xml_tree_of(text@),
{
    match roxmltree::Document::parse(text) {
        Ok(doc) => Some(elem_of_node(&doc.root_element())),
        Err(_) => None,
    }
}

} // verus!

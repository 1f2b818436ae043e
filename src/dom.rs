//! A model of DOM nodes, built by rendering and attached by the host.

use vstd::prelude::*;
use vstd::string::StringExecFns;

verus! {

broadcast use vstd::std_specs::vec::axiom_vec_index_decreases;

/// An attribute `name="value"` of an element.
pub struct Attribute {
    pub name: String,
    pub value: String,
}

/// A detached element node: tag, attributes in the order they are set, an
/// optional text content, and child elements in order.
pub struct Node {
    pub tag: String,
    pub attributes: Vec<Attribute>,
    pub text: Option<String>,
    pub children: Vec<Node>,
}

/// The mathematical value of a node tree.
pub struct Tree {
    pub tag: Seq<char>,
    pub attributes: Seq<(Seq<char>, Seq<char>)>,
    pub text: Option<Seq<char>>,
    pub children: Seq<Tree>,
}

pub open spec fn attributes_view(a: Seq<Attribute>) -> Seq<(Seq<char>, Seq<char>)> {
    Seq::new(a.len(), |i: int| (a[i].name@, a[i].value@))
}

pub open spec fn text_view(t: Option<String>) -> Option<Seq<char>> {
    match t {
        Some(s) => Some(s@),
        None => None,
    }
}

pub open spec fn tree_of(n: Node) -> Tree
    decreases n,
{
    Tree {
        tag: n.tag@,
        attributes: attributes_view(n.attributes@),
        text: text_view(n.text),
        children: Seq::new(
            n.children.len() as nat,
            |i: int|
                if 0 <= i < n.children.len() {
                    tree_of(n.children[i])
                } else {
                    Tree { tag: Seq::empty(), attributes: Seq::empty(), text: None, children: Seq::empty() }
                },
        ),
    }
}

/// The trees of a sequence of nodes.
pub open spec fn trees_of(s: Seq<Node>) -> Seq<Tree> {
    Seq::new(s.len(), |i: int| tree_of(s[i]))
}

impl View for Node {
    type V = Tree;

    open spec fn view(&self) -> Tree {
        tree_of(*self)
    }
}

/// A node of the given tag, attributes, text and no children.
pub open spec fn leaf(tag: Seq<char>, attributes: Seq<(Seq<char>, Seq<char>)>, text: Option<Seq<char>>) -> Tree {
    Tree { tag, attributes, text, children: Seq::empty() }
}

/// A new attribute `name="value"`.
pub fn attribute(name: &str, value: &str) -> (r: Attribute)
    ensures
        r.name@ == name@,
        r.value@ == value@,
{
    Attribute { name: String::from_str(name), value: String::from_str(value) }
}

/// Appends the attribute `name="value"`.
pub fn push_attribute(attributes: &mut Vec<Attribute>, name: &str, value: &str)
    ensures
        attributes_view(final(attributes)@) == attributes_view(old(attributes)@) + seq![(name@, value@)],
{
    attributes.push(attribute(name, value));
    assert(attributes_view(final(attributes)@) =~= attributes_view(old(attributes)@) + seq![(name@, value@)]);
}

/// A new element node.
pub fn element(tag: &str, attributes: Vec<Attribute>, text: Option<String>, children: Vec<Node>) -> (r: Node)
    ensures
        r@ == (Tree {
            tag: tag@,
            attributes: attributes_view(attributes@),
            text: text_view(text),
            children: trees_of(children@),
        }),
{
    let r = Node { tag: String::from_str(tag), attributes, text, children };
    assert(r@.children =~= trees_of(children@));
    r
}

/// Capability of everything that can be shown: the detached nodes of a
/// fragment, to be attached by the caller.
pub trait DomElement {
    /// The trees that rendering produces.
    spec fn render_spec(&self) -> Seq<Tree>;

    /// Creates the nodes for this value, in order.
    fn to_nodes(&self) -> (r: Vec<Node>)
        ensures
            trees_of(r@) == self.render_spec(),
    ;
}

/// The stylesheet used when an applet names no other.
pub const DEFAULT_STYLESHEET: &'static str = ".form-group { display: flex; flex-direction: column; margin-bottom: 0.5em; }\nlabel { font-weight: bold; }\n";

/// Source for Applet Style
pub enum AppletStyle {
    /// Static CSS text that ships with the applet
    IncludeFile(&'static str),
    /// Dynamically generated CSS
    String(String),
    /// Default provided CSS
    DEFAULT,
    /// No style
    NONE,
}

impl AppletStyle {
    /// The CSS text of the style.
    pub open spec fn css(&self) -> Seq<char> {
        match self {
            AppletStyle::IncludeFile(file) => file@,
            AppletStyle::String(string) => string@,
            AppletStyle::DEFAULT => DEFAULT_STYLESHEET@,
            AppletStyle::NONE => Seq::empty(),
        }
    }

    /// String slice for CSS
    pub fn as_str(&self) -> (r: &str)
        ensures
            r@ == self.css(),
    {
        match self {
            AppletStyle::IncludeFile(file) => *file,
            AppletStyle::String(string) => string.as_str(),
            AppletStyle::DEFAULT => DEFAULT_STYLESHEET,
            AppletStyle::NONE => {
                proof {
                    reveal_strlit("");
                }
                ""
            },
        }
    }
}

impl DomElement for AppletStyle {
    /// No node for `NONE`; otherwise one `style` element holding the CSS text.
    open spec fn render_spec(&self) -> Seq<Tree> {
        match self {
            AppletStyle::NONE => Seq::empty(),
            _ => seq![leaf("style"@, Seq::empty(), Some(self.css()))],
        }
    }

    fn to_nodes(&self) -> (r: Vec<Node>) {
        let mut r: Vec<Node> = Vec::new();
        match self {
            AppletStyle::NONE => {},
            _ => {
                let text = String::from_str(self.as_str());
                let style = element("style", Vec::new(), Some(text), Vec::new());
                assert(style@.attributes =~= Seq::empty());
                assert(style@.children =~= Seq::empty());
                r.push(style);
            },
        }
        assert(trees_of(r@) =~= self.render_spec());
        r
    }
}

} // verus!

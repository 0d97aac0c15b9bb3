//! The parsed document: its title, authors and license, and the tree of objects
//! that make up its body. Each type has a mathematical view, over which the
//! contracts of the renderer are stated.
use vstd::prelude::*;

verus! {

/// One object of a document's body.
pub enum KnotsObject {
    /// A titled section. The anchor becomes the id of the title's element.
    Heading { level: u32, anchor: String, title_text: String, children: Vec<KnotsObject> },
    /// Running text, followed by the objects set inside it.
    Paragraph { text: String, children: Vec<KnotsObject> },
    /// Source code in the named language.
    CodeBlock { language: String, source: String },
    /// A mathematical expression, set in a line of its own or within the text.
    MathExpr { source: String, display_mode: bool },
    /// The description of a diagram, drawn in the browser.
    Diagram { source: String },
    /// A group of objects, wrapped in an element of the given class if there is one.
    Container { class: Option<String>, children: Vec<KnotsObject> },
}

/// A parsed document.
pub struct ParseResult {
    pub document_title: String,
    pub document_authors: Vec<String>,
    pub document_license: Option<String>,
    pub root_object: KnotsObject,
}

/// The view of a [`KnotsObject`]: the same tree over texts and sequences.
pub ghost enum Node {
    Heading { level: nat, anchor: Seq<char>, title_text: Seq<char>, children: Seq<Node> },
    Paragraph { text: Seq<char>, children: Seq<Node> },
    CodeBlock { language: Seq<char>, source: Seq<char> },
    MathExpr { source: Seq<char>, display_mode: bool },
    Diagram { source: Seq<char> },
    Container { class: Option<Seq<char>>, children: Seq<Node> },
}

/// The view of a [`ParseResult`].
pub ghost struct Document {
    pub title: Seq<char>,
    pub authors: Seq<Seq<char>>,
    pub license: Option<Seq<char>>,
    pub root: Node,
}

/// The view of an optional string.
pub open spec fn optional_text(text: Option<String>) -> Option<Seq<char>> {
    match text {
        Some(t) => Some(t@),
        None => None,
    }
}

/// The views of a sequence of objects, one for one.
pub open spec fn nodes_of(objects: Seq<KnotsObject>) -> Seq<Node>
    decreases objects,
{
    Seq::new(
        objects.len(),
        |i: int|
            if 0 <= i < objects.len() {
                objects[i].view()
            } else {
                arbitrary()
            },
    )
}

impl View for KnotsObject {
    type V = Node;

    open spec fn view(&self) -> Node
        decreases self,
    {
        match self {
            KnotsObject::Heading { level, anchor, title_text, children } => Node::Heading {
                level: *level as nat,
                anchor: anchor@,
                title_text: title_text@,
                children: nodes_of(children@),
            },
            KnotsObject::Paragraph { text, children } => Node::Paragraph {
                text: text@,
                children: nodes_of(children@),
            },
            KnotsObject::CodeBlock { language, source } => Node::CodeBlock {
                language: language@,
                source: source@,
            },
            KnotsObject::MathExpr { source, display_mode } => Node::MathExpr {
                source: source@,
                display_mode: *display_mode,
            },
            KnotsObject::Diagram { source } => Node::Diagram { source: source@ },
            KnotsObject::Container { class, children } => Node::Container {
                class: optional_text(*class),
                children: nodes_of(children@),
            },
        }
    }
}

impl View for ParseResult {
    type V = Document;

    open spec fn view(&self) -> Document {
        Document {
            title: self.document_title@,
            authors: self.document_authors.deep_view(),
            license: optional_text(self.document_license),
            root: self.root_object@,
        }
    }
}

} // verus!

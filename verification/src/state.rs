//! The state of the serializer as a mathematical value, and how each step of the
//! writing changes it.
use crate::content::{
    any_diagram, headings_of, html_of, languages_of, lemma_languages_added,
    lemma_no_math_no_script, lemma_with_languages_concat, lemma_with_languages_extends,
    lemma_with_languages_unique, math_count_of, math_script_of, with_languages,
};
use crate::document::Node;
use crate::markup::{closing_tag, element, opening_tag};
use crate::summary::SummaryEntry;
use vstd::prelude::*;

verus! {

/// The view of a [`Builder`](crate::builder::Builder): what it has written and what
/// it has collected.
#[verifier::ext_equal]
pub ghost struct BuilderView {
    /// The markup written so far.
    pub output: Seq<char>,
    /// The names of the elements that are open, the innermost last.
    pub tag_stack: Seq<Seq<char>>,
    /// The table of contents, in reading order.
    pub summary: Seq<SummaryEntry>,
    /// Whether the page needs the typesetting of mathematics.
    pub katex: bool,
    /// Whether the page needs the highlighting of code.
    pub prism: bool,
    /// Whether the page needs the drawing of diagrams.
    pub mermaid: bool,
    /// The languages to highlight, each once, in the order of their first use.
    pub prism_plugins: Seq<Seq<char>>,
    /// The script that typesets the registered expressions.
    pub katex_buffer: Seq<char>,
    /// The number of registered expressions.
    pub math_count: nat,
}

impl BuilderView {
    /// The state of a new serializer: nothing written, nothing open, nothing
    /// collected.
    pub open spec fn empty() -> BuilderView {
        BuilderView {
            output: Seq::empty(),
            tag_stack: Seq::empty(),
            summary: Seq::empty(),
            katex: false,
            prism: false,
            mermaid: false,
            prism_plugins: Seq::empty(),
            katex_buffer: Seq::empty(),
            math_count: 0,
        }
    }

    /// Whether the state is one that a serializer can be in: no language is listed
    /// twice, and the flags of mathematics and of code are set exactly where an
    /// expression was registered and a language was listed.
    pub open spec fn wf(self) -> bool {
        &&& self.prism_plugins.no_duplicates()
        &&& self.prism <==> self.prism_plugins.len() > 0
        &&& self.katex <==> self.math_count > 0
    }

    /// The state after `text` is written as it stands.
    pub open spec fn write(self, text: Seq<char>) -> BuilderView {
        BuilderView { output: self.output + text, ..self }
    }

    /// The state after the element `name` is opened.
    pub open spec fn start_tag(
        self,
        name: Seq<char>,
        attrs: Seq<(Seq<char>, Seq<char>)>,
    ) -> BuilderView {
        BuilderView {
            output: self.output + opening_tag(name, attrs),
            tag_stack: self.tag_stack.push(name),
            ..self
        }
    }

    /// The state after the innermost open element is closed.
    pub open spec fn end_tag(self) -> BuilderView
        recommends
            self.tag_stack.len() > 0,
    {
        BuilderView {
            output: self.output + closing_tag(self.tag_stack.last()),
            tag_stack: self.tag_stack.drop_last(),
            ..self
        }
    }

    /// The state after `node` is written: its markup stands at the end of the
    /// output, the elements that were open are open, and what the node asks of the
    /// page is added to what was collected.
    pub open spec fn render(self, node: Node) -> BuilderView {
        BuilderView {
            output: self.output + node.html(self.math_count),
            tag_stack: self.tag_stack,
            summary: self.summary + node.headings(),
            katex: self.katex || node.math_count() > 0,
            prism: self.prism || node.languages().len() > 0,
            mermaid: self.mermaid || node.has_diagram(),
            prism_plugins: with_languages(self.prism_plugins, node.languages()),
            katex_buffer: self.katex_buffer + node.math_script(self.math_count),
            math_count: self.math_count + node.math_count(),
        }
    }

    /// The state after the nodes of `nodes` are written, one after the other.
    pub open spec fn render_all(self, nodes: Seq<Node>) -> BuilderView {
        BuilderView {
            output: self.output + html_of(nodes, self.math_count),
            tag_stack: self.tag_stack,
            summary: self.summary + headings_of(nodes),
            katex: self.katex || math_count_of(nodes) > 0,
            prism: self.prism || languages_of(nodes).len() > 0,
            mermaid: self.mermaid || any_diagram(nodes),
            prism_plugins: with_languages(self.prism_plugins, languages_of(nodes)),
            katex_buffer: self.katex_buffer + math_script_of(nodes, self.math_count),
            math_count: self.math_count + math_count_of(nodes),
        }
    }
}

/// Two pieces of text written one after the other are their concatenation written
/// at once.
pub broadcast proof fn lemma_write_twice(state: BuilderView, first: Seq<char>, second: Seq<char>)
    ensures
        #[trigger] state.write(first).write(second) == state.write(first + second),
{
    assert(state.write(first).write(second) =~= state.write(first + second));
}

/// Opening an element, writing its content and closing it writes the whole element
/// and leaves open what was open before.
pub broadcast proof fn lemma_element(
    state: BuilderView,
    name: Seq<char>,
    attrs: Seq<(Seq<char>, Seq<char>)>,
    content: Seq<char>,
)
    ensures
        #[trigger] state.start_tag(name, attrs).write(content).end_tag() == state.write(
            element(name, attrs, content),
        ),
{
    assert(state.start_tag(name, attrs).write(content).end_tag() =~= state.write(
        element(name, attrs, content),
    ));
}

/// Closing an element after its content: where `inner` is the state in which the
/// element `name` was opened after `before` and `content` was written into it,
/// closing writes the whole element after what `before` had written, and leaves
/// open what was open in `before`.
pub proof fn lemma_end_tag(
    before: BuilderView,
    name: Seq<char>,
    attrs: Seq<(Seq<char>, Seq<char>)>,
    content: Seq<char>,
    inner: BuilderView,
)
    requires
        inner.output == before.start_tag(name, attrs).output + content,
        inner.tag_stack == before.start_tag(name, attrs).tag_stack,
    ensures
        inner.end_tag().output == before.output + element(name, attrs, content),
        inner.end_tag().tag_stack == before.tag_stack,
{
    assert(inner.end_tag().output =~= before.output + element(name, attrs, content));
    assert(inner.end_tag().tag_stack =~= before.tag_stack);
}

/// Writing nodes one after the other is writing their sequence: after the first
/// `i` nodes of a sequence, writing the next one gives the state after the first
/// `i + 1`.
pub proof fn lemma_render_next(state: BuilderView, nodes: Seq<Node>, i: int)
    requires
        0 <= i < nodes.len(),
    ensures
        state.render_all(nodes.take(i)).render(nodes[i]) == state.render_all(nodes.take(i + 1)),
{
    let done = nodes.take(i);
    let next = nodes.take(i + 1);
    assert(next.drop_last() =~= done);
    assert(next.last() == nodes[i]);
    lemma_with_languages_concat(state.prism_plugins, languages_of(done), nodes[i].languages());
    assert(state.render_all(done).render(nodes[i]) =~= state.render_all(next));
}

/// Writing no node changes nothing.
pub proof fn lemma_render_none(state: BuilderView)
    ensures
        state.render_all(Seq::empty()) == state,
{
    assert(state.render_all(Seq::empty()) =~= state);
}

/// The state of a new serializer is well-formed.
pub proof fn lemma_empty_is_wf()
    ensures
        BuilderView::empty().wf(),
{
}

/// Every step of the writing leads from a well-formed state to a well-formed state.
pub proof fn lemma_wf_kept(state: BuilderView, node: Node)
    requires
        state.wf(),
    ensures
        forall|text: Seq<char>| (#[trigger] state.write(text)).wf(),
        forall|name: Seq<char>, attrs: Seq<(Seq<char>, Seq<char>)>|
            (#[trigger] state.start_tag(name, attrs)).wf(),
        state.end_tag().wf(),
        state.render(node).wf(),
{
    lemma_with_languages_unique(state.prism_plugins, node.languages());
    lemma_languages_added(state.prism_plugins, node.languages());
}

/// The features that a plain object does not need stay as they were: writing an
/// object without mathematical expression, code block and diagram changes no flag,
/// adds no language and adds nothing to the script.
pub proof fn lemma_plain_object_needs_nothing(state: BuilderView, node: Node)
    requires
        node.is_plain(),
    ensures
        state.render(node).katex == state.katex,
        state.render(node).prism == state.prism,
        state.render(node).mermaid == state.mermaid,
        state.render(node).prism_plugins == state.prism_plugins,
        state.render(node).katex_buffer == state.katex_buffer,
        state.render(node).math_count == state.math_count,
{
    lemma_no_math_no_script(node, state.math_count);
    assert(node.languages() =~= Seq::empty());
    assert(state.katex_buffer + Seq::<char>::empty() =~= state.katex_buffer);
}

/// A flag that is set stays set, the table of contents and the output only grow at
/// their ends, and the elements that were open are open, whatever object is
/// written.
pub proof fn lemma_render_keeps(state: BuilderView, node: Node)
    ensures
        state.katex ==> state.render(node).katex,
        state.prism ==> state.render(node).prism,
        state.mermaid ==> state.render(node).mermaid,
        state.render(node).tag_stack == state.tag_stack,
        state.output.is_prefix_of(state.render(node).output),
        state.summary.is_prefix_of(state.render(node).summary),
        state.katex_buffer.is_prefix_of(state.render(node).katex_buffer),
        state.prism_plugins.is_prefix_of(state.render(node).prism_plugins),
        state.prism_plugins.no_duplicates() ==> state.render(node).prism_plugins.no_duplicates(),
{
    lemma_with_languages_extends(state.prism_plugins, node.languages());
    if state.prism_plugins.no_duplicates() {
        lemma_with_languages_unique(state.prism_plugins, node.languages());
    }
    let after = state.render(node);
    assert(after.output.subrange(0, state.output.len() as int) =~= state.output);
    assert(after.summary.subrange(0, state.summary.len() as int) =~= state.summary);
    assert(after.katex_buffer.subrange(0, state.katex_buffer.len() as int) =~= state.katex_buffer);
}

} // verus!

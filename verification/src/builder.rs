//! The serializer: it writes markup into a buffer, keeps the stack of the elements
//! that are open, and collects what the body of the document asks of the page.
use crate::content::{container_class, heading_class, html_of, with_languages};
use crate::document::{nodes_of, optional_text, KnotsObject, Node};
use crate::markup::{
    attribute_list, attributes_from, element, opening_tag, push_closing_tag, push_opening_tag,
};
use crate::state::{lemma_render_next, lemma_render_none, lemma_wf_kept, BuilderView};
use crate::summary::{entries_of, SummaryEntry, SummaryItem};
use crate::text::{escaped, push_decimal, push_escaped, push_script_escaped};
use vstd::prelude::*;

verus! {

/// Whether one of the strings of `list` reads `text`.
fn contains_text(list: &Vec<String>, text: &String) -> (found: bool)
    ensures
        found == list.deep_view().contains(text@),
{
    for i in 0..list.len()
        invariant
            forall|k: int| 0 <= k < i ==> list.deep_view()[k] != text@,
    {
        if list[i] == *text {
            assert(list.deep_view()[i as int] == text@);
            return true;
        }
    }
    false
}

/// Writes a page piece by piece. Opening an element puts its name on a stack, and
/// closing takes the innermost name from it, so that elements close in the reverse
/// order of their opening.
pub struct Builder {
    output: String,
    tag_stack: Vec<String>,
    summary: Vec<SummaryItem>,
    should_include_katex: bool,
    should_include_prism: bool,
    should_include_mermaid: bool,
    prism_plugins: Vec<String>,
    katex_buffer: Vec<String>,
}

impl View for Builder {
    type V = BuilderView;

    closed spec fn view(&self) -> BuilderView {
        BuilderView {
            output: self.output@,
            tag_stack: self.tag_stack.deep_view(),
            summary: entries_of(self.summary@),
            katex: self.should_include_katex,
            prism: self.should_include_prism,
            mermaid: self.should_include_mermaid,
            prism_plugins: self.prism_plugins.deep_view(),
            katex_buffer: self.katex_buffer.deep_view().flatten(),
            math_count: self.katex_buffer@.len(),
        }
    }
}

impl Builder {
    /// A serializer that has written nothing yet.
    pub fn new() -> (builder: Builder)
        ensures
            builder@ == BuilderView::empty(),
            builder@.wf(),
    {
        let builder = Builder {
            output: String::new(),
            tag_stack: Vec::new(),
            summary: Vec::new(),
            should_include_katex: false,
            should_include_prism: false,
            should_include_mermaid: false,
            prism_plugins: Vec::new(),
            katex_buffer: Vec::new(),
        };
        proof {
            assert(builder.tag_stack.deep_view() =~= Seq::empty());
            assert(entries_of(builder.summary@) =~= Seq::empty());
            assert(builder.prism_plugins.deep_view() =~= Seq::empty());
            assert(builder.katex_buffer.deep_view() =~= Seq::empty());
        }
        builder
    }

    /// Writes the opening tag of `name`, with the values of `attrs` escaped, and
    /// puts `name` on the stack of open elements.
    pub fn start_tag(&mut self, name: &str, attrs: &[(&str, &str)])
        ensures
            final(self)@ == old(self)@.start_tag(name@, attribute_list(attrs@)),
            old(self)@.wf() ==> final(self)@.wf(),
    {
        push_opening_tag(&mut self.output, name, attrs);
        self.tag_stack.push(name.to_owned());
        proof {
            assert(self.tag_stack.deep_view() =~= old(self).tag_stack.deep_view().push(name@));
        }
    }

    /// Closes the innermost open element: takes its name from the stack and writes
    /// its closing tag. There must be an open element.
    pub fn end_tag(&mut self)
        requires
            old(self)@.tag_stack.len() > 0,
        ensures
            final(self)@ == old(self)@.end_tag(),
            old(self)@.wf() ==> final(self)@.wf(),
    {
        let name = self.tag_stack.pop().unwrap();
        push_closing_tag(&mut self.output, name.as_str());
        proof {
            assert(self.tag_stack.deep_view() =~= old(self).tag_stack.deep_view().drop_last());
        }
    }

    /// Writes an element that has no content and no closing tag. The stack of open
    /// elements stays as it is.
    pub fn orphan_tag(&mut self, name: &str, attrs: &[(&str, &str)])
        ensures
            final(self)@ == old(self)@.write(opening_tag(name@, attribute_list(attrs@))),
            old(self)@.wf() ==> final(self)@.wf(),
    {
        push_opening_tag(&mut self.output, name, attrs);
    }

    /// Writes `text` with the characters that HTML gives a meaning escaped. All
    /// text that comes from a document is written this way.
    pub fn write_content(&mut self, text: &str)
        ensures
            final(self)@ == old(self)@.write(escaped(text@)),
            old(self)@.wf() ==> final(self)@.wf(),
    {
        push_escaped(&mut self.output, text);
    }

    /// Writes `text` exactly as it stands. This is the way of the stylesheets,
    /// scripts and icons that are built into the page.
    pub fn write_raw(&mut self, text: &str)
        ensures
            final(self)@ == old(self)@.write(text@),
            old(self)@.wf() ==> final(self)@.wf(),
    {
        self.output.append(text);
    }

    /// Writes a whole element with escaped text as its content: the same as opening
    /// the element, writing the content and closing the element.
    pub fn inline_tag(&mut self, name: &str, attrs: &[(&str, &str)], content: &str)
        ensures
            final(self)@ == old(self)@.start_tag(name@, attribute_list(attrs@)).write(
                escaped(content@),
            ).end_tag(),
            old(self)@.wf() ==> final(self)@.wf(),
    {
        self.start_tag(name, attrs);
        self.write_content(content);
        self.end_tag();
    }

    /// Writes `object` and everything in it, in reading order: the object first,
    /// then its children from first to last. A heading adds an entry to the table
    /// of contents; a code block, a mathematical expression and a diagram each set
    /// the flag of the feature that they need.
    pub fn write_knots_object(&mut self, object: &KnotsObject)
        ensures
            final(self)@ == old(self)@.render(object@),
            old(self)@.wf() ==> final(self)@.wf(),
        decreases object, 0nat,
    {
        proof {
            if self@.wf() {
                lemma_wf_kept(self@, object@);
            }
        }
        match object {
            KnotsObject::Heading { level, anchor, title_text, children } => {
                self.write_heading(*level, anchor, title_text, children);
            },
            KnotsObject::Paragraph { text, children } => {
                self.write_paragraph(text, children);
            },
            KnotsObject::CodeBlock { language, source } => {
                self.write_code_block(language, source);
            },
            KnotsObject::MathExpr { source, display_mode } => {
                self.write_math(source, *display_mode);
            },
            KnotsObject::Diagram { source } => {
                self.write_diagram(source);
            },
            KnotsObject::Container { class, children } => {
                self.write_container(class, children);
            },
        }
    }

    /// Writes a heading: its title in an element that carries the anchor as its id,
    /// an entry in the table of contents, and then its children, if it has any,
    /// inside the element of the next level.
    fn write_heading(
        &mut self,
        level: u32,
        anchor: &String,
        title_text: &String,
        children: &Vec<KnotsObject>,
    )
        ensures
            final(self)@ == old(self)@.render(
                Node::Heading {
                    level: level as nat,
                    anchor: anchor@,
                    title_text: title_text@,
                    children: nodes_of(children@),
                },
            ),
        decreases children, 1nat,
    {
        proof {
            reveal_with_fuel(attributes_from, 3);
        }
        let ghost kids = nodes_of(children@);
        let ghost entry = SummaryEntry { level: level as nat, anchor: anchor@, name: title_text@ };
        let mut class = "title-lvl".to_owned();
        push_decimal(&mut class, level as u64);
        self.inline_tag(
            "p",
            &[("class", class.as_str()), ("id", anchor.as_str())],
            title_text.as_str(),
        );
        let ghost title = element(
            "p"@,
            seq![("class"@, heading_class(level as nat)), ("id"@, anchor@)],
            escaped(title_text@),
        );
        assert(self@ =~= old(self)@.write(title));
        self.summary.push(
            SummaryItem { level, anchor: anchor.clone(), name: title_text.clone() },
        );
        assert(entries_of(self.summary@) =~= old(self)@.summary.push(entry));
        let ghost titled = self@;
        if children.len() > 0 {
            let mut inner = "container-lvl".to_owned();
            push_decimal(&mut inner, level as u64 + 1);
            self.start_tag("div", &[("class", inner.as_str())]);
            self.write_knots_objects(children);
            self.end_tag();
            assert(self@.output =~= titled.output + element(
                "div"@,
                seq![("class"@, container_class(level as nat + 1))],
                html_of(kids, titled.math_count),
            ));
            assert(self@.tag_stack =~= titled.tag_stack);
        }
    }

    /// Writes a paragraph: its text and then its children, in one element.
    fn write_paragraph(&mut self, text: &String, children: &Vec<KnotsObject>)
        ensures
            final(self)@ == old(self)@.render(
                Node::Paragraph { text: text@, children: nodes_of(children@) },
            ),
        decreases children, 1nat,
    {
        proof {
            reveal_with_fuel(attributes_from, 1);
        }
        self.start_tag("p", &[]);
        self.write_content(text.as_str());
        self.write_knots_objects(children);
        self.end_tag();
    }

    /// Writes a code block and notes its language for the highlighter.
    fn write_code_block(&mut self, language: &String, source: &String)
        ensures
            final(self)@ == old(self)@.render(
                Node::CodeBlock { language: language@, source: source@ },
            ),
    {
        proof {
            reveal_with_fuel(attributes_from, 2);
            reveal_with_fuel(with_languages, 2);
        }
        self.should_include_prism = true;
        if !contains_text(&self.prism_plugins, language) {
            self.prism_plugins.push(language.clone());
            proof {
                assert(self.prism_plugins.deep_view() =~= old(self).prism_plugins.deep_view().push(
                    language@,
                ));
            }
        }
        let mut class = "language-".to_owned();
        class.append(language.as_str());
        self.start_tag("pre", &[]);
        self.inline_tag("code", &[("class", class.as_str())], source.as_str());
        self.end_tag();
        proof {
            assert(seq![language@].drop_last() =~= Seq::empty());
        }
    }

    /// Writes the placeholder of a mathematical expression and registers the
    /// expression: the statement that typesets it goes to the end of the script.
    fn write_math(&mut self, source: &String, display_mode: bool)
        ensures
            final(self)@ == old(self)@.render(
                Node::MathExpr { source: source@, display_mode },
            ),
    {
        proof {
            reveal_with_fuel(attributes_from, 3);
        }
        let index = self.katex_buffer.len();
        let mut id = "katex-".to_owned();
        push_decimal(&mut id, index as u64);
        let mut statement = "katex.render(\"".to_owned();
        push_script_escaped(&mut statement, source.as_str());
        statement.append("\", document.getElementById(\"");
        statement.append(id.as_str());
        statement.append("\"), {displayMode: ");
        statement.append(if display_mode { "true" } else { "false" });
        statement.append(", throwOnError: false});");
        self.should_include_katex = true;
        self.start_tag(
            if display_mode { "div" } else { "span" },
            &[("class", "math"), ("id", id.as_str())],
        );
        self.end_tag();
        let ghost registered = self.katex_buffer.deep_view();
        self.katex_buffer.push(statement);
        proof {
            registered.lemma_flatten_push(statement@);
            assert(self.katex_buffer.deep_view() =~= registered.push(statement@));
        }
    }

    /// Writes the description of a diagram, as escaped text in an element of the
    /// class that the drawing script looks for.
    fn write_diagram(&mut self, source: &String)
        ensures
            final(self)@ == old(self)@.render(Node::Diagram { source: source@ }),
    {
        proof {
            reveal_with_fuel(attributes_from, 2);
        }
        self.should_include_mermaid = true;
        self.inline_tag("pre", &[("class", "mermaid")], source.as_str());
    }

    /// Writes the objects of a container, inside an element of the container's
    /// class if it has one.
    fn write_container(&mut self, class: &Option<String>, children: &Vec<KnotsObject>)
        ensures
            final(self)@ == old(self)@.render(
                Node::Container { class: optional_text(*class), children: nodes_of(children@) },
            ),
        decreases children, 1nat,
    {
        proof {
            reveal_with_fuel(attributes_from, 2);
        }
        match class {
            Some(c) => {
                self.start_tag("div", &[("class", c.as_str())]);
                self.write_knots_objects(children);
                self.end_tag();
            },
            None => {
                self.write_knots_objects(children);
            },
        }
    }

    /// Writes the objects of `objects`, one after the other.
    pub fn write_knots_objects(&mut self, objects: &Vec<KnotsObject>)
        ensures
            final(self)@ == old(self)@.render_all(nodes_of(objects@)),
            old(self)@.wf() ==> final(self)@.wf(),
        decreases objects, 0nat,
    {
        let ghost nodes = nodes_of(objects@);
        proof {
            lemma_render_none(self@);
            assert(nodes.take(0) =~= Seq::empty());
        }
        for i in 0..objects.len()
            invariant
                nodes == nodes_of(objects@),
                self@ == old(self)@.render_all(nodes.take(i as int)),
                old(self)@.wf() ==> self@.wf(),
        {
            proof {
                lemma_render_next(old(self)@, nodes, i as int);
            }
            self.write_knots_object(&objects[i]);
        }
        proof {
            assert(nodes.take(objects.len() as int) =~= nodes);
        }
    }

    /// The number of elements that are open.
    pub fn open_tags(&self) -> (count: usize)
        ensures
            count == self@.tag_stack.len(),
    {
        self.tag_stack.len()
    }

    /// The table of contents collected so far.
    pub fn get_summary(&self) -> (summary: &Vec<SummaryItem>)
        ensures
            entries_of(summary@) == self@.summary,
    {
        &self.summary
    }

    /// The languages to highlight, each once, in the order of their first use.
    pub fn get_prism_plugins(&self) -> (plugins: &Vec<String>)
        ensures
            plugins.deep_view() == self@.prism_plugins,
    {
        &self.prism_plugins
    }

    /// The script that typesets the registered expressions, one statement for each,
    /// in the order of their registration.
    pub fn get_katex_content(&self) -> (script: String)
        ensures
            script@ == self@.katex_buffer,
    {
        let ghost statements = self.katex_buffer.deep_view();
        let mut script = String::new();
        proof {
            assert(statements.take(0) =~= Seq::empty());
        }
        for i in 0..self.katex_buffer.len()
            invariant
                statements == self.katex_buffer.deep_view(),
                script@ == statements.take(i as int).flatten(),
        {
            proof {
                statements.take(i as int).lemma_flatten_push(statements[i as int]);
                assert(statements.take(i + 1) =~= statements.take(i as int).push(
                    statements[i as int],
                ));
            }
            script.append(self.katex_buffer[i].as_str());
        }
        proof {
            assert(statements.take(self.katex_buffer.len() as int) =~= statements);
        }
        script
    }

    /// Whether a mathematical expression was written.
    pub fn should_include_katex(&self) -> (needed: bool)
        ensures
            needed == self@.katex,
    {
        self.should_include_katex
    }

    /// Whether a code block was written.
    pub fn should_include_prism(&self) -> (needed: bool)
        ensures
            needed == self@.prism,
    {
        self.should_include_prism
    }

    /// Whether a diagram was written.
    pub fn should_include_mermaid(&self) -> (needed: bool)
        ensures
            needed == self@.mermaid,
    {
        self.should_include_mermaid
    }

    /// Ends the writing and hands out the page. No element may be open.
    pub fn into_result(self) -> (page: String)
        requires
            self@.tag_stack.len() == 0,
        ensures
            page@ == self@.output,
    {
        self.output
    }
}

} // verus!

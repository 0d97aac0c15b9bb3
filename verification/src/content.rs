//! What the objects of a document's body stand for in the page: the markup of each
//! object, and what it adds to the table of contents, to the list of highlighted
//! languages and to the registered mathematical expressions. All of it is defined
//! on the views, in reading order: an object first, then its children from first to
//! last.
use crate::document::Node;
use crate::markup::element;
use crate::summary::SummaryEntry;
use crate::text::{
    decimal, escaped, lemma_decimal_digits, lemma_decimal_injective,
    lemma_script_escaped_is_inert, script_escaped,
};
use vstd::prelude::*;

verus! {

/// The class of the title of a heading of the given level.
pub open spec fn heading_class(level: nat) -> Seq<char> {
    "title-lvl"@ + decimal(level)
}

/// The class of the element that holds the objects of the given level.
pub open spec fn container_class(level: nat) -> Seq<char> {
    "container-lvl"@ + decimal(level)
}

/// The class that tells the highlighter the language of a code block.
pub open spec fn language_class(language: Seq<char>) -> Seq<char> {
    "language-"@ + language
}

/// The id of the placeholder of the mathematical expression registered as number
/// `index`, counted from 0.
pub open spec fn math_id(index: nat) -> Seq<char> {
    "katex-"@ + decimal(index)
}

/// The script statement that typesets the expression `source` into the placeholder
/// of number `index`.
pub open spec fn math_statement(source: Seq<char>, display_mode: bool, index: nat) -> Seq<char> {
    "katex.render(\""@ + script_escaped(source) + "\", document.getElementById(\""@ + math_id(
        index,
    ) + "\"), {displayMode: "@ + (if display_mode {
        "true"@
    } else {
        "false"@
    }) + ", throwOnError: false});"@
}

impl Node {
    /// The number of mathematical expressions in the object.
    pub open spec fn math_count(self) -> nat
        decreases self,
    {
        match self {
            Node::Heading { children, .. } => math_count_of(children),
            Node::Paragraph { children, .. } => math_count_of(children),
            Node::CodeBlock { .. } => 0,
            Node::MathExpr { .. } => 1,
            Node::Diagram { .. } => 0,
            Node::Container { children, .. } => math_count_of(children),
        }
    }

    /// The markup of the object, where `first_math` expressions were registered
    /// before it.
    pub open spec fn html(self, first_math: nat) -> Seq<char>
        decreases self,
    {
        match self {
            Node::Heading { level, anchor, title_text, children } => element(
                "p"@,
                seq![("class"@, heading_class(level)), ("id"@, anchor)],
                escaped(title_text),
            ) + if children.len() == 0 {
                Seq::empty()
            } else {
                element(
                    "div"@,
                    seq![("class"@, container_class(level + 1))],
                    html_of(children, first_math),
                )
            },
            Node::Paragraph { text, children } => element(
                "p"@,
                seq![],
                escaped(text) + html_of(children, first_math),
            ),
            Node::CodeBlock { language, source } => element(
                "pre"@,
                seq![],
                element("code"@, seq![("class"@, language_class(language))], escaped(source)),
            ),
            Node::MathExpr { source, display_mode } => element(
                if display_mode {
                    "div"@
                } else {
                    "span"@
                },
                seq![("class"@, "math"@), ("id"@, math_id(first_math))],
                Seq::empty(),
            ),
            Node::Diagram { source } => element(
                "pre"@,
                seq![("class"@, "mermaid"@)],
                escaped(source),
            ),
            Node::Container { class, children } => match class {
                Some(c) => element("div"@, seq![("class"@, c)], html_of(children, first_math)),
                None => html_of(children, first_math),
            },
        }
    }

    /// The entries that the object adds to the table of contents.
    pub open spec fn headings(self) -> Seq<SummaryEntry>
        decreases self,
    {
        match self {
            Node::Heading { level, anchor, title_text, children } => seq![
                SummaryEntry { level, anchor, name: title_text },
            ] + headings_of(children),
            Node::Paragraph { children, .. } => headings_of(children),
            Node::CodeBlock { .. } => Seq::empty(),
            Node::MathExpr { .. } => Seq::empty(),
            Node::Diagram { .. } => Seq::empty(),
            Node::Container { children, .. } => headings_of(children),
        }
    }

    /// The languages of the code blocks in the object, one for each block.
    pub open spec fn languages(self) -> Seq<Seq<char>>
        decreases self,
    {
        match self {
            Node::Heading { children, .. } => languages_of(children),
            Node::Paragraph { children, .. } => languages_of(children),
            Node::CodeBlock { language, .. } => seq![language],
            Node::MathExpr { .. } => Seq::empty(),
            Node::Diagram { .. } => Seq::empty(),
            Node::Container { children, .. } => languages_of(children),
        }
    }

    /// The script that typesets the expressions in the object, where `first_math`
    /// expressions were registered before it.
    pub open spec fn math_script(self, first_math: nat) -> Seq<char>
        decreases self,
    {
        match self {
            Node::Heading { children, .. } => math_script_of(children, first_math),
            Node::Paragraph { children, .. } => math_script_of(children, first_math),
            Node::CodeBlock { .. } => Seq::empty(),
            Node::MathExpr { source, display_mode } => math_statement(
                source,
                display_mode,
                first_math,
            ),
            Node::Diagram { .. } => Seq::empty(),
            Node::Container { children, .. } => math_script_of(children, first_math),
        }
    }

    /// Whether the object holds a diagram.
    pub open spec fn has_diagram(self) -> bool
        decreases self,
    {
        match self {
            Node::Heading { children, .. } => any_diagram(children),
            Node::Paragraph { children, .. } => any_diagram(children),
            Node::CodeBlock { .. } => false,
            Node::MathExpr { .. } => false,
            Node::Diagram { .. } => true,
            Node::Container { children, .. } => any_diagram(children),
        }
    }

    /// Whether the object needs none of the optional features: it holds no
    /// mathematical expression, no code block and no diagram.
    pub open spec fn is_plain(self) -> bool {
        self.math_count() == 0 && self.languages().len() == 0 && !self.has_diagram()
    }
}

/// The number of mathematical expressions in a sequence of objects.
pub open spec fn math_count_of(nodes: Seq<Node>) -> nat
    decreases nodes,
{
    if nodes.len() == 0 {
        0
    } else {
        math_count_of(nodes.drop_last()) + nodes.last().math_count()
    }
}

/// The markup of a sequence of objects: that of each, in order.
pub open spec fn html_of(nodes: Seq<Node>, first_math: nat) -> Seq<char>
    decreases nodes,
{
    if nodes.len() == 0 {
        Seq::empty()
    } else {
        html_of(nodes.drop_last(), first_math) + nodes.last().html(
            first_math + math_count_of(nodes.drop_last()),
        )
    }
}

/// The entries that a sequence of objects adds to the table of contents.
pub open spec fn headings_of(nodes: Seq<Node>) -> Seq<SummaryEntry>
    decreases nodes,
{
    if nodes.len() == 0 {
        Seq::empty()
    } else {
        headings_of(nodes.drop_last()) + nodes.last().headings()
    }
}

/// The languages of the code blocks in a sequence of objects.
pub open spec fn languages_of(nodes: Seq<Node>) -> Seq<Seq<char>>
    decreases nodes,
{
    if nodes.len() == 0 {
        Seq::empty()
    } else {
        languages_of(nodes.drop_last()) + nodes.last().languages()
    }
}

/// The script that typesets the expressions in a sequence of objects.
pub open spec fn math_script_of(nodes: Seq<Node>, first_math: nat) -> Seq<char>
    decreases nodes,
{
    if nodes.len() == 0 {
        Seq::empty()
    } else {
        math_script_of(nodes.drop_last(), first_math) + nodes.last().math_script(
            first_math + math_count_of(nodes.drop_last()),
        )
    }
}

/// Whether one of a sequence of objects holds a diagram.
pub open spec fn any_diagram(nodes: Seq<Node>) -> bool
    decreases nodes,
{
    if nodes.len() == 0 {
        false
    } else {
        any_diagram(nodes.drop_last()) || nodes.last().has_diagram()
    }
}

/// The languages `plugins` and then those of `languages` that are new, each once,
/// in the order in which they first occur.
pub open spec fn with_languages(plugins: Seq<Seq<char>>, languages: Seq<Seq<char>>) -> Seq<
    Seq<char>,
>
    decreases languages.len(),
{
    if languages.len() == 0 {
        plugins
    } else {
        let before = with_languages(plugins, languages.drop_last());
        if before.contains(languages.last()) {
            before
        } else {
            before.push(languages.last())
        }
    }
}

/// Different expressions have different placeholders: the ids of two numbers are
/// the same only if the numbers are.
pub proof fn lemma_math_ids_differ(first: nat, second: nat)
    requires
        math_id(first) == math_id(second),
    ensures
        first == second,
{
    let prefix = "katex-"@;
    assert(math_id(first).skip(prefix.len() as int) =~= decimal(first));
    assert(math_id(second).skip(prefix.len() as int) =~= decimal(second));
    lemma_decimal_injective(first, second);
}

/// Whether `text` holds no `<`, so that nothing in it can open or close a tag.
pub open spec fn has_no_tag(text: Seq<char>) -> bool {
    forall|i: int| 0 <= i < text.len() ==> text[i] != '<'
}

/// Two texts without a tag joined are a text without a tag.
pub proof fn lemma_no_tag_concat(first: Seq<char>, second: Seq<char>)
    requires
        has_no_tag(first),
        has_no_tag(second),
    ensures
        has_no_tag(first + second),
{
    assert forall|i: int| 0 <= i < (first + second).len() implies (first + second)[i] != '<' by {
        if i < first.len() {
            assert((first + second)[i] == first[i]);
        } else {
            assert((first + second)[i] == second[i - first.len()]);
        }
    }
}

/// The statement that typesets an expression holds no `<`, whatever the source of
/// the expression: no expression can end the script that it is registered in.
pub proof fn lemma_math_statement_has_no_tag(source: Seq<char>, display_mode: bool, index: nat)
    ensures
        has_no_tag(math_statement(source, display_mode, index)),
{
    reveal_strlit("katex.render(\"");
    reveal_strlit("\", document.getElementById(\"");
    reveal_strlit("katex-");
    reveal_strlit("\"), {displayMode: ");
    reveal_strlit("true");
    reveal_strlit("false");
    reveal_strlit(", throwOnError: false});");
    lemma_script_escaped_is_inert(source);
    lemma_decimal_digits(index);
    let call = "katex.render(\""@;
    let lookup = "\", document.getElementById(\""@;
    let mode = "\"), {displayMode: "@;
    let flag = if display_mode {
        "true"@
    } else {
        "false"@
    };
    let end = ", throwOnError: false});"@;
    assert(has_no_tag(call));
    assert(has_no_tag(lookup));
    assert(has_no_tag(mode));
    assert(has_no_tag(flag));
    assert(has_no_tag(end));
    assert(has_no_tag("katex-"@));
    assert(has_no_tag(script_escaped(source)));
    assert(has_no_tag(decimal(index)));
    lemma_no_tag_concat("katex-"@, decimal(index));
    lemma_no_tag_concat(call, script_escaped(source));
    lemma_no_tag_concat(call + script_escaped(source), lookup);
    lemma_no_tag_concat(call + script_escaped(source) + lookup, math_id(index));
    lemma_no_tag_concat(call + script_escaped(source) + lookup + math_id(index), mode);
    lemma_no_tag_concat(call + script_escaped(source) + lookup + math_id(index) + mode, flag);
    lemma_no_tag_concat(
        call + script_escaped(source) + lookup + math_id(index) + mode + flag,
        end,
    );
}

/// The script of the expressions of an object holds no `<`.
pub proof fn lemma_math_script_has_no_tag(node: Node, first_math: nat)
    ensures
        has_no_tag(node.math_script(first_math)),
    decreases node,
{
    match node {
        Node::Heading { children, .. } => lemma_math_script_of_has_no_tag(children, first_math),
        Node::Paragraph { children, .. } => lemma_math_script_of_has_no_tag(children, first_math),
        Node::Container { children, .. } => lemma_math_script_of_has_no_tag(children, first_math),
        Node::MathExpr { source, display_mode } => lemma_math_statement_has_no_tag(
            source,
            display_mode,
            first_math,
        ),
        _ => {},
    }
}

/// The script of the expressions of a sequence of objects holds no `<`.
pub proof fn lemma_math_script_of_has_no_tag(nodes: Seq<Node>, first_math: nat)
    ensures
        has_no_tag(math_script_of(nodes, first_math)),
    decreases nodes,
{
    if nodes.len() > 0 {
        lemma_math_script_of_has_no_tag(nodes.drop_last(), first_math);
        lemma_math_script_has_no_tag(
            nodes.last(),
            first_math + math_count_of(nodes.drop_last()),
        );
        lemma_no_tag_concat(
            math_script_of(nodes.drop_last(), first_math),
            nodes.last().math_script(first_math + math_count_of(nodes.drop_last())),
        );
    }
}

/// Adding languages in two steps gives the same list as adding them in one.
pub proof fn lemma_with_languages_concat(
    plugins: Seq<Seq<char>>,
    first: Seq<Seq<char>>,
    second: Seq<Seq<char>>,
)
    ensures
        with_languages(with_languages(plugins, first), second) == with_languages(
            plugins,
            first + second,
        ),
    decreases second.len(),
{
    if second.len() == 0 {
        assert(first + second =~= first);
    } else {
        lemma_with_languages_concat(plugins, first, second.drop_last());
        assert((first + second).drop_last() =~= first + second.drop_last());
        assert((first + second).last() == second.last());
    }
}

/// An object without a mathematical expression adds nothing to the script,
/// wherever it stands.
pub proof fn lemma_no_math_no_script(node: Node, first_math: nat)
    requires
        node.math_count() == 0,
    ensures
        node.math_script(first_math) == Seq::<char>::empty(),
    decreases node,
{
    match node {
        Node::Heading { children, .. } => lemma_no_math_no_script_of(children, first_math),
        Node::Paragraph { children, .. } => lemma_no_math_no_script_of(children, first_math),
        Node::Container { children, .. } => lemma_no_math_no_script_of(children, first_math),
        _ => {},
    }
}

/// Objects without a mathematical expression add nothing to the script.
pub proof fn lemma_no_math_no_script_of(nodes: Seq<Node>, first_math: nat)
    requires
        math_count_of(nodes) == 0,
    ensures
        math_script_of(nodes, first_math) == Seq::<char>::empty(),
    decreases nodes,
{
    if nodes.len() > 0 {
        lemma_no_math_no_script_of(nodes.drop_last(), first_math);
        lemma_no_math_no_script(nodes.last(), first_math);
    }
}

/// The list of languages keeps what it held, in place: its old entries are the
/// first entries of the new list.
pub proof fn lemma_with_languages_extends(plugins: Seq<Seq<char>>, languages: Seq<Seq<char>>)
    ensures
        plugins.len() <= with_languages(plugins, languages).len(),
        with_languages(plugins, languages).take(plugins.len() as int) == plugins,
    decreases languages.len(),
{
    if languages.len() == 0 {
        assert(plugins.take(plugins.len() as int) =~= plugins);
    } else {
        lemma_with_languages_extends(plugins, languages.drop_last());
        let before = with_languages(plugins, languages.drop_last());
        assert(before.push(languages.last()).take(plugins.len() as int) =~= before.take(
            plugins.len() as int,
        ));
    }
}

/// The list of languages is empty only where it was empty and nothing was added.
pub proof fn lemma_languages_added(plugins: Seq<Seq<char>>, languages: Seq<Seq<char>>)
    ensures
        with_languages(plugins, languages).len() > 0 <==> plugins.len() > 0 || languages.len()
            > 0,
{
    lemma_with_languages_extends(plugins, languages);
}

/// The list of languages holds each language once: if no entry was there twice
/// before, none is afterwards.
pub proof fn lemma_with_languages_unique(plugins: Seq<Seq<char>>, languages: Seq<Seq<char>>)
    requires
        plugins.no_duplicates(),
    ensures
        with_languages(plugins, languages).no_duplicates(),
    decreases languages.len(),
{
    if languages.len() > 0 {
        lemma_with_languages_unique(plugins, languages.drop_last());
    }
}

/// The list of languages holds exactly the languages it held and those that were
/// added.
pub proof fn lemma_with_languages_contains(
    plugins: Seq<Seq<char>>,
    languages: Seq<Seq<char>>,
    language: Seq<char>,
)
    ensures
        with_languages(plugins, languages).contains(language) <==> plugins.contains(language)
            || languages.contains(language),
    decreases languages.len(),
{
    if languages.len() > 0 {
        let rest = languages.drop_last();
        let last = languages.last();
        let before = with_languages(plugins, rest);
        lemma_with_languages_contains(plugins, rest, language);
        assert(languages.contains(language) <==> rest.contains(language) || last == language) by {
            if rest.contains(language) {
                let i = choose|i: int| 0 <= i < rest.len() && rest[i] == language;
                assert(languages[i] == language);
            }
            if last == language {
                assert(languages[languages.len() - 1] == language);
            }
            if languages.contains(language) {
                let i = choose|i: int| 0 <= i < languages.len() && languages[i] == language;
                if i < rest.len() {
                    assert(rest[i] == language);
                }
            }
        }
        if !before.contains(last) {
            let after = before.push(last);
            assert(after.contains(language) <==> before.contains(language) || last == language) by {
                if before.contains(language) {
                    let i = choose|i: int| 0 <= i < before.len() && before[i] == language;
                    assert(after[i] == language);
                }
                if last == language {
                    assert(after[after.len() - 1] == language);
                }
                if after.contains(language) {
                    let i = choose|i: int| 0 <= i < after.len() && after[i] == language;
                    if i < before.len() {
                        assert(before[i] == language);
                    }
                }
            }
        }
    }
}

} // verus!

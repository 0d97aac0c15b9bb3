//! The page: a fixed sequence of parts around the body of a document. What the
//! body needs of the optional features is known only once it is written, so the
//! blocks of those features stand after the body, at the end of the page.
use crate::assets::{plugin_scripts, Assets, Catalogue};
use crate::builder::Builder;
use crate::content::with_languages;
use crate::document::{optional_text, Document, Node, ParseResult};
use crate::markup::{attributes_from, element, opening_tag};
use crate::state::{lemma_element, lemma_end_tag, lemma_write_twice};
use crate::summary::SummaryEntry;
use crate::text::{decimal, escaped, push_decimal};
use vstd::prelude::*;
use vstd::seq_lib::lemma_concat_associative;

verus! {

/// What the caller asks of the page.
pub struct KnotsOptions {
    /// Whether the page shows the table of contents.
    pub summary: bool,
}

/// The statement that starts the drawing of diagrams, in the dark or the light theme
/// as the reader's browser prefers.
pub const MERMAID_INIT: &'static str =
    "mermaid.initialize({theme: window.matchMedia('(prefers-color-scheme: dark)').matches ? 'dark' : 'base'})";

/// A stylesheet inside the page.
pub open spec fn style_block(css: Seq<char>) -> Seq<char> {
    element("style"@, seq![], css)
}

/// A script inside the page.
pub open spec fn script_block(script: Seq<char>) -> Seq<char> {
    element("script"@, seq![], script)
}

/// The head of the page: character set, viewport, the escaped title and the two
/// stylesheets that every page has.
pub open spec fn head_html(title: Seq<char>, assets: Catalogue) -> Seq<char> {
    element(
        "head"@,
        seq![],
        opening_tag("meta"@, seq![("charset"@, "utf-8"@)]) + opening_tag(
            "meta"@,
            seq![("name"@, "viewport"@), ("content"@, "width=device-width, initial-scale=1"@)],
        ) + element("title"@, seq![], escaped(title)) + style_block(assets.normalize_css)
            + style_block(assets.style_css),
    )
}

/// The names of the authors in one line: the first as it is, each further one
/// after a comma and a space.
pub open spec fn authors_line(authors: Seq<Seq<char>>) -> Seq<char>
    decreases authors.len(),
{
    if authors.len() == 0 {
        Seq::empty()
    } else if authors.len() == 1 {
        authors[0]
    } else {
        authors_line(authors.drop_last()) + ", "@ + authors.last()
    }
}

/// The header of the body: the title, and the authors behind their icon if the
/// document names any.
pub open spec fn header_html(title: Seq<char>, authors: Seq<Seq<char>>, assets: Catalogue) -> Seq<
    char,
> {
    element(
        "header"@,
        seq![],
        element("p"@, seq![("id"@, "doctitle"@)], escaped(title)) + if authors.len() == 0 {
            Seq::empty()
        } else {
            element(
                "div"@,
                seq![("class"@, "docinfo"@)],
                assets.profile_icon + escaped(authors_line(authors)),
            )
        },
    )
}

/// The sentence that names the license.
pub open spec fn license_sentence(license: Seq<char>) -> Seq<char> {
    "This work is available under the "@ + license + " license"@
}

/// The license block: a rule, the icon and the sentence, or nothing for a document
/// without a license.
pub open spec fn license_html(license: Option<Seq<char>>, assets: Catalogue) -> Seq<char> {
    match license {
        Some(name) => element(
            "div"@,
            seq![("class"@, "docinfo discreet"@), ("id"@, "license"@)],
            opening_tag("hr"@, seq![]) + assets.license_icon + escaped(license_sentence(name)),
        ),
        None => Seq::empty(),
    }
}

/// The class that tells the level of an entry of the table of contents.
pub open spec fn level_class(level: nat) -> Seq<char> {
    "lvl"@ + decimal(level)
}

/// The link that leads to the heading of `entry`.
pub open spec fn summary_link(entry: SummaryEntry) -> Seq<char> {
    element(
        "a"@,
        seq![("href"@, "#"@ + entry.anchor), ("class"@, level_class(entry.level))],
        escaped(entry.name),
    )
}

/// The links of the entries of `entries`, in their order.
pub open spec fn summary_links(entries: Seq<SummaryEntry>) -> Seq<char>
    decreases entries.len(),
{
    if entries.len() == 0 {
        Seq::empty()
    } else {
        summary_links(entries.drop_last()) + summary_link(entries.last())
    }
}

/// The panel of the table of contents. It is there if it was asked for and the
/// document has a heading.
pub open spec fn summary_html(requested: bool, entries: Seq<SummaryEntry>) -> Seq<char> {
    if requested && entries.len() > 0 {
        element(
            "div"@,
            seq![("class"@, "summary-container"@)],
            element(
                "div"@,
                seq![("class"@, "summary"@)],
                element("p"@, seq![], escaped("Summary"@)) + element(
                    "div"@,
                    seq![("class"@, "summary-content"@)],
                    summary_links(entries),
                ),
            ),
        )
    } else {
        Seq::empty()
    }
}

/// The block that typesets mathematics: the stylesheet, and the script followed by
/// the statements of the registered expressions.
pub open spec fn katex_html(needed: bool, statements: Seq<char>, assets: Catalogue) -> Seq<char> {
    if needed {
        style_block(assets.katex_css) + script_block(assets.katex_js + statements)
    } else {
        Seq::empty()
    }
}

/// The block that highlights code: the stylesheet, and the script followed by the
/// scripts of the languages in use.
pub open spec fn prism_html(needed: bool, languages: Seq<Seq<char>>, assets: Catalogue) -> Seq<
    char,
> {
    if needed {
        style_block(assets.prism_css) + script_block(
            assets.prism_js + plugin_scripts(assets.prism_plugins, languages),
        )
    } else {
        Seq::empty()
    }
}

/// The block that draws diagrams: the script, and the statement that starts it.
pub open spec fn mermaid_html(needed: bool, assets: Catalogue) -> Seq<char> {
    if needed {
        script_block(assets.mermaid_js) + script_block(MERMAID_INIT@)
    } else {
        Seq::empty()
    }
}

/// The blocks of the optional features that the body `root` needs, in their fixed
/// order: mathematics, code, diagrams. A feature that the body does not use has no
/// block.
pub open spec fn trailers_html(root: Node, assets: Catalogue) -> Seq<char> {
    katex_html(root.math_count() > 0, root.math_script(0), assets) + prism_html(
        root.languages().len() > 0,
        with_languages(Seq::empty(), root.languages()),
        assets,
    ) + mermaid_html(root.has_diagram(), assets)
}

/// The body of the document in its element.
pub open spec fn content_html(root: Node) -> Seq<char> {
    element("div"@, seq![("class"@, "container-lvl1"@)], root.html(0))
}

/// The main part of the page: the body of the document and the license block in
/// one element, and the table of contents beside it. The table of contents comes
/// after the body, of which it is made.
pub open spec fn main_html(document: Document, options: KnotsOptions, assets: Catalogue) -> Seq<
    char,
> {
    element(
        "div"@,
        seq![("class"@, "flex-container"@)],
        element(
            "div"@,
            seq![("class"@, "main-content"@)],
            content_html(document.root) + license_html(document.license, assets),
        ) + summary_html(options.summary, document.root.headings()),
    )
}

/// The page of `document`: the document type, then the head and the body. The body
/// holds the header, then the main part, then the blocks of the optional features.
pub open spec fn page_html(document: Document, options: KnotsOptions, assets: Catalogue) -> Seq<
    char,
> {
    opening_tag("!DOCTYPE html"@, seq![]) + element(
        "html"@,
        seq![],
        head_html(document.title, assets) + element(
            "body"@,
            seq![],
            header_html(document.title, document.authors, assets) + main_html(
                document,
                options,
                assets,
            ) + trailers_html(document.root, assets),
        ),
    )
}

/// Writes an element whose content is `content` as it stands.
fn write_block(builder: &mut Builder, name: &str, content: &str)
    ensures
        final(builder)@ == old(builder)@.write(element(name@, seq![], content@)),
{
    broadcast use lemma_element;
    builder.start_tag(name, &[]);
    builder.write_raw(content);
    builder.end_tag();
}

/// Writes the head of the page.
fn write_head(builder: &mut Builder, title: &str, assets: &Assets)
    ensures
        final(builder)@ == old(builder)@.write(head_html(title@, assets@)),
{
    broadcast use {lemma_element, lemma_write_twice};
    proof {
        reveal_with_fuel(attributes_from, 3);
    }
    builder.start_tag("head", &[]);
    builder.orphan_tag("meta", &[("charset", "utf-8")]);
    builder.orphan_tag(
        "meta",
        &[("name", "viewport"), ("content", "width=device-width, initial-scale=1")],
    );
    builder.inline_tag("title", &[], title);
    write_block(builder, "style", assets.normalize_css.as_str());
    write_block(builder, "style", assets.style_css.as_str());
    builder.end_tag();
}

/// The names of `authors` in one line, with a comma and a space between them.
pub fn join_authors(authors: &Vec<String>) -> (line: String)
    ensures
        line@ == authors_line(authors.deep_view()),
{
    let ghost names = authors.deep_view();
    let mut line = String::new();
    for i in 0..authors.len()
        invariant
            names == authors.deep_view(),
            line@ == authors_line(names.take(i as int)),
    {
        proof {
            assert(names.take(i + 1).drop_last() =~= names.take(i as int));
        }
        if i > 0 {
            line.append(", ");
        }
        line.append(authors[i].as_str());
    }
    proof {
        assert(names.take(authors.len() as int) =~= names);
    }
    line
}

/// Writes the header of the body.
fn write_header(builder: &mut Builder, title: &str, authors: &Vec<String>, assets: &Assets)
    ensures
        final(builder)@ == old(builder)@.write(
            header_html(title@, authors.deep_view(), assets@),
        ),
{
    broadcast use {lemma_element, lemma_write_twice};
    proof {
        reveal_with_fuel(attributes_from, 2);
    }
    builder.start_tag("header", &[]);
    builder.inline_tag("p", &[("id", "doctitle")], title);
    if authors.len() > 0 {
        builder.start_tag("div", &[("class", "docinfo")]);
        builder.write_raw(assets.profile_icon.as_str());
        let line = join_authors(authors);
        builder.write_content(line.as_str());
        builder.end_tag();
    }
    builder.end_tag();
}

/// Writes the license block, if the document has a license.
fn write_license(builder: &mut Builder, license: &Option<String>, assets: &Assets)
    ensures
        final(builder)@ == old(builder)@.write(license_html(optional_text(*license), assets@)),
{
    broadcast use {lemma_element, lemma_write_twice};
    proof {
        reveal_with_fuel(attributes_from, 3);
    }
    match license {
        Some(name) => {
            builder.start_tag("div", &[("class", "docinfo discreet"), ("id", "license")]);
            builder.orphan_tag("hr", &[]);
            builder.write_raw(assets.license_icon.as_str());
            let mut sentence = "This work is available under the ".to_owned();
            sentence.append(name.as_str());
            sentence.append(" license");
            builder.write_content(sentence.as_str());
            builder.end_tag();
        },
        None => {},
    }
}

/// Writes the panel of the table of contents, if it was asked for and the document
/// has a heading.
fn write_summary(builder: &mut Builder, requested: bool)
    ensures
        final(builder)@ == old(builder)@.write(summary_html(requested, old(builder)@.summary)),
{
    broadcast use {lemma_element, lemma_write_twice};
    proof {
        reveal_with_fuel(attributes_from, 3);
    }
    if requested && builder.get_summary().len() > 0 {
        builder.start_tag("div", &[("class", "summary-container")]);
        builder.start_tag("div", &[("class", "summary")]);
        builder.inline_tag("p", &[], "Summary");
        builder.start_tag("div", &[("class", "summary-content")]);
        let ghost entries = builder@.summary;
        let ghost opened = builder@;
        let count = builder.get_summary().len();
        proof {
            assert(entries.take(0) =~= Seq::empty());
            assert(opened.write(Seq::empty()) =~= opened);
        }
        for i in 0..count
            invariant
                count == entries.len(),
                entries == opened.summary,
                builder@ == opened.write(summary_links(entries.take(i as int))),
        {
            proof {
                reveal_with_fuel(attributes_from, 3);
                assert(entries.take(i + 1).drop_last() =~= entries.take(i as int));
            }
            let item = &builder.get_summary()[i];
            let level = item.level;
            let name = item.name.clone();
            let mut target = "#".to_owned();
            target.append(item.anchor.as_str());
            let mut class = "lvl".to_owned();
            push_decimal(&mut class, level as u64);
            builder.inline_tag(
                "a",
                &[("href", target.as_str()), ("class", class.as_str())],
                name.as_str(),
            );
        }
        proof {
            assert(entries.take(count as int) =~= entries);
        }
        builder.end_tag();
        builder.end_tag();
        builder.end_tag();
    }
}

/// Writes the block that typesets mathematics, if an expression was written.
fn write_katex(builder: &mut Builder, assets: &Assets)
    ensures
        final(builder)@ == old(builder)@.write(
            katex_html(old(builder)@.katex, old(builder)@.katex_buffer, assets@),
        ),
{
    broadcast use {lemma_element, lemma_write_twice};
    if builder.should_include_katex() {
        write_block(builder, "style", assets.katex_css.as_str());
        builder.start_tag("script", &[]);
        builder.write_raw(assets.katex_js.as_str());
        let statements = builder.get_katex_content();
        builder.write_raw(statements.as_str());
        builder.end_tag();
    }
}

/// Writes the block that highlights code, if a code block was written.
fn write_prism(builder: &mut Builder, assets: &Assets)
    ensures
        final(builder)@ == old(builder)@.write(
            prism_html(old(builder)@.prism, old(builder)@.prism_plugins, assets@),
        ),
{
    broadcast use {lemma_element, lemma_write_twice};
    if builder.should_include_prism() {
        write_block(builder, "style", assets.prism_css.as_str());
        builder.start_tag("script", &[]);
        builder.write_raw(assets.prism_js.as_str());
        let ghost languages = builder@.prism_plugins;
        let mut scripts = String::new();
        let count = builder.get_prism_plugins().len();
        for i in 0..count
            invariant
                count == languages.len(),
                languages == builder@.prism_plugins,
                scripts@ == plugin_scripts(assets@.prism_plugins, languages.take(i as int)),
        {
            proof {
                assert(languages.take(i + 1).drop_last() =~= languages.take(i as int));
            }
            assets.push_plugin_script(&mut scripts, &builder.get_prism_plugins()[i]);
        }
        proof {
            assert(languages.take(count as int) =~= languages);
        }
        builder.write_raw(scripts.as_str());
        builder.end_tag();
    }
}

/// Writes the block that draws diagrams, if a diagram was written.
fn write_mermaid(builder: &mut Builder, assets: &Assets)
    ensures
        final(builder)@ == old(builder)@.write(mermaid_html(old(builder)@.mermaid, assets@)),
{
    broadcast use lemma_write_twice;
    if builder.should_include_mermaid() {
        write_block(builder, "script", assets.mermaid_js.as_str());
        write_block(builder, "script", MERMAID_INIT);
    }
}

/// Renders `parse_result` as one page that carries all it needs within itself.
///
/// The parts are written in a fixed order: the head; the header of the body; the
/// main content with the body of the document and the license; the table of
/// contents; and last the blocks of the optional features, which depend on what
/// the body turned out to hold.
pub fn transpile(parse_result: ParseResult, options: KnotsOptions, assets: &Assets) -> (page:
    String)
    ensures
        page@ == page_html(parse_result@, options, assets@),
{
    proof {
        reveal_with_fuel(attributes_from, 2);
    }
    let ghost document = parse_result@;
    let ghost catalogue = assets@;
    let ghost root = document.root;
    let ghost head = head_html(document.title, catalogue);
    let ghost header = header_html(document.title, document.authors, catalogue);
    let ghost license = license_html(document.license, catalogue);
    let ghost summary = summary_html(options.summary, root.headings());
    let ghost trailers = trailers_html(root, catalogue);

    let mut builder = Builder::new();
    builder.orphan_tag("!DOCTYPE html", &[]);
    let ghost at_html = builder@;
    builder.start_tag("html", &[]);
    write_head(&mut builder, parse_result.document_title.as_str(), assets);
    let ghost at_body = builder@;
    builder.start_tag("body", &[]);
    write_header(
        &mut builder,
        parse_result.document_title.as_str(),
        &parse_result.document_authors,
        assets,
    );
    let ghost at_flex = builder@;
    builder.start_tag("div", &[("class", "flex-container")]);
    let ghost at_main = builder@;
    builder.start_tag("div", &[("class", "main-content")]);
    let ghost at_content = builder@;
    builder.start_tag("div", &[("class", "container-lvl1")]);
    proof {
        assert(Seq::<SummaryEntry>::empty() + root.headings() =~= root.headings());
        assert(Seq::<char>::empty() + root.math_script(0) =~= root.math_script(0));
    }
    builder.write_knots_object(&parse_result.root_object);
    let ghost content = content_html(root);
    proof {
        lemma_end_tag(
            at_content,
            "div"@,
            seq![("class"@, "container-lvl1"@)],
            root.html(0),
            builder@,
        );
    }
    builder.end_tag();

    write_license(&mut builder, &parse_result.document_license, assets);
    let ghost main = element("div"@, seq![("class"@, "main-content"@)], content + license);
    proof {
        lemma_concat_associative(at_content.output, content, license);
        lemma_end_tag(
            at_main,
            "div"@,
            seq![("class"@, "main-content"@)],
            content + license,
            builder@,
        );
    }
    builder.end_tag();

    write_summary(&mut builder, options.summary);
    let ghost flex = element("div"@, seq![("class"@, "flex-container"@)], main + summary);
    proof {
        lemma_concat_associative(at_main.output, main, summary);
        lemma_end_tag(
            at_flex,
            "div"@,
            seq![("class"@, "flex-container"@)],
            main + summary,
            builder@,
        );
    }
    builder.end_tag();

    let ghost after_flex = builder@;
    write_katex(&mut builder, assets);
    write_prism(&mut builder, assets);
    write_mermaid(&mut builder, assets);
    let ghost body = element("body"@, seq![], header + flex + trailers);
    proof {
        let katex = katex_html(root.math_count() > 0, root.math_script(0), catalogue);
        let prism = prism_html(
            root.languages().len() > 0,
            with_languages(Seq::empty(), root.languages()),
            catalogue,
        );
        let mermaid = mermaid_html(root.has_diagram(), catalogue);
        lemma_concat_associative(after_flex.output, katex, prism);
        lemma_concat_associative(after_flex.output, katex + prism, mermaid);
        let opened = at_body.start_tag("body"@, seq![]).output;
        lemma_concat_associative(opened, header, flex);
        lemma_concat_associative(opened, header + flex, trailers);
        lemma_end_tag(at_body, "body"@, seq![], header + flex + trailers, builder@);
    }
    builder.end_tag();

    proof {
        let opened = at_html.start_tag("html"@, seq![]).output;
        lemma_concat_associative(opened, head, body);
        lemma_end_tag(at_html, "html"@, seq![], head + body, builder@);
        assert(Seq::<char>::empty() + opening_tag("!DOCTYPE html"@, seq![]) =~= opening_tag(
            "!DOCTYPE html"@,
            seq![],
        ));
    }
    builder.end_tag();
    builder.into_result()
}

/// A document without mathematical expression, code block and diagram has none of
/// the three blocks of the optional features: its page ends with the main part.
pub proof fn lemma_plain_document_has_no_trailers(
    document: Document,
    options: KnotsOptions,
    assets: Catalogue,
)
    requires
        document.root.is_plain(),
    ensures
        katex_html(
            document.root.math_count() > 0,
            document.root.math_script(0),
            assets,
        ) == Seq::<char>::empty(),
        prism_html(
            document.root.languages().len() > 0,
            with_languages(Seq::empty(), document.root.languages()),
            assets,
        ) == Seq::<char>::empty(),
        mermaid_html(document.root.has_diagram(), assets) == Seq::<char>::empty(),
        trailers_html(document.root, assets) == Seq::<char>::empty(),
        page_html(document, options, assets) == opening_tag("!DOCTYPE html"@, seq![]) + element(
            "html"@,
            seq![],
            head_html(document.title, assets) + element(
                "body"@,
                seq![],
                header_html(document.title, document.authors, assets) + main_html(
                    document,
                    options,
                    assets,
                ),
            ),
        ),
{
    let header = header_html(document.title, document.authors, assets);
    let main = main_html(document, options, assets);
    assert(trailers_html(document.root, assets) =~= Seq::<char>::empty());
    assert(header + main + Seq::<char>::empty() =~= header + main);
}

/// A document without a license has no license block, whether the table of
/// contents was asked for or not: its main content is the body of the document
/// alone.
pub proof fn lemma_no_license_no_block(
    document: Document,
    options: KnotsOptions,
    assets: Catalogue,
)
    requires
        document.license is None,
    ensures
        license_html(document.license, assets) == Seq::<char>::empty(),
        main_html(document, options, assets) == element(
            "div"@,
            seq![("class"@, "flex-container"@)],
            element("div"@, seq![("class"@, "main-content"@)], content_html(document.root))
                + summary_html(options.summary, document.root.headings()),
        ),
{
    let content = content_html(document.root);
    assert(content + Seq::<char>::empty() =~= content);
}

/// The page depends on nothing but the document, the options and the assets:
/// inputs with the same views give the same page.
pub proof fn lemma_same_input_same_page(
    first: ParseResult,
    second: ParseResult,
    first_options: KnotsOptions,
    second_options: KnotsOptions,
    first_assets: Assets,
    second_assets: Assets,
)
    requires
        first@ == second@,
        first_options.summary == second_options.summary,
        first_assets@ == second_assets@,
    ensures
        page_html(first@, first_options, first_assets@) == page_html(
            second@,
            second_options,
            second_assets@,
        ),
{
}

} // verus!

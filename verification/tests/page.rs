use knots::assets::{Assets, PrismPlugin};
use knots::document::{KnotsObject, ParseResult};
use knots::transpiler::{join_authors, transpile, KnotsOptions, MERMAID_INIT};

const HEAD: &str = "<!DOCTYPE html><html><head><meta charset=\"utf-8\">\
<meta name=\"viewport\" content=\"width=device-width, initial-scale=1\">";
const STYLES: &str = "<style>html{line-height:1.15}</style><style>body>p{margin:0}</style></head>";
const KATEX: &str = "<style>.katex{font:1em 'KaTeX'}</style><script>var katex={render:function(s,e,o){}};";
const PRISM: &str = "<style>.token{color:#905}</style><script>var Prism={languages:{}};";
const MERMAID: &str = "<script>var mermaid={initialize:function(c){}};</script>";

fn assets() -> Assets {
    Assets {
        normalize_css: "html{line-height:1.15}".to_string(),
        style_css: "body>p{margin:0}".to_string(),
        profile_icon: "<svg id=\"profile\"></svg>".to_string(),
        license_icon: "<svg id=\"ereader\"></svg>".to_string(),
        katex_css: ".katex{font:1em 'KaTeX'}".to_string(),
        katex_js: "var katex={render:function(s,e,o){}};".to_string(),
        prism_css: ".token{color:#905}".to_string(),
        prism_js: "var Prism={languages:{}};".to_string(),
        prism_plugins: vec![
            PrismPlugin {
                language: "rust".to_string(),
                script: "Prism.languages.rust={a:1<2};".to_string(),
            },
            PrismPlugin {
                language: "python".to_string(),
                script: "Prism.languages.python={};".to_string(),
            },
            PrismPlugin {
                language: "rust".to_string(),
                script: "Prism.languages.rust='second';".to_string(),
            },
        ],
        mermaid_js: "var mermaid={initialize:function(c){}};".to_string(),
    }
}

fn heading(level: u32, anchor: &str, title: &str, children: Vec<KnotsObject>) -> KnotsObject {
    KnotsObject::Heading {
        level,
        anchor: anchor.to_string(),
        title_text: title.to_string(),
        children,
    }
}

fn paragraph(text: &str) -> KnotsObject {
    KnotsObject::Paragraph { text: text.to_string(), children: vec![] }
}

fn code(language: &str, source: &str) -> KnotsObject {
    KnotsObject::CodeBlock { language: language.to_string(), source: source.to_string() }
}

fn math(source: &str, display_mode: bool) -> KnotsObject {
    KnotsObject::MathExpr { source: source.to_string(), display_mode }
}

fn diagram(source: &str) -> KnotsObject {
    KnotsObject::Diagram { source: source.to_string() }
}

fn group(children: Vec<KnotsObject>) -> KnotsObject {
    KnotsObject::Container { class: None, children }
}

fn document(title: &str, authors: &[&str], license: Option<&str>, root: KnotsObject) -> ParseResult {
    ParseResult {
        document_title: title.to_string(),
        document_authors: authors.iter().map(|author| author.to_string()).collect(),
        document_license: license.map(|name| name.to_string()),
        root_object: root,
    }
}

fn page(title: &str, authors: &[&str], license: Option<&str>, root: KnotsObject, summary: bool) -> String {
    transpile(document(title, authors, license, root), KnotsOptions { summary }, &assets())
}

fn four_headings() -> KnotsObject {
    group(vec![
        heading(1, "a", "A", vec![heading(2, "b", "B", vec![]), heading(2, "c", "C", vec![])]),
        heading(1, "d", "D", vec![]),
    ])
}

#[test]
fn the_smallest_page() {
    let expected = format!(
        "{}<title>T</title>{}<body><header><p id=\"doctitle\">T</p></header>\
         <div class=\"flex-container\"><div class=\"main-content\">\
         <div class=\"container-lvl1\"></div></div></div></body></html>",
        HEAD, STYLES
    );
    assert_eq!(page("T", &[], None, group(vec![]), false), expected);
    assert_eq!(page("T", &[], None, group(vec![]), true), expected);
}

#[test]
fn a_page_with_every_part() {
    let root = group(vec![
        heading(1, "one", "One", vec![paragraph("Hello"), math("x<1", true)]),
        code("python", "print(1)"),
        diagram("graph TD"),
    ]);
    let expected = format!(
        "{}<title>A &amp; B</title>{}<body><header><p id=\"doctitle\">A &amp; B</p>\
         <div class=\"docinfo\"><svg id=\"profile\"></svg>Ann, Ben</div></header>\
         <div class=\"flex-container\"><div class=\"main-content\">\
         <div class=\"container-lvl1\">\
         <p class=\"title-lvl1\" id=\"one\">One</p><div class=\"container-lvl2\"><p>Hello</p>\
         <div class=\"math\" id=\"katex-0\"></div></div>\
         <pre><code class=\"language-python\">print(1)</code></pre>\
         <pre class=\"mermaid\">graph TD</pre>\
         </div>\
         <div class=\"docinfo discreet\" id=\"license\"><hr><svg id=\"ereader\"></svg>\
         This work is available under the CC-BY license</div></div>\
         <div class=\"summary-container\"><div class=\"summary\"><p>Summary</p>\
         <div class=\"summary-content\"><a href=\"#one\" class=\"lvl1\">One</a></div></div></div>\
         </div>\
         {}katex.render(\"x\\x3C1\", document.getElementById(\"katex-0\"), \
         {{displayMode: true, throwOnError: false}});</script>\
         {}Prism.languages.python={{}};</script>\
         {}<script>{}</script></body></html>",
        HEAD, STYLES, KATEX, PRISM, MERMAID, MERMAID_INIT
    );
    assert_eq!(page("A & B", &["Ann", "Ben"], Some("CC-BY"), root, true), expected);
}

#[test]
fn the_title_is_escaped_in_both_places() {
    let out = page("<script>alert(1)</script>", &[], None, group(vec![]), false);
    assert!(out.contains("<title>&lt;script&gt;alert(1)&lt;/script&gt;</title>"));
    assert!(out.contains("<p id=\"doctitle\">&lt;script&gt;alert(1)&lt;/script&gt;</p>"));
    assert!(!out.contains("<script>"));
}

#[test]
fn the_assets_stand_in_the_page_as_they_are() {
    let assets = assets();
    let root = group(vec![math("x", false), code("rust", "x"), diagram("x")]);
    let out = page("T", &["Ann"], Some("MIT"), root, true);
    assert!(out.contains(&format!("<style>{}</style>", assets.normalize_css)));
    assert!(out.contains(&format!("<style>{}</style>", assets.style_css)));
    assert!(out.contains(&format!("<div class=\"docinfo\">{}Ann</div>", assets.profile_icon)));
    assert!(out.contains(&format!("<hr>{}This work", assets.license_icon)));
    assert!(out.contains(&format!("<style>{}</style>", assets.katex_css)));
    assert!(out.contains(&format!("<script>{}katex.render(", assets.katex_js)));
    assert!(out.contains(&format!("<style>{}</style>", assets.prism_css)));
    assert!(out.contains(&format!("<script>{}{}</script>", assets.prism_js, assets.prism_plugins[0].script)));
    assert!(out.contains(&format!("<script>{}</script>", assets.mermaid_js)));
    assert!(out.contains(&format!("<script>{}</script>", MERMAID_INIT)));
}

#[test]
fn three_authors_are_joined_once() {
    let out = page("T", &["Alice", "Bob", "Carol"], None, group(vec![]), false);
    assert_eq!(out.matches("Alice, Bob, Carol").count(), 1);
    assert!(out.contains("<div class=\"docinfo\"><svg id=\"profile\"></svg>Alice, Bob, Carol</div>"));
    assert_eq!(out.matches("Alice").count(), 1);
    assert_eq!(out.matches("Bob").count(), 1);
    assert_eq!(out.matches("Carol").count(), 1);
}

#[test]
fn join_authors_puts_a_comma_and_a_space_between() {
    let names = |list: &[&str]| -> Vec<String> { list.iter().map(|name| name.to_string()).collect() };
    assert_eq!(join_authors(&names(&["Alice", "Bob", "Carol"])), "Alice, Bob, Carol");
    assert_eq!(join_authors(&names(&["Alice", "Bob"])), "Alice, Bob");
    assert_eq!(join_authors(&names(&["Alice"])), "Alice");
    assert_eq!(join_authors(&names(&[])), "");
    assert_eq!(join_authors(&names(&["", ""])), ", ");
}

#[test]
fn one_author_has_no_separator() {
    let out = page("T", &["Alice"], None, group(vec![]), false);
    assert!(out.contains("<div class=\"docinfo\"><svg id=\"profile\"></svg>Alice</div>"));
}

#[test]
fn author_names_are_escaped() {
    let out = page("T", &["<b>Eve</b>", "K&R"], None, group(vec![]), false);
    assert!(out.contains("</svg>&lt;b&gt;Eve&lt;/b&gt;, K&amp;R</div>"));
}

#[test]
fn no_author_no_author_block() {
    let out = page("T", &[], None, group(vec![]), false);
    assert!(!out.contains("docinfo"));
    assert!(!out.contains("<svg id=\"profile\">"));
}

#[test]
fn license_and_summary_are_both_there() {
    let out = page("T", &[], Some("MIT"), four_headings(), true);
    assert!(out.contains(
        "<div class=\"docinfo discreet\" id=\"license\"><hr><svg id=\"ereader\"></svg>\
         This work is available under the MIT license</div>"
    ));
    assert!(out.contains(
        "<div class=\"summary-container\"><div class=\"summary\"><p>Summary</p>\
         <div class=\"summary-content\">\
         <a href=\"#a\" class=\"lvl1\">A</a><a href=\"#b\" class=\"lvl2\">B</a>\
         <a href=\"#c\" class=\"lvl2\">C</a><a href=\"#d\" class=\"lvl1\">D</a>\
         </div></div></div>"
    ));
}

#[test]
fn the_summary_follows_the_main_content() {
    let out = page("T", &[], Some("MIT"), four_headings(), true);
    let license = out.find("id=\"license\"").unwrap();
    let summary = out.find("summary-container").unwrap();
    let body = out.find("id=\"d\"").unwrap();
    assert!(body < license);
    assert!(license < summary);
}

#[test]
fn without_a_license_there_is_no_license_block() {
    for summary in [false, true] {
        for root in [group(vec![]), four_headings()] {
            let out = page("T", &[], None, root, summary);
            assert!(!out.contains("license"));
            assert!(!out.contains("<hr>"));
            assert!(!out.contains("<svg id=\"ereader\">"));
        }
    }
}

#[test]
fn the_license_name_is_escaped() {
    let out = page("T", &[], Some("<GPL> & more"), group(vec![]), false);
    assert!(out.contains("This work is available under the &lt;GPL&gt; &amp; more license"));
}

#[test]
fn no_summary_unless_asked_for() {
    let out = page("T", &[], None, four_headings(), false);
    assert!(!out.contains("summary"));
}

#[test]
fn no_summary_without_headings() {
    let out = page("T", &[], Some("MIT"), group(vec![paragraph("text")]), true);
    assert!(!out.contains("summary"));
}

#[test]
fn summary_links_are_escaped() {
    let root = heading(3, "a\"b", "x < y", vec![]);
    let out = page("T", &[], None, root, true);
    assert!(out.contains("<a href=\"#a&quot;b\" class=\"lvl3\">x &lt; y</a>"));
}

#[test]
fn a_plain_document_has_no_trailer() {
    let root = group(vec![heading(1, "a", "A", vec![paragraph("text")]), paragraph("more")]);
    let out = page("T", &["Ann"], Some("MIT"), root, true);
    assert!(!out.contains("<script>"));
    assert!(!out.contains("katex"));
    assert!(!out.contains("Prism"));
    assert!(!out.contains("mermaid"));
    assert_eq!(out.matches("<style>").count(), 2);
    assert!(out.ends_with("</div></div></div></div></body></html>"));
}

#[test]
fn mathematics_brings_its_block() {
    let root = group(vec![math("a", false), math("b", true)]);
    let out = page("T", &[], None, root, false);
    assert!(out.ends_with(&format!(
        "</div></div></div>{}\
         katex.render(\"a\", document.getElementById(\"katex-0\"), {{displayMode: false, throwOnError: false}});\
         katex.render(\"b\", document.getElementById(\"katex-1\"), {{displayMode: true, throwOnError: false}});\
         </script></body></html>",
        KATEX
    )));
    assert!(!out.contains("Prism"));
    assert!(!out.contains("mermaid"));
}

#[test]
fn code_brings_its_block_and_the_scripts_of_its_languages() {
    let root = group(vec![code("python", "a"), code("rust", "b"), code("python", "c")]);
    let out = page("T", &[], None, root, false);
    assert!(out.ends_with(&format!(
        "</div></div></div>{}Prism.languages.python={{}};Prism.languages.rust={{a:1<2}};\
         </script></body></html>",
        PRISM
    )));
    assert!(!out.contains("second"));
    assert!(!out.contains("katex"));
    assert!(!out.contains("mermaid"));
}

#[test]
fn a_language_without_a_script_adds_nothing() {
    let root = group(vec![code("brainfuck", "+"), code("rust", "b")]);
    let out = page("T", &[], None, root, false);
    assert!(out.ends_with(&format!(
        "</div></div></div>{}Prism.languages.rust={{a:1<2}};</script></body></html>",
        PRISM
    )));
    let only = page("T", &[], None, code("brainfuck", "+"), false);
    assert!(only.ends_with(&format!("</div></div></div>{}</script></body></html>", PRISM)));
}

#[test]
fn a_diagram_brings_its_block() {
    let out = page("T", &[], None, diagram("graph TD"), false);
    assert!(out.ends_with(&format!(
        "</div></div></div>{}<script>{}</script></body></html>",
        MERMAID, MERMAID_INIT
    )));
    assert!(!out.contains("katex"));
    assert!(!out.contains("Prism"));
}

#[test]
fn the_blocks_stand_in_a_fixed_order_after_the_body() {
    let root = group(vec![diagram("d"), code("rust", "c"), math("m", false)]);
    let out = page("T", &[], None, root, true);
    let body = out.find("class=\"mermaid\"").unwrap();
    let katex = out.find("var katex").unwrap();
    let prism = out.find("var Prism").unwrap();
    let mermaid = out.find("var mermaid").unwrap();
    assert!(body < katex);
    assert!(katex < prism);
    assert!(prism < mermaid);
    assert!(out.find("</head>").unwrap() < katex);
}

#[test]
fn the_statement_that_starts_the_diagrams() {
    assert_eq!(
        MERMAID_INIT,
        "mermaid.initialize({theme: window.matchMedia('(prefers-color-scheme: dark)').matches ? 'dark' : 'base'})"
    );
}

#[test]
fn the_same_document_gives_the_same_page() {
    let make = || {
        group(vec![
            heading(1, "a", "A", vec![paragraph("p"), math("x", true), code("rust", "y")]),
            diagram("z"),
        ])
    };
    let first = page("T", &["Ann", "Ben"], Some("MIT"), make(), true);
    let second = page("T", &["Ann", "Ben"], Some("MIT"), make(), true);
    assert_eq!(first, second);
}

#[test]
fn every_element_of_a_page_is_closed() {
    let root = group(vec![
        heading(1, "a", "A", vec![paragraph("p"), math("x", true), code("rust", "y")]),
        diagram("z"),
    ]);
    let out = page("T", &["Ann"], Some("MIT"), root, true);
    for name in ["html", "head", "body", "header", "title", "div", "p", "pre", "code", "a", "style", "script"] {
        let opens = out.matches(&format!("<{}>", name)).count() + out.matches(&format!("<{} ", name)).count();
        let closes = out.matches(&format!("</{}>", name)).count();
        assert_eq!(opens, closes, "{}", name);
    }
}

#[test]
fn the_first_script_of_a_language_is_taken() {
    let assets = assets();
    let mut out = String::from("x");
    assets.push_plugin_script(&mut out, &"rust".to_string());
    assert_eq!(out, "xPrism.languages.rust={a:1<2};");
    assets.push_plugin_script(&mut out, &"python".to_string());
    assert_eq!(out, "xPrism.languages.rust={a:1<2};Prism.languages.python={};");
}

#[test]
fn an_unknown_language_has_no_script() {
    let assets = assets();
    let mut out = String::from("x");
    assets.push_plugin_script(&mut out, &"cobol".to_string());
    assert_eq!(out, "x");
    assets.push_plugin_script(&mut out, &"Rust".to_string());
    assert_eq!(out, "x");
    assets.push_plugin_script(&mut out, &"".to_string());
    assert_eq!(out, "x");
}

#[test]
fn document_text_stays_text_everywhere() {
    let evil = "\"><script>alert('x')</script>";
    let root = group(vec![
        heading(1, evil, evil, vec![paragraph(evil)]),
        code(evil, evil),
        math(evil, false),
        diagram(evil),
        KnotsObject::Container { class: Some(evil.to_string()), children: vec![] },
    ]);
    let out = page(evil, &[evil], Some(evil), root, true);
    assert!(!out.contains("<script>alert"));
    assert!(!out.contains("alert('x')"));
    assert_eq!(out.matches("<script>").count(), 4);
    assert_eq!(out.matches("</script>").count(), 4);
}

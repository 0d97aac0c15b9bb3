//! The stylesheets, scripts and icons that a page carries within itself. The
//! renderer writes them into the page exactly as they are given.
use vstd::prelude::*;

verus! {

/// The script that teaches the highlighter one language.
pub struct PrismPlugin {
    pub language: String,
    pub script: String,
}

/// Everything that is built into a page.
pub struct Assets {
    /// The stylesheet that evens out the defaults of the browsers.
    pub normalize_css: String,
    /// The stylesheet of the page itself.
    pub style_css: String,
    /// The icon in front of the authors.
    pub profile_icon: String,
    /// The icon in front of the license.
    pub license_icon: String,
    /// The stylesheet of the typesetting of mathematics.
    pub katex_css: String,
    /// The script of the typesetting of mathematics.
    pub katex_js: String,
    /// The stylesheet of the highlighting of code.
    pub prism_css: String,
    /// The script of the highlighting of code.
    pub prism_js: String,
    /// The scripts of the languages that can be highlighted.
    pub prism_plugins: Vec<PrismPlugin>,
    /// The script of the drawing of diagrams.
    pub mermaid_js: String,
}

/// The view of a [`PrismPlugin`].
pub ghost struct Plugin {
    pub language: Seq<char>,
    pub script: Seq<char>,
}

/// The view of [`Assets`].
pub ghost struct Catalogue {
    pub normalize_css: Seq<char>,
    pub style_css: Seq<char>,
    pub profile_icon: Seq<char>,
    pub license_icon: Seq<char>,
    pub katex_css: Seq<char>,
    pub katex_js: Seq<char>,
    pub prism_css: Seq<char>,
    pub prism_js: Seq<char>,
    pub prism_plugins: Seq<Plugin>,
    pub mermaid_js: Seq<char>,
}

impl View for PrismPlugin {
    type V = Plugin;

    open spec fn view(&self) -> Plugin {
        Plugin { language: self.language@, script: self.script@ }
    }
}

/// The views of a sequence of plugins, one for one.
pub open spec fn plugins_of(plugins: Seq<PrismPlugin>) -> Seq<Plugin> {
    Seq::new(plugins.len(), |i: int| plugins[i]@)
}

impl View for Assets {
    type V = Catalogue;

    open spec fn view(&self) -> Catalogue {
        Catalogue {
            normalize_css: self.normalize_css@,
            style_css: self.style_css@,
            profile_icon: self.profile_icon@,
            license_icon: self.license_icon@,
            katex_css: self.katex_css@,
            katex_js: self.katex_js@,
            prism_css: self.prism_css@,
            prism_js: self.prism_js@,
            prism_plugins: plugins_of(self.prism_plugins@),
            mermaid_js: self.mermaid_js@,
        }
    }
}

/// The script of `language` among `plugins` from index `from` on: that of the
/// first plugin of this language, and nothing where there is none.
pub open spec fn plugin_script_from(plugins: Seq<Plugin>, language: Seq<char>, from: int) -> Seq<
    char,
>
    decreases plugins.len() - from,
{
    if 0 <= from < plugins.len() {
        if plugins[from].language == language {
            plugins[from].script
        } else {
            plugin_script_from(plugins, language, from + 1)
        }
    } else {
        Seq::empty()
    }
}

/// The script of `language` among `plugins`.
pub open spec fn plugin_script(plugins: Seq<Plugin>, language: Seq<char>) -> Seq<char> {
    plugin_script_from(plugins, language, 0)
}

/// The scripts of the languages of `languages`, in their order.
pub open spec fn plugin_scripts(plugins: Seq<Plugin>, languages: Seq<Seq<char>>) -> Seq<char>
    decreases languages.len(),
{
    if languages.len() == 0 {
        Seq::empty()
    } else {
        plugin_scripts(plugins, languages.drop_last()) + plugin_script(plugins, languages.last())
    }
}

impl Assets {
    /// Appends the script of `language` to `out`, if the catalogue has one.
    pub fn push_plugin_script(&self, out: &mut String, language: &String)
        ensures
            final(out)@ == old(out)@ + plugin_script(self@.prism_plugins, language@),
    {
        let ghost plugins = self@.prism_plugins;
        let mut i: usize = 0;
        while i < self.prism_plugins.len()
            invariant
                plugins == self@.prism_plugins,
                i <= self.prism_plugins.len(),
                out@ == old(out)@,
                plugin_script(plugins, language@) == plugin_script_from(
                    plugins,
                    language@,
                    i as int,
                ),
            decreases self.prism_plugins.len() - i,
        {
            if self.prism_plugins[i].language == *language {
                out.append(self.prism_plugins[i].script.as_str());
                return ;
            }
            i += 1;
        }
        proof {
            assert(out@ =~= old(out)@ + plugin_script(plugins, language@));
        }
    }
}

} // verus!

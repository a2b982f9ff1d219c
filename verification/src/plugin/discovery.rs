//! Plugin discovery: which packages are plugins, the metadata that a
//! plugin's composer.json yields, and the registry of discovered plugins.
//! Finding and reading the composer.json files is done by the caller.
use vstd::prelude::*;
use crate::path::{joined, join_chars, parent_chars, parent_of};
use crate::platform::Os;
use crate::plugin::api::{all_capabilities, clone_opt, opt_view, Author, PluginCapability, PluginMetadata};
use crate::plugin::config::{bind_value, bound_value, find_binding, lemma_last_binding, ConfigValue, PluginConfig};
use crate::text::{chars_of, owned, str_eq, string_of, Duplicate};

verus! {

/// Whether a package type is a plugin's: `composer-plugin` or
/// `libretto-plugin`.
pub open spec fn plugin_type(t: Seq<char>) -> bool {
    t == "composer-plugin"@ || t == "libretto-plugin"@
}

/// Whether a package is a plugin, from its type (`library` when absent).
pub fn is_plugin_package_type(package_type: Option<&str>) -> (r: bool)
    ensures
        r == plugin_type(match package_type {
            Some(t) => t@,
            None => "library"@,
        }),
{
    let lib = "library";
    let t = match package_type {
        Some(t) => t,
        None => lib,
    };
    str_eq(t, "composer-plugin") || str_eq(t, "libretto-plugin")
}

/// The capability a name in a plugin's `extra.capabilities` stands for.
pub open spec fn capability_named(name: Seq<char>) -> Option<PluginCapability> {
    if name == "install"@ {
        Some(PluginCapability::Install)
    } else if name == "resolve"@ {
        Some(PluginCapability::Resolve)
    } else if name == "command"@ {
        Some(PluginCapability::Command)
    } else if name == "event"@ {
        Some(PluginCapability::Event)
    } else if name == "repository"@ {
        Some(PluginCapability::Repository)
    } else if name == "autoload"@ {
        Some(PluginCapability::Autoload)
    } else if name == "download"@ {
        Some(PluginCapability::Download)
    } else if name == "source"@ {
        Some(PluginCapability::Source)
    } else if name == "script"@ {
        Some(PluginCapability::Script)
    } else {
        None
    }
}

/// The names of the capabilities in `extra.capabilities`, in the
/// declaration order of the capabilities.
pub open spec fn capability_names() -> Seq<Seq<char>> {
    seq![
        "install"@,
        "resolve"@,
        "command"@,
        "event"@,
        "repository"@,
        "autoload"@,
        "download"@,
        "source"@,
        "script"@,
    ]
}

/// Each capability is read from its own name, and only from it: the `i`th
/// name stands for the `i`th capability, no other text stands for any
/// capability, and two names that stand for one capability are the same.
pub proof fn lemma_capability_names(name: Seq<char>, other: Seq<char>)
    ensures
        forall|i: int| 0 <= i < 9 ==> capability_named(#[trigger] capability_names()[i]) == Some(all_capabilities()[i]),
        capability_named(name) is Some ==> capability_names().contains(name),
        capability_named(name) is Some && capability_named(name) == capability_named(other) ==> name == other,
{
    reveal_strlit("install");
    reveal_strlit("resolve");
    reveal_strlit("command");
    reveal_strlit("event");
    reveal_strlit("repository");
    reveal_strlit("autoload");
    reveal_strlit("download");
    reveal_strlit("source");
    reveal_strlit("script");
    assert("install"@.len() == 7);
    assert("resolve"@.len() == 7);
    assert("command"@.len() == 7);
    assert("event"@.len() == 5);
    assert("repository"@.len() == 10);
    assert("autoload"@.len() == 8);
    assert("download"@.len() == 8);
    assert("source"@.len() == 6);
    assert("script"@.len() == 6);
    assert("resolve"@ != "install"@) by { assert("resolve"@[0] != "install"@[0]); }
    assert("command"@ != "install"@) by { assert("command"@[0] != "install"@[0]); }
    assert("command"@ != "resolve"@) by { assert("command"@[0] != "resolve"@[0]); }
    assert("download"@ != "autoload"@) by { assert("download"@[0] != "autoload"@[0]); }
    assert("script"@ != "source"@) by { assert("script"@[1] != "source"@[1]); }
    let n = capability_names();
    assert forall|i: int| 0 <= i < 9 implies capability_named(#[trigger] n[i]) == Some(all_capabilities()[i]) by {
        if i == 0 {
            assert(n[0] == "install"@);
            assert(all_capabilities()[0] == PluginCapability::Install);
            assert(capability_named("install"@) == Some(PluginCapability::Install));
        } else if i == 1 {
            assert(n[1] == "resolve"@);
            assert(all_capabilities()[1] == PluginCapability::Resolve);
            assert(capability_named("resolve"@) == Some(PluginCapability::Resolve));
        } else if i == 2 {
            assert(n[2] == "command"@);
            assert(all_capabilities()[2] == PluginCapability::Command);
            assert(capability_named("command"@) == Some(PluginCapability::Command));
        } else if i == 3 {
            assert(n[3] == "event"@);
            assert(all_capabilities()[3] == PluginCapability::Event);
            assert(capability_named("event"@) == Some(PluginCapability::Event));
        } else if i == 4 {
            assert(n[4] == "repository"@);
            assert(all_capabilities()[4] == PluginCapability::Repository);
            assert(capability_named("repository"@) == Some(PluginCapability::Repository));
        } else if i == 5 {
            assert(n[5] == "autoload"@);
            assert(all_capabilities()[5] == PluginCapability::Autoload);
            assert(capability_named("autoload"@) == Some(PluginCapability::Autoload));
        } else if i == 6 {
            assert(n[6] == "download"@);
            assert(all_capabilities()[6] == PluginCapability::Download);
            assert(capability_named("download"@) == Some(PluginCapability::Download));
        } else if i == 7 {
            assert(n[7] == "source"@);
            assert(all_capabilities()[7] == PluginCapability::Source);
            assert(capability_named("source"@) == Some(PluginCapability::Source));
        } else if i == 8 {
            assert(n[8] == "script"@);
            assert(all_capabilities()[8] == PluginCapability::Script);
            assert(capability_named("script"@) == Some(PluginCapability::Script));
        }
    }
    if capability_named(name) is Some {
        if name == "install"@ {
            assert(n[0] == name);
        } else if name == "resolve"@ {
            assert(n[1] == name);
        } else if name == "command"@ {
            assert(n[2] == name);
        } else if name == "event"@ {
            assert(n[3] == name);
        } else if name == "repository"@ {
            assert(n[4] == name);
        } else if name == "autoload"@ {
            assert(n[5] == name);
        } else if name == "download"@ {
            assert(n[6] == name);
        } else if name == "source"@ {
            assert(n[7] == name);
        } else {
            assert(n[8] == name);
        }
    }
}

/// The capability a name stands for, if any.
pub fn capability_from_name(name: &str) -> (r: Option<PluginCapability>)
    ensures
        r == capability_named(name@),
{
    if str_eq(name, "install") {
        Some(PluginCapability::Install)
    } else if str_eq(name, "resolve") {
        Some(PluginCapability::Resolve)
    } else if str_eq(name, "command") {
        Some(PluginCapability::Command)
    } else if str_eq(name, "event") {
        Some(PluginCapability::Event)
    } else if str_eq(name, "repository") {
        Some(PluginCapability::Repository)
    } else if str_eq(name, "autoload") {
        Some(PluginCapability::Autoload)
    } else if str_eq(name, "download") {
        Some(PluginCapability::Download)
    } else if str_eq(name, "source") {
        Some(PluginCapability::Source)
    } else if str_eq(name, "script") {
        Some(PluginCapability::Script)
    } else {
        None
    }
}

/// The capabilities that a list of names stands for, in order, skipping
/// unknown names.
pub open spec fn capabilities_named(names: Seq<String>) -> Seq<PluginCapability>
    decreases names.len(),
{
    if names.len() == 0 {
        Seq::empty()
    } else {
        capabilities_named(names.drop_last()) + match capability_named(names.last()@) {
            Some(c) => seq![c],
            None => Seq::empty(),
        }
    }
}

/// An author entry of a composer.json.
#[derive(Debug, Clone, Default)]
pub struct ComposerAuthor {
    pub name: Option<String>,
    pub email: Option<String>,
    pub homepage: Option<String>,
}

/// The `extra` section of a plugin's composer.json.
#[derive(Debug, Clone, Default)]
pub struct ComposerExtra {
    pub class: Option<String>,
    pub plugin_api_version: Option<String>,
    pub capabilities: Option<Vec<String>>,
    pub config: Option<Vec<(String, ConfigValue)>>,
    pub require_libretto: Option<String>,
}

/// What discovery reads of a composer.json.
#[derive(Debug, Clone, Default)]
pub struct ComposerPackage {
    pub name: Option<String>,
    pub version: Option<String>,
    pub description: Option<String>,
    pub package_type: Option<String>,
    pub license: Option<String>,
    pub homepage: Option<String>,
    pub authors: Option<Vec<ComposerAuthor>>,
    pub extra: Option<ComposerExtra>,
    pub require: Vec<(String, String)>,
}

/// The text of an optional string, or `default` when it is absent.
pub open spec fn text_or(o: Option<String>, default: Seq<char>) -> Seq<char> {
    match o {
        Some(s) => s@,
        None => default,
    }
}

/// Whether `a` is the author entry `c` describes: its name (empty when
/// absent), email and homepage.
pub open spec fn author_from(c: ComposerAuthor, a: Author) -> bool {
    &&& a.name@ == text_or(c.name, Seq::empty())
    &&& opt_view(a.email) == opt_view(c.email)
    &&& opt_view(a.homepage) == opt_view(c.homepage)
}

fn or_text(o: &Option<String>, default: &str) -> (r: String)
    ensures
        r@ == text_or(*o, default@),
{
    match o {
        Some(s) => owned(s.as_str()),
        None => owned(default),
    }
}

fn capabilities_of(names: &Vec<String>) -> (r: Vec<PluginCapability>)
    ensures
        r@ == capabilities_named(names@),
{
    let mut out: Vec<PluginCapability> = Vec::new();
    let mut i: usize = 0;
    while i < names.len()
        invariant
            i <= names@.len(),
            out@ == capabilities_named(names@.subrange(0, i as int)),
        decreases names.len() - i,
    {
        assert(names@.subrange(0, i + 1).drop_last() =~= names@.subrange(0, i as int));
        assert(names@.subrange(0, i + 1).last() == names@[i as int]);
        match capability_from_name(names[i].as_str()) {
            Some(c) => {
                out.push(c);
            },
            None => {},
        }
        i = i + 1;
        assert(out@ =~= capabilities_named(names@.subrange(0, i as int)));
    }
    assert(names@.subrange(0, names@.len() as int) =~= names@);
    out
}

fn authors_of(list: &Vec<ComposerAuthor>) -> (r: Vec<Author>)
    ensures
        r@.len() == list@.len(),
        forall|i: int| 0 <= i < list@.len() ==> author_from(list@[i], #[trigger] r@[i]),
{
    let mut out: Vec<Author> = Vec::new();
    let mut i: usize = 0;
    while i < list.len()
        invariant
            i <= list@.len(),
            out@.len() == i,
            forall|k: int| 0 <= k < i ==> author_from(list@[k], #[trigger] out@[k]),
        decreases list.len() - i,
    {
        let c = &list[i];
        let empty = "";
        proof {
            reveal_strlit("");
        }
        assert(empty@ =~= Seq::<char>::empty());
        let a = Author { name: or_text(&c.name, empty), email: clone_opt(&c.email), homepage: clone_opt(&c.homepage) };
        assert(author_from(list@[i as int], a));
        out.push(a);
        i = i + 1;
    }
    out
}

/// The configuration a plugin's `extra.config` options give: those
/// options (with the same contents), enabled, with no timeout or sandbox
/// settings.
pub open spec fn config_from(options: Seq<(String, ConfigValue)>, c: PluginConfig) -> bool {
    &&& c.options@.len() == options.len()
    &&& forall|i: int| 0 <= i < options.len() ==> (#[trigger] c.options@[i]).deep_view() == options[i].deep_view()
    &&& c.enabled
    &&& c.timeout is None
    &&& c.sandbox is None
}

/// The metadata of a plugin from its composer.json, read at `path`: the
/// name (`unknown` when absent), version (`0.0.0`), description (empty),
/// the class, API version, capabilities, configuration and required
/// Libretto version of its `extra` section, its authors, license and
/// homepage, and the directory that holds the file.
pub fn extract_metadata(composer: &ComposerPackage, path: &str, os: &Os) -> (r: PluginMetadata)
    ensures
        r.name@ == text_or(composer.name, "unknown"@),
        r.version@ == text_or(composer.version, "0.0.0"@),
        r.description@ == text_or(composer.description, Seq::empty()),
        opt_view(r.class) == (match composer.extra {
            Some(e) => opt_view(e.class),
            None => None,
        }),
        opt_view(r.plugin_api_version) == (match composer.extra {
            Some(e) => opt_view(e.plugin_api_version),
            None => None,
        }),
        opt_view(r.require_libretto) == (match composer.extra {
            Some(e) => opt_view(e.require_libretto),
            None => None,
        }),
        r.capabilities@ == (match composer.extra {
            Some(e) => match e.capabilities {
                Some(names) => capabilities_named(names@),
                None => Seq::empty(),
            },
            None => Seq::empty(),
        }),
        match composer.extra {
            Some(e) => match e.config {
                Some(options) => r.config matches Some(c) && config_from(options@, c),
                None => r.config is None,
            },
            None => r.config is None,
        },
        match composer.authors {
            Some(list) => r.authors@.len() == list@.len() && forall|i: int|
                0 <= i < list@.len() ==> author_from(list@[i], #[trigger] r.authors@[i]),
            None => r.authors@.len() == 0,
        },
        opt_view(r.license) == opt_view(composer.license),
        opt_view(r.homepage) == opt_view(composer.homepage),
        opt_view(r.path) == parent_of(path@, *os),
{
    let (class, plugin_api_version, require_libretto, capabilities, config) = match &composer.extra {
        Some(e) => {
            let caps = match &e.capabilities {
                Some(names) => capabilities_of(names),
                None => Vec::new(),
            };
            let config = match &e.config {
                Some(options) => {
                    let copied = options.duplicate();
                    proof {
                        assert(copied.deep_view().len() == options.deep_view().len());
                        assert(copied@.len() == options@.len());
                        assert forall|i: int| 0 <= i < options@.len() implies (#[trigger] copied@[i]).deep_view()
                            == options@[i].deep_view() by {
                            assert(copied.deep_view()[i] == options.deep_view()[i]);
                            assert(copied.deep_view()[i] == copied@[i].deep_view());
                            assert(options.deep_view()[i] == options@[i].deep_view());
                        }
                    }
                    Some(PluginConfig { options: copied, enabled: true, timeout: None, sandbox: None })
                },
                None => None,
            };
            (clone_opt(&e.class), clone_opt(&e.plugin_api_version), clone_opt(&e.require_libretto), caps, config)
        },
        None => (None, None, None, Vec::new(), None),
    };
    let authors = match &composer.authors {
        Some(list) => authors_of(list),
        None => Vec::new(),
    };
    let p = chars_of(path);
    let parent = match parent_chars(p.as_slice(), os) {
        Some(d) => Some(string_of(d.as_slice())),
        None => None,
    };
    proof {
        reveal_strlit("unknown");
        reveal_strlit("0.0.0");
        reveal_strlit("");
    }
    PluginMetadata {
        name: or_text(&composer.name, "unknown"),
        version: or_text(&composer.version, "0.0.0"),
        description: or_text(&composer.description, ""),
        plugin_api_version,
        class,
        capabilities,
        path: parent,
        config,
        authors,
        license: clone_opt(&composer.license),
        homepage: clone_opt(&composer.homepage),
        require_libretto,
    }
}

/// The metadata of a package if it is a plugin (see `plugin_type`).
pub fn plugin_from_package(composer: &ComposerPackage, path: &str, os: &Os) -> (r: Option<PluginMetadata>)
    ensures
        plugin_type(text_or(composer.package_type, "library"@)) <==> r is Some,
        r matches Some(m) ==> m.name@ == text_or(composer.name, "unknown"@) && m.version@ == text_or(
            composer.version,
            "0.0.0"@,
        ) && opt_view(m.path) == parent_of(path@, *os),
{
    let t = match &composer.package_type {
        Some(s) => Some(s.as_str()),
        None => None,
    };
    if is_plugin_package_type(t) {
        Some(extract_metadata(composer, path, os))
    } else {
        None
    }
}

/// Where the composer.json of an installed package lies:
/// `<vendor>/<name>/composer.json`, with `unknown` for a package without a
/// name.
pub fn installed_package_path(vendor_path: &str, name: Option<&str>, os: &Os) -> (r: String)
    ensures
        r@ == joined(
            joined(vendor_path@, match name {
                Some(n) => n@,
                None => "unknown"@,
            }, *os),
            "composer.json"@,
            *os,
        ),
{
    let n = match name {
        Some(n) => n,
        None => "unknown",
    };
    let v = chars_of(vendor_path);
    let nc = chars_of(n);
    let dir = join_chars(v.as_slice(), nc.as_slice(), os);
    let f = chars_of("composer.json");
    let p = join_chars(dir.as_slice(), f.as_slice(), os);
    string_of(p.as_slice())
}

/// The plugins discovered so far, by the path of their composer.json.
#[derive(Debug)]
pub struct PluginDiscovery {
    discovered: Vec<(String, PluginMetadata)>,
}

/// The names of the discovered plugins, in order.
pub open spec fn discovered_names(entries: Seq<(String, PluginMetadata)>) -> Seq<Seq<char>> {
    entries.map_values(|e: (String, PluginMetadata)| e.1.name@)
}

impl PluginDiscovery {
    /// The discovered plugins with the paths they were found at.
    pub closed spec fn entries(&self) -> Seq<(String, PluginMetadata)> {
        self.discovered@
    }

    /// Nothing discovered yet.
    pub fn new() -> (r: Self)
        ensures
            r.entries().len() == 0,
    {
        PluginDiscovery { discovered: Vec::new() }
    }

    /// Record a plugin found at `path`, replacing what was recorded there.
    pub fn record(&mut self, path: &str, metadata: PluginMetadata)
        ensures
            bound_value(final(self).entries(), path@) == Some(metadata),
            forall|p: Seq<char>|
                p != path@ ==> bound_value(final(self).entries(), p) == bound_value(old(self).entries(), p),
    {
        bind_value(&mut self.discovered, path, metadata);
    }

    /// The plugin found at `path`.
    pub fn get(&self, path: &str) -> (r: Option<PluginMetadata>)
        ensures
            match bound_value(self.entries(), path@) {
                Some(m) => r matches Some(x) && x.deep_view() == m.deep_view(),
                None => r is None,
            },
    {
        proof {
            lemma_last_binding(self.discovered@, path@);
        }
        match find_binding(&self.discovered, path) {
            Some(i) => Some(self.discovered[i].1.duplicate()),
            None => None,
        }
    }

    /// Every discovered plugin.
    pub fn all(&self) -> (r: Vec<PluginMetadata>)
        ensures
            r@.len() == self.entries().len(),
            forall|i: int| 0 <= i < r@.len() ==> (#[trigger] r@[i]).deep_view() == self.entries()[i].1.deep_view(),
    {
        let mut out: Vec<PluginMetadata> = Vec::new();
        let mut i: usize = 0;
        while i < self.discovered.len()
            invariant
                i <= self.discovered@.len(),
                out@.len() == i,
                forall|k: int| 0 <= k < i ==> (#[trigger] out@[k]).deep_view() == self.discovered@[k].1.deep_view(),
            decreases self.discovered.len() - i,
        {
            out.push(self.discovered[i].1.duplicate());
            i = i + 1;
        }
        out
    }

    /// Forget every discovered plugin.
    pub fn clear_cache(&mut self)
        ensures
            final(self).entries().len() == 0,
    {
        self.discovered = Vec::new();
    }

    /// Position of the first plugin with the given name.
    fn first_named(&self, name: &str) -> (r: Option<usize>)
        ensures
            match r {
                Some(i) => i < self.entries().len() && self.entries()[i as int].1.name@ == name@ && forall|j: int|
                    0 <= j < i ==> #[trigger] self.entries()[j].1.name@ != name@,
                None => !discovered_names(self.entries()).contains(name@),
            },
    {
        let mut i: usize = 0;
        while i < self.discovered.len()
            invariant
                i <= self.discovered@.len(),
                forall|j: int| 0 <= j < i ==> #[trigger] self.discovered@[j].1.name@ != name@,
            decreases self.discovered.len() - i,
        {
            if str_eq(self.discovered[i].1.name.as_str(), name) {
                return Some(i);
            }
            i = i + 1;
        }
        proof {
            if discovered_names(self.entries()).contains(name@) {
                let k = choose|k: int|
                    0 <= k < discovered_names(self.entries()).len() && discovered_names(self.entries())[k]
                        == name@;
                assert(self.discovered@[k].1.name@ == name@);
            }
        }
        None
    }

    /// Whether a plugin with this name was discovered.
    pub fn is_discovered(&self, name: &str) -> (r: bool)
        ensures
            r == discovered_names(self.entries()).contains(name@),
    {
        match self.first_named(name) {
            Some(i) => {
                assert(discovered_names(self.entries())[i as int] == name@);
                true
            },
            None => false,
        }
    }

    /// The first discovered plugin with this name.
    pub fn find_by_name(&self, name: &str) -> (r: Option<PluginMetadata>)
        ensures
            match r {
                Some(m) => exists|i: int|
                    0 <= i < self.entries().len() && self.entries()[i].1.name@ == name@ && (forall|j: int|
                        0 <= j < i ==> #[trigger] self.entries()[j].1.name@ != name@)
                        && m.deep_view() == self.entries()[i].1.deep_view(),
                None => !discovered_names(self.entries()).contains(name@),
            },
    {
        match self.first_named(name) {
            Some(i) => Some(self.discovered[i].1.duplicate()),
            None => None,
        }
    }
}

impl Default for PluginDiscovery {
    fn default() -> (r: Self)
        ensures
            r.entries().len() == 0,
    {
        Self::new()
    }
}

} // verus!

//! Plugin API definitions: plugin kinds and capabilities, the information a
//! plugin reports about itself, the results of its event handlers and the
//! commands it offers.
use vstd::prelude::*;
use crate::permissions::has_bits;
use crate::plugin::hooks::Hook;
use crate::process::{env_get, env_insert, env_lookup, env_set, env_views};
use crate::text::{owned, Duplicate};
use crate::plugin::error::PluginError;
use crate::plugin::config::{bind_value, bound_value, find_binding, lemma_last_binding, PluginConfig, PluginConfigView};
use crate::plugin::event_bus::{
    accepted_count, bounded_push, offer, stats_after_publish, EventBus, EventBusView, EventMessage,
    EventSubscription, SubscriberView, HISTORY_LIMIT,
};

verus! {

/// Plugin type identifier.
#[derive(Debug, Clone, Copy, PartialEq, Eq, Structural, Hash)]
pub enum PluginType {
    /// Native Rust plugin (.so/.dll/.dylib).
    Native,
    /// PHP plugin (Composer-compatible).
    Php,
}

/// Plugin capability flags.
#[derive(Debug, Clone, Copy, PartialEq, Eq, Structural, Hash)]
pub enum PluginCapability {
    /// Can modify installation behavior.
    Install,
    /// Can modify dependency resolution.
    Resolve,
    /// Can provide custom commands.
    Command,
    /// Can hook into events.
    Event,
    /// Can provide custom repository types.
    Repository,
    /// Can modify autoloader generation.
    Autoload,
    /// Can modify downloads.
    Download,
    /// Can modify package sources.
    Source,
    /// Can modify scripts.
    Script,
}

/// Every capability, in declaration order.
pub open spec fn all_capabilities() -> Seq<PluginCapability> {
    seq![
        PluginCapability::Install,
        PluginCapability::Resolve,
        PluginCapability::Command,
        PluginCapability::Event,
        PluginCapability::Repository,
        PluginCapability::Autoload,
        PluginCapability::Download,
        PluginCapability::Source,
        PluginCapability::Script,
    ]
}

/// The hooks a capability lets a plugin use; commands and repositories use
/// none of the standard hooks.
pub open spec fn hooks_of(c: PluginCapability) -> Option<Seq<Hook>> {
    match c {
        PluginCapability::Install => Some(
            seq![
                Hook::PreInstallCmd,
                Hook::PostInstallCmd,
                Hook::PrePackageInstall,
                Hook::PostPackageInstall,
                Hook::PrePackageUninstall,
                Hook::PostPackageUninstall,
            ],
        ),
        PluginCapability::Resolve => Some(
            seq![Hook::PreDependenciesSolving, Hook::PostDependenciesSolving],
        ),
        PluginCapability::Event => Some(
            seq![
                Hook::PreInstallCmd,
                Hook::PostInstallCmd,
                Hook::PreUpdateCmd,
                Hook::PostUpdateCmd,
                Hook::PreAutoloadDump,
                Hook::PostAutoloadDump,
            ],
        ),
        PluginCapability::Autoload => Some(seq![Hook::PreAutoloadDump, Hook::PostAutoloadDump]),
        PluginCapability::Download => Some(seq![Hook::PreFileDownload]),
        PluginCapability::Command => None,
        PluginCapability::Repository => None,
        PluginCapability::Source => Some(seq![Hook::PrePackageInstall, Hook::PostPackageInstall]),
        PluginCapability::Script => Some(
            seq![
                Hook::PreInstallCmd,
                Hook::PostInstallCmd,
                Hook::PreUpdateCmd,
                Hook::PostUpdateCmd,
            ],
        ),
    }
}

/// The bit that stands for a capability in a capability mask.
pub open spec fn cap_bit(c: PluginCapability) -> u32 {
    match c {
        PluginCapability::Install => 0x01,
        PluginCapability::Resolve => 0x02,
        PluginCapability::Command => 0x04,
        PluginCapability::Event => 0x08,
        PluginCapability::Repository => 0x10,
        PluginCapability::Autoload => 0x20,
        PluginCapability::Download => 0x40,
        PluginCapability::Source => 0x80,
        PluginCapability::Script => 0x100,
    }
}

/// The capabilities whose bits are set in a mask, in declaration order.
pub open spec fn caps_in_mask(mask: u32, upto: int) -> Seq<PluginCapability>
    decreases upto,
{
    if upto <= 0 {
        Seq::empty()
    } else {
        let c = all_capabilities()[upto - 1];
        let rest = caps_in_mask(mask, upto - 1);
        if has_bits(mask, cap_bit(c)) {
            rest.push(c)
        } else {
            rest
        }
    }
}

/// The capabilities named by a mask.
pub open spec fn caps_of_mask(mask: u32) -> Seq<PluginCapability> {
    caps_in_mask(mask, 9)
}

/// The mask of a list of capabilities: the union of their bits.
pub open spec fn mask_of_caps(caps: Seq<PluginCapability>) -> u32
    decreases caps.len(),
{
    if caps.len() == 0 {
        0
    } else {
        mask_of_caps(caps.drop_last()) | cap_bit(caps.last())
    }
}

impl PluginCapability {
    /// Get the hooks supported by this capability.
    pub fn supported_hooks(&self) -> (r: Option<Vec<Hook>>)
        ensures
            match r {
                Some(v) => hooks_of(*self) == Some(v@),
                None => hooks_of(*self) is None,
            },
    {
        match self {
            PluginCapability::Install => {
                let v = vec![
                    Hook::PreInstallCmd,
                    Hook::PostInstallCmd,
                    Hook::PrePackageInstall,
                    Hook::PostPackageInstall,
                    Hook::PrePackageUninstall,
                    Hook::PostPackageUninstall,
                ];
                assert(Some(v@) == hooks_of(*self));
                Some(v)
            },
            PluginCapability::Resolve => {
                let v = vec![Hook::PreDependenciesSolving, Hook::PostDependenciesSolving];
                assert(Some(v@) == hooks_of(*self));
                Some(v)
            },
            PluginCapability::Event => {
                let v = vec![
                    Hook::PreInstallCmd,
                    Hook::PostInstallCmd,
                    Hook::PreUpdateCmd,
                    Hook::PostUpdateCmd,
                    Hook::PreAutoloadDump,
                    Hook::PostAutoloadDump,
                ];
                assert(Some(v@) == hooks_of(*self));
                Some(v)
            },
            PluginCapability::Autoload => {
                let v = vec![Hook::PreAutoloadDump, Hook::PostAutoloadDump];
                assert(Some(v@) == hooks_of(*self));
                Some(v)
            },
            PluginCapability::Download => {
                let v = vec![Hook::PreFileDownload];
                assert(Some(v@) == hooks_of(*self));
                Some(v)
            },
            PluginCapability::Command => None,
            PluginCapability::Repository => None,
            PluginCapability::Source => {
                let v = vec![Hook::PrePackageInstall, Hook::PostPackageInstall];
                assert(Some(v@) == hooks_of(*self));
                Some(v)
            },
            PluginCapability::Script => {
                let v = vec![
                    Hook::PreInstallCmd,
                    Hook::PostInstallCmd,
                    Hook::PreUpdateCmd,
                    Hook::PostUpdateCmd,
                ];
                assert(Some(v@) == hooks_of(*self));
                Some(v)
            },
        }
    }

    /// Get all capabilities.
    pub fn all() -> (r: Vec<Self>)
        ensures
            r@ == all_capabilities(),
    {
        let v = vec![
            PluginCapability::Install,
            PluginCapability::Resolve,
            PluginCapability::Command,
            PluginCapability::Event,
            PluginCapability::Repository,
            PluginCapability::Autoload,
            PluginCapability::Download,
            PluginCapability::Source,
            PluginCapability::Script,
        ];
        assert(v@ =~= all_capabilities());
        v
    }

    /// The bit of this capability in a capability mask.
    pub fn bit(&self) -> (r: u32)
        ensures
            r == cap_bit(*self),
    {
        match self {
            PluginCapability::Install => 0x01,
            PluginCapability::Resolve => 0x02,
            PluginCapability::Command => 0x04,
            PluginCapability::Event => 0x08,
            PluginCapability::Repository => 0x10,
            PluginCapability::Autoload => 0x20,
            PluginCapability::Download => 0x40,
            PluginCapability::Source => 0x80,
            PluginCapability::Script => 0x100,
        }
    }
}

/// Every capability occurs in the list of all capabilities.
pub proof fn lemma_all_capabilities(c: PluginCapability)
    ensures
        all_capabilities().contains(c),
{
    let all = all_capabilities();
    match c {
        PluginCapability::Install => assert(all[0] == c),
        PluginCapability::Resolve => assert(all[1] == c),
        PluginCapability::Command => assert(all[2] == c),
        PluginCapability::Event => assert(all[3] == c),
        PluginCapability::Repository => assert(all[4] == c),
        PluginCapability::Autoload => assert(all[5] == c),
        PluginCapability::Download => assert(all[6] == c),
        PluginCapability::Source => assert(all[7] == c),
        PluginCapability::Script => assert(all[8] == c),
    }
}

proof fn lemma_bits_distinct(x: u32, y: u32)
    by (bit_vector)
    requires
        x == 0x01 || x == 0x02 || x == 0x04 || x == 0x08 || x == 0x10 || x == 0x20 || x == 0x40
            || x == 0x80 || x == 0x100,
        y == 0x01 || y == 0x02 || y == 0x04 || y == 0x08 || y == 0x10 || y == 0x20 || y == 0x40
            || y == 0x80 || y == 0x100,
    ensures
        (x & y != 0) == (x == y),
{
}

proof fn lemma_or_bit(a: u32, b: u32, m: u32)
    by (bit_vector)
    ensures
        ((a | b) & m != 0) == ((a & m != 0) || (b & m != 0)),
        (0u32 & m) == 0,
{
}

proof fn lemma_cap_bit_injective(c: PluginCapability, d: PluginCapability)
    ensures
        has_bits(cap_bit(d), cap_bit(c)) == (c == d),
{
    lemma_bits_distinct(cap_bit(d), cap_bit(c));
}

/// A capability is in the list read from a mask exactly when its bit is
/// set in the mask.
pub proof fn lemma_caps_in_mask(mask: u32, upto: int, c: PluginCapability)
    requires
        0 <= upto <= 9,
    ensures
        caps_in_mask(mask, upto).contains(c) == (has_bits(mask, cap_bit(c)) && exists|i: int|
            0 <= i < upto && all_capabilities()[i] == c),
    decreases upto,
{
    if upto > 0 {
        lemma_caps_in_mask(mask, upto - 1, c);
        let d = all_capabilities()[upto - 1];
        let rest = caps_in_mask(mask, upto - 1);
        if has_bits(mask, cap_bit(d)) {
            assert(rest.push(d).contains(c) == (rest.contains(c) || d == c)) by {
                if rest.push(d).contains(c) {
                    let k = choose|k: int| 0 <= k < rest.push(d).len() && rest.push(d)[k] == c;
                    if k < rest.len() {
                        assert(rest[k] == c);
                    }
                }
                if rest.contains(c) {
                    let k = choose|k: int| 0 <= k < rest.len() && rest[k] == c;
                    assert(rest.push(d)[k] == c);
                }
                if d == c {
                    assert(rest.push(d)[rest.len() as int] == c);
                }
            }
        }
        if exists|i: int| 0 <= i < upto && all_capabilities()[i] == c {
            let i = choose|i: int| 0 <= i < upto && all_capabilities()[i] == c;
            if i < upto - 1 {
                assert(exists|j: int| 0 <= j < upto - 1 && all_capabilities()[j] == c);
            }
        }
        if exists|i: int| 0 <= i < upto - 1 && all_capabilities()[i] == c {
            let i = choose|i: int| 0 <= i < upto - 1 && all_capabilities()[i] == c;
            assert(0 <= i < upto && all_capabilities()[i] == c);
        }
        if d == c {
            assert(0 <= upto - 1 < upto && all_capabilities()[upto - 1] == c);
        }
    }
}

/// A capability's bit is set in the mask of a list exactly when the
/// capability is in the list.
pub proof fn lemma_mask_of_caps(caps: Seq<PluginCapability>, c: PluginCapability)
    ensures
        has_bits(mask_of_caps(caps), cap_bit(c)) == caps.contains(c),
    decreases caps.len(),
{
    if caps.len() == 0 {
        lemma_or_bit(0, 0, cap_bit(c));
    } else {
        let init = caps.drop_last();
        lemma_mask_of_caps(init, c);
        lemma_or_bit(mask_of_caps(init), cap_bit(caps.last()), cap_bit(c));
        lemma_cap_bit_injective(c, caps.last());
        assert(caps =~= init.push(caps.last()));
        if caps.contains(c) {
            let k = choose|k: int| 0 <= k < caps.len() && caps[k] == c;
            if k < init.len() {
                assert(init[k] == c);
            }
        }
        if init.contains(c) {
            let k = choose|k: int| 0 <= k < init.len() && init[k] == c;
            assert(caps[k] == c);
        }
    }
}

/// The bits of the first `k` capabilities.
pub open spec fn prefix_mask(k: int) -> u32 {
    if k <= 0 {
        0
    } else if k == 1 {
        0x1
    } else if k == 2 {
        0x3
    } else if k == 3 {
        0x7
    } else if k == 4 {
        0xF
    } else if k == 5 {
        0x1F
    } else if k == 6 {
        0x3F
    } else if k == 7 {
        0x7F
    } else if k == 8 {
        0xFF
    } else {
        0x1FF
    }
}

proof fn lemma_mask_step(m: u32, b: u32, p0: u32, p1: u32, j: u32)
    by (bit_vector)
    requires
        j < 32,
        b == 1u32 << j,
        p1 == p0 | b,
        p0 & b == 0,
    ensures
        m & b != 0 ==> (m & p0) | b == m & p1,
        m & b == 0 ==> m & p0 == m & p1,
{
}

proof fn lemma_prefix_facts(k: int)
    requires
        1 <= k <= 9,
    ensures
        prefix_mask(k) == prefix_mask(k - 1) | cap_bit(all_capabilities()[k - 1]),
        prefix_mask(k - 1) & cap_bit(all_capabilities()[k - 1]) == 0,
        cap_bit(all_capabilities()[k - 1]) == 1u32 << ((k - 1) as u32),
{
    if k == 1 {
        assert(0x1u32 == 0u32 | 0x1u32 && 0u32 & 0x1u32 == 0 && 0x1u32 == 1u32 << 0u32) by (bit_vector);
    } else if k == 2 {
        assert(0x3u32 == 0x1u32 | 0x2u32 && 0x1u32 & 0x2u32 == 0 && 0x2u32 == 1u32 << 1u32) by (bit_vector);
    } else if k == 3 {
        assert(0x7u32 == 0x3u32 | 0x4u32 && 0x3u32 & 0x4u32 == 0 && 0x4u32 == 1u32 << 2u32) by (bit_vector);
    } else if k == 4 {
        assert(0xFu32 == 0x7u32 | 0x8u32 && 0x7u32 & 0x8u32 == 0 && 0x8u32 == 1u32 << 3u32) by (bit_vector);
    } else if k == 5 {
        assert(0x1Fu32 == 0xFu32 | 0x10u32 && 0xFu32 & 0x10u32 == 0 && 0x10u32 == 1u32 << 4u32) by (bit_vector);
    } else if k == 6 {
        assert(0x3Fu32 == 0x1Fu32 | 0x20u32 && 0x1Fu32 & 0x20u32 == 0 && 0x20u32 == 1u32 << 5u32) by (bit_vector);
    } else if k == 7 {
        assert(0x7Fu32 == 0x3Fu32 | 0x40u32 && 0x3Fu32 & 0x40u32 == 0 && 0x40u32 == 1u32 << 6u32) by (bit_vector);
    } else if k == 8 {
        assert(0xFFu32 == 0x7Fu32 | 0x80u32 && 0x7Fu32 & 0x80u32 == 0 && 0x80u32 == 1u32 << 7u32) by (bit_vector);
    } else {
        assert(0x1FFu32 == 0xFFu32 | 0x100u32 && 0xFFu32 & 0x100u32 == 0 && 0x100u32 == 1u32 << 8u32) by (bit_vector);
    }
}

proof fn lemma_mask_of_caps_in_mask(m: u32, k: int)
    requires
        0 <= k <= 9,
    ensures
        mask_of_caps(caps_in_mask(m, k)) == m & prefix_mask(k),
        caps_in_mask(m, k).no_duplicates(),
    decreases k,
{
    if k == 0 {
        assert(m & 0u32 == 0) by (bit_vector);
    } else {
        lemma_mask_of_caps_in_mask(m, k - 1);
        lemma_prefix_facts(k);
        let c = all_capabilities()[k - 1];
        let rest = caps_in_mask(m, k - 1);
        lemma_mask_step(m, cap_bit(c), prefix_mask(k - 1), prefix_mask(k), (k - 1) as u32);
        if has_bits(m, cap_bit(c)) {
            assert(rest.push(c).drop_last() =~= rest);
            lemma_caps_in_mask(m, k - 1, c);
            if rest.contains(c) {
                let i = choose|i: int| 0 <= i < k - 1 && all_capabilities()[i] == c;
                assert(all_capabilities()[i] != all_capabilities()[k - 1]);
            }
            assert forall|i: int, j: int|
                0 <= i < rest.push(c).len() && 0 <= j < rest.push(c).len() && i != j implies rest.push(c)[i]
                != rest.push(c)[j] by {
                if i == rest.len() as int {
                    assert(rest.contains(rest[j]));
                } else if j == rest.len() as int {
                    assert(rest.contains(rest[i]));
                }
            }
        }
    }
}

/// Reading a mask as capabilities and writing them back keeps exactly the
/// nine capability bits of the mask; and the capabilities read from any
/// mask, in particular from the mask of a list, hold each capability at
/// most once, in declaration order.
pub proof fn lemma_bitmask_exact(mask: u32, caps: Seq<PluginCapability>)
    ensures
        mask_of_caps(caps_of_mask(mask)) == mask & 0x1FF,
        caps_of_mask(mask).no_duplicates(),
        caps_of_mask(mask_of_caps(caps)).no_duplicates(),
{
    lemma_mask_of_caps_in_mask(mask, 9);
    lemma_mask_of_caps_in_mask(mask_of_caps(caps), 9);
}

/// Capability masks and capability lists carry the same information: a
/// capability is in the list read from a mask exactly when its bit is set,
/// and the mask of a list has a capability's bit exactly when the list
/// holds the capability. So writing a list as a mask and reading it back
/// keeps exactly the capabilities of the list.
pub proof fn lemma_bitmask_roundtrip(caps: Seq<PluginCapability>, mask: u32, c: PluginCapability)
    ensures
        caps_of_mask(mask).contains(c) == has_bits(mask, cap_bit(c)),
        has_bits(mask_of_caps(caps), cap_bit(c)) == caps.contains(c),
        caps_of_mask(mask_of_caps(caps)).contains(c) == caps.contains(c),
{
    lemma_all_capabilities(c);
    lemma_caps_in_mask(mask, 9, c);
    lemma_caps_in_mask(mask_of_caps(caps), 9, c);
    lemma_mask_of_caps(caps, c);
    let i = choose|i: int| 0 <= i < all_capabilities().len() && all_capabilities()[i] == c;
    assert(0 <= i < 9 && all_capabilities()[i] == c);
}

/// Convert capability bitmask to vector, in declaration order.
pub fn capabilities_from_bitmask(mask: u32) -> (r: Vec<PluginCapability>)
    ensures
        r@ == caps_of_mask(mask),
{
    let all = PluginCapability::all();
    let mut caps: Vec<PluginCapability> = Vec::new();
    let mut i: usize = 0;
    while i < all.len()
        invariant
            all@ == all_capabilities(),
            i <= all@.len(),
            caps@ == caps_in_mask(mask, i as int),
        decreases all.len() - i,
    {
        let c = all[i];
        if mask & c.bit() != 0 {
            caps.push(c);
        }
        i = i + 1;
    }
    caps
}

/// Convert capabilities to bitmask.
pub fn capabilities_to_bitmask(caps: &[PluginCapability]) -> (r: u32)
    ensures
        r == mask_of_caps(caps@),
{
    let mut mask: u32 = 0;
    let mut i: usize = 0;
    while i < caps.len()
        invariant
            i <= caps@.len(),
            mask == mask_of_caps(caps@.subrange(0, i as int)),
        decreases caps.len() - i,
    {
        let ghost pre = caps@.subrange(0, i as int);
        mask = mask | caps[i].bit();
        i = i + 1;
        assert(caps@.subrange(0, i as int).drop_last() =~= pre);
    }
    assert(caps@.subrange(0, caps@.len() as int) =~= caps@);
    mask
}

/// Author information.
#[derive(Debug, Clone, Default)]
pub struct Author {
    /// Author name.
    pub name: String,
    /// Author email.
    pub email: Option<String>,
    /// Author homepage.
    pub homepage: Option<String>,
}

/// Plugin information returned by plugins at runtime.
#[derive(Debug, Clone)]
pub struct PluginInfo {
    /// Plugin name.
    pub name: String,
    /// Plugin version.
    pub version: String,
    /// Description.
    pub description: String,
    /// API version this plugin targets.
    pub api_version: Option<String>,
    /// Plugin capabilities.
    pub capabilities: Vec<PluginCapability>,
    /// Hook priority (lower = earlier execution).
    pub priority: Option<i32>,
}

/// Plugin metadata parsed from composer.json or a plugin manifest.
#[derive(Debug, Clone, Default)]
pub struct PluginMetadata {
    /// Plugin name (vendor/name format).
    pub name: String,
    /// Plugin version.
    pub version: String,
    /// Description.
    pub description: String,
    /// Required plugin API version (e.g., "^2.0").
    pub plugin_api_version: Option<String>,
    /// PHP plugin class name (for Composer compatibility).
    pub class: Option<String>,
    /// Plugin capabilities.
    pub capabilities: Vec<PluginCapability>,
    /// Path to the plugin (directory or library file).
    pub path: Option<String>,
    /// Plugin configuration.
    pub config: Option<PluginConfig>,
    /// Authors.
    pub authors: Vec<Author>,
    /// License.
    pub license: Option<String>,
    /// Homepage URL.
    pub homepage: Option<String>,
    /// Required Libretto version.
    pub require_libretto: Option<String>,
}

impl DeepView for PluginCapability {
    type V = PluginCapability;

    open spec fn deep_view(&self) -> PluginCapability {
        *self
    }
}

impl Duplicate for PluginCapability {
    fn duplicate(&self) -> (r: Self) {
        *self
    }
}

impl DeepView for Author {
    type V = (Seq<char>, Option<Seq<char>>, Option<Seq<char>>);

    open spec fn deep_view(&self) -> Self::V {
        (self.name@, self.email.deep_view(), self.homepage.deep_view())
    }
}

impl Duplicate for Author {
    fn duplicate(&self) -> (r: Self) {
        Author { name: owned(self.name.as_str()), email: self.email.duplicate(), homepage: self.homepage.duplicate() }
    }
}

/// The contents of plugin metadata.
pub ghost struct MetadataView {
    pub name: Seq<char>,
    pub version: Seq<char>,
    pub description: Seq<char>,
    pub plugin_api_version: Option<Seq<char>>,
    pub class: Option<Seq<char>>,
    pub capabilities: Seq<PluginCapability>,
    pub path: Option<Seq<char>>,
    pub config: Option<PluginConfigView>,
    pub authors: Seq<(Seq<char>, Option<Seq<char>>, Option<Seq<char>>)>,
    pub license: Option<Seq<char>>,
    pub homepage: Option<Seq<char>>,
    pub require_libretto: Option<Seq<char>>,
}

impl DeepView for PluginMetadata {
    type V = MetadataView;

    open spec fn deep_view(&self) -> MetadataView {
        MetadataView {
            name: self.name@,
            version: self.version@,
            description: self.description@,
            plugin_api_version: self.plugin_api_version.deep_view(),
            class: self.class.deep_view(),
            capabilities: self.capabilities.deep_view(),
            path: self.path.deep_view(),
            config: self.config.deep_view(),
            authors: self.authors.deep_view(),
            license: self.license.deep_view(),
            homepage: self.homepage.deep_view(),
            require_libretto: self.require_libretto.deep_view(),
        }
    }
}

impl Duplicate for PluginMetadata {
    fn duplicate(&self) -> (r: Self) {
        PluginMetadata {
            name: owned(self.name.as_str()),
            version: owned(self.version.as_str()),
            description: owned(self.description.as_str()),
            plugin_api_version: self.plugin_api_version.duplicate(),
            class: self.class.duplicate(),
            capabilities: self.capabilities.duplicate(),
            path: self.path.duplicate(),
            config: self.config.duplicate(),
            authors: self.authors.duplicate(),
            license: self.license.duplicate(),
            homepage: self.homepage.duplicate(),
            require_libretto: self.require_libretto.duplicate(),
        }
    }
}

/// The text, or the empty text where there is none.
pub open spec fn text_or_empty(t: Option<Seq<char>>) -> Seq<char> {
    match t {
        Some(s) => s,
        None => Seq::empty(),
    }
}

/// The text of an optional string.
pub open spec fn opt_view(o: Option<String>) -> Option<Seq<char>> {
    match o {
        Some(s) => Some(s@),
        None => None,
    }
}

pub(crate) fn clone_opt(o: &Option<String>) -> (r: Option<String>)
    ensures
        opt_view(r) == opt_view(*o),
{
    match o {
        Some(s) => Some(owned(s.as_str())),
        None => None,
    }
}

fn clone_caps(v: &Vec<PluginCapability>) -> (r: Vec<PluginCapability>)
    ensures
        r@ == v@,
{
    let mut out: Vec<PluginCapability> = Vec::new();
    let mut i: usize = 0;
    while i < v.len()
        invariant
            i <= v@.len(),
            out@ == v@.subrange(0, i as int),
        decreases v.len() - i,
    {
        out.push(v[i]);
        i = i + 1;
        assert(out@ =~= v@.subrange(0, i as int));
    }
    assert(v@.subrange(0, v@.len() as int) =~= v@);
    out
}

impl PluginMetadata {
    /// Create metadata from plugin info: name, version, description, API
    /// version and capabilities are taken over, everything else is empty.
    pub fn from_info(info: &PluginInfo) -> (r: Self)
        ensures
            r.name@ == info.name@,
            r.version@ == info.version@,
            r.description@ == info.description@,
            opt_view(r.plugin_api_version) == opt_view(info.api_version),
            r.capabilities@ == info.capabilities@,
            r.class is None,
            r.path is None,
            r.config is None,
            r.authors@.len() == 0,
            r.license is None,
            r.homepage is None,
            r.require_libretto is None,
    {
        PluginMetadata {
            name: owned(info.name.as_str()),
            version: owned(info.version.as_str()),
            description: owned(info.description.as_str()),
            plugin_api_version: clone_opt(&info.api_version),
            class: None,
            capabilities: clone_caps(&info.capabilities),
            path: None,
            config: None,
            authors: Vec::new(),
            license: None,
            homepage: None,
            require_libretto: None,
        }
    }
}

impl PluginInfo {
    /// The information a native plugin reports through its C record: each
    /// text is `None` where the plugin gave a null pointer, and a missing
    /// name, version or description reads as empty.
    pub fn from_ffi_fields(
        name: Option<String>,
        version: Option<String>,
        description: Option<String>,
        api_version: Option<String>,
        capabilities: u32,
        priority: i32,
    ) -> (r: PluginInfo)
        ensures
            r.view_of() == (PluginInfoView {
                name: text_or_empty(opt_view(name)),
                version: text_or_empty(opt_view(version)),
                description: text_or_empty(opt_view(description)),
                api_version: opt_view(api_version),
                capabilities: caps_of_mask(capabilities),
                priority: Some(priority),
            }),
    {
        PluginInfo {
            name: match name {
                Some(s) => s,
                None => String::new(),
            },
            version: match version {
                Some(s) => s,
                None => String::new(),
            },
            description: match description {
                Some(s) => s,
                None => String::new(),
            },
            api_version,
            capabilities: capabilities_from_bitmask(capabilities),
            priority: Some(priority),
        }
    }

    /// Create a new plugin info builder.
    pub fn builder(name: &str, version: &str) -> (r: PluginInfoBuilder)
        ensures
            r.view_of() == (PluginInfoView {
                name: name@,
                version: version@,
                description: Seq::empty(),
                api_version: None,
                capabilities: Seq::empty(),
                priority: None,
            }),
    {
        PluginInfoBuilder::new(name, version)
    }

    /// The contents of the information.
    pub open spec fn view_of(&self) -> PluginInfoView {
        PluginInfoView {
            name: self.name@,
            version: self.version@,
            description: self.description@,
            api_version: opt_view(self.api_version),
            capabilities: self.capabilities@,
            priority: self.priority,
        }
    }
}

/// The contents of plugin information, as values.
pub ghost struct PluginInfoView {
    pub name: Seq<char>,
    pub version: Seq<char>,
    pub description: Seq<char>,
    pub api_version: Option<Seq<char>>,
    pub capabilities: Seq<PluginCapability>,
    pub priority: Option<i32>,
}

/// Builder for `PluginInfo`.
#[derive(Debug)]
pub struct PluginInfoBuilder {
    name: String,
    version: String,
    description: String,
    api_version: Option<String>,
    capabilities: Vec<PluginCapability>,
    priority: Option<i32>,
}

impl PluginInfoBuilder {
    /// What the builder will build.
    pub closed spec fn view_of(&self) -> PluginInfoView {
        PluginInfoView {
            name: self.name@,
            version: self.version@,
            description: self.description@,
            api_version: opt_view(self.api_version),
            capabilities: self.capabilities@,
            priority: self.priority,
        }
    }

    /// Create a new builder.
    pub fn new(name: &str, version: &str) -> (r: Self)
        ensures
            r.view_of() == (PluginInfoView {
                name: name@,
                version: version@,
                description: Seq::empty(),
                api_version: None,
                capabilities: Seq::empty(),
                priority: None,
            }),
    {
        let r = PluginInfoBuilder {
            name: owned(name),
            version: owned(version),
            description: String::new(),
            api_version: None,
            capabilities: Vec::new(),
            priority: None,
        };
        assert(r.view_of().description =~= Seq::<char>::empty());
        assert(r.view_of().capabilities =~= Seq::<PluginCapability>::empty());
        r
    }

    /// Set description.
    pub fn description(self, description: &str) -> (r: Self)
        ensures
            r.view_of() == (PluginInfoView { description: description@, ..self.view_of() }),
    {
        let mut b = self;
        b.description = owned(description);
        b
    }

    /// Set API version.
    pub fn api_version(self, version: &str) -> (r: Self)
        ensures
            r.view_of() == (PluginInfoView { api_version: Some(version@), ..self.view_of() }),
    {
        let mut b = self;
        b.api_version = Some(owned(version));
        b
    }

    /// Add a capability.
    pub fn capability(self, capability: PluginCapability) -> (r: Self)
        ensures
            r.view_of() == (PluginInfoView {
                capabilities: self.view_of().capabilities.push(capability),
                ..self.view_of()
            }),
    {
        let mut b = self;
        b.capabilities.push(capability);
        b
    }

    /// Set capabilities.
    pub fn capabilities(self, capabilities: Vec<PluginCapability>) -> (r: Self)
        ensures
            r.view_of() == (PluginInfoView { capabilities: capabilities@, ..self.view_of() }),
    {
        let mut b = self;
        b.capabilities = capabilities;
        b
    }

    /// Set priority.
    pub fn priority(self, priority: i32) -> (r: Self)
        ensures
            r.view_of() == (PluginInfoView { priority: Some(priority), ..self.view_of() }),
    {
        let mut b = self;
        b.priority = Some(priority);
        b
    }

    /// Build the plugin info.
    pub fn build(self) -> (r: PluginInfo)
        ensures
            r.view_of() == self.view_of(),
    {
        PluginInfo {
            name: self.name,
            version: self.version,
            description: self.description,
            api_version: self.api_version,
            capabilities: self.capabilities,
            priority: self.priority,
        }
    }
}

/// Result returned by plugin event handlers.
#[derive(Debug, Clone)]
pub struct EventResult {
    /// Whether to continue processing other handlers.
    pub continue_processing: bool,
    /// Messages to display.
    pub messages: Vec<String>,
    /// Modified data (e.g., modified download URL), one value per key.
    pub modified_data: Vec<(String, String)>,
    /// Error message if processing failed.
    pub error: Option<String>,
    /// Warnings generated during processing.
    pub warnings: Vec<String>,
}

/// The texts of a list of strings.
pub open spec fn texts(v: Seq<String>) -> Seq<Seq<char>> {
    v.map_values(|s: String| s@)
}

impl EventResult {
    /// Create a success result.
    pub fn ok() -> (r: Self)
        ensures
            r.continue_processing,
            r.messages@.len() == 0,
            r.modified_data@.len() == 0,
            r.error is None,
            r.warnings@.len() == 0,
    {
        EventResult {
            continue_processing: true,
            messages: Vec::new(),
            modified_data: Vec::new(),
            error: None,
            warnings: Vec::new(),
        }
    }

    /// Create a result with a message.
    pub fn with_message(message: &str) -> (r: Self)
        ensures
            r.continue_processing,
            texts(r.messages@) == seq![message@],
            r.modified_data@.len() == 0,
            r.error is None,
            r.warnings@.len() == 0,
    {
        let r = EventResult {
            continue_processing: true,
            messages: vec![owned(message)],
            modified_data: Vec::new(),
            error: None,
            warnings: Vec::new(),
        };
        assert(texts(r.messages@) =~= seq![message@]);
        r
    }

    /// Create a stop result (prevents further processing).
    pub fn stop() -> (r: Self)
        ensures
            !r.continue_processing,
            r.messages@.len() == 0,
            r.modified_data@.len() == 0,
            r.error is None,
            r.warnings@.len() == 0,
    {
        EventResult {
            continue_processing: false,
            messages: Vec::new(),
            modified_data: Vec::new(),
            error: None,
            warnings: Vec::new(),
        }
    }

    /// Create an error result.
    pub fn error(message: &str) -> (r: Self)
        ensures
            !r.continue_processing,
            r.messages@.len() == 0,
            r.modified_data@.len() == 0,
            opt_view(r.error) == Some(message@),
            r.warnings@.len() == 0,
    {
        EventResult {
            continue_processing: false,
            messages: Vec::new(),
            modified_data: Vec::new(),
            error: Some(owned(message)),
            warnings: Vec::new(),
        }
    }

    /// Add a message.
    pub fn message(self, message: &str) -> (r: Self)
        ensures
            texts(r.messages@) == texts(self.messages@).push(message@),
            r.continue_processing == self.continue_processing,
            r.modified_data@ == self.modified_data@,
            r.error == self.error,
            r.warnings@ == self.warnings@,
    {
        let mut r = self;
        r.messages.push(owned(message));
        assert(texts(r.messages@) =~= texts(self.messages@).push(message@));
        r
    }

    /// Add a warning.
    pub fn warning(self, warning: &str) -> (r: Self)
        ensures
            texts(r.warnings@) == texts(self.warnings@).push(warning@),
            r.continue_processing == self.continue_processing,
            r.messages@ == self.messages@,
            r.modified_data@ == self.modified_data@,
            r.error == self.error,
    {
        let mut r = self;
        r.warnings.push(owned(warning));
        assert(texts(r.warnings@) =~= texts(self.warnings@).push(warning@));
        r
    }

    /// Add modified data; a key set before gets the new value.
    pub fn data(self, key: &str, value: &str) -> (r: Self)
        ensures
            env_views(r.modified_data@) == env_insert(env_views(self.modified_data@), key@, value@),
            r.continue_processing == self.continue_processing,
            r.messages@ == self.messages@,
            r.error == self.error,
            r.warnings@ == self.warnings@,
    {
        let mut r = self;
        env_set(&mut r.modified_data, key, value);
        r
    }

    /// The modified value of a key, if any.
    pub fn data_value(&self, key: &str) -> (r: Option<String>)
        ensures
            opt_view(r) == env_lookup(env_views(self.modified_data@), key@),
    {
        env_get(&self.modified_data, key)
    }

    /// Stop processing.
    pub fn stop_processing(self) -> (r: Self)
        ensures
            !r.continue_processing,
            r.messages@ == self.messages@,
            r.modified_data@ == self.modified_data@,
            r.error == self.error,
            r.warnings@ == self.warnings@,
    {
        let mut r = self;
        r.continue_processing = false;
        r
    }

    /// Check if result is an error.
    pub fn is_error(&self) -> (r: bool)
        ensures
            r == self.error is Some,
    {
        self.error.is_some()
    }

    /// Check if result has warnings.
    pub fn has_warnings(&self) -> (r: bool)
        ensures
            r == (self.warnings@.len() > 0),
    {
        self.warnings.len() > 0
    }
}

/// Custom command definition.
#[derive(Debug, Clone)]
pub struct PluginCommand {
    /// Command name.
    pub name: String,
    /// Command description.
    pub description: String,
    /// Command aliases.
    pub aliases: Vec<String>,
    /// Command arguments definition.
    pub arguments: Vec<CommandArgument>,
    /// Command options definition.
    pub options: Vec<CommandOption>,
}

/// Command argument definition.
#[derive(Debug, Clone)]
pub struct CommandArgument {
    /// Argument name.
    pub name: String,
    /// Argument description.
    pub description: String,
    /// Whether the argument is required.
    pub required: bool,
    /// Default value.
    pub default: Option<String>,
}

/// Command option definition.
#[derive(Debug, Clone)]
pub struct CommandOption {
    /// Option name (long form).
    pub name: String,
    /// Short form (single character).
    pub short: Option<char>,
    /// Option description.
    pub description: String,
    /// Whether the option takes a value.
    pub takes_value: bool,
    /// Default value.
    pub default: Option<String>,
}

/// The plugin API version this library implements.
pub const PLUGIN_API_VERSION: &'static str = "2.6.0";

/// Default maximum concurrent plugin operations.
pub const DEFAULT_MAX_CONCURRENT_PLUGINS: usize = 20;

/// Whether `semver::Version::parse` accepts a text.
pub uninterp spec fn semver_version_parses(text: Seq<char>) -> bool;

/// Whether `semver::VersionReq::parse` accepts a text.
pub uninterp spec fn semver_req_parses(text: Seq<char>) -> bool;

/// What `VersionReq::matches` answers for the requirement and the version
/// that the two texts parse to.
pub uninterp spec fn semver_text_matches(req: Seq<char>, version: Seq<char>) -> bool;

/// `semver::VersionReq::parse` of `req` and `semver::Version::parse` of
/// `version`, then `VersionReq::matches`; `None` where either text does not
/// parse.
#[verifier::external_body]
fn semver_text_match(req: &str, version: &str) -> (r: Option<bool>)
    ensures
        match r {
            Some(b) => semver_req_parses(req@) && semver_version_parses(version@) && b
                == semver_text_matches(req@, version@),
            None => !(semver_req_parses(req@) && semver_version_parses(version@)),
        },
{
    match (semver::VersionReq::parse(req), semver::Version::parse(version)) {
        (Ok(q), Ok(v)) => Some(q.matches(&v)),
        _ => None,
    }
}

/// Whether a plugin's required API version admits the API version
/// `current`: a plugin without a requirement is compatible; a requirement
/// or a current version that SemVer rejects makes it incompatible;
/// otherwise SemVer matching decides.
pub fn is_api_compatible(metadata: &PluginMetadata, current: &str) -> (r: bool)
    ensures
        metadata.plugin_api_version is None ==> r,
        metadata.plugin_api_version matches Some(t) ==> (!semver_req_parses(t@) ==> !r),
        metadata.plugin_api_version matches Some(t) ==> (!semver_version_parses(current@) ==> !r),
        metadata.plugin_api_version matches Some(t) ==> (semver_req_parses(t@)
            && semver_version_parses(current@) ==> r == semver_text_matches(t@, current@)),
{
    let required = match &metadata.plugin_api_version {
        Some(t) => t,
        None => {
            return true;
        },
    };
    match semver_text_match(required.as_str(), current) {
        Some(b) => b,
        None => false,
    }
}

/// The services the host offers to a plugin: the project's directories and
/// the event bus shared by the plugins.
#[derive(Debug)]
pub struct PluginApi {
    project_root: String,
    vendor_dir: String,
    composer_home: String,
    event_bus: EventBus,
}

impl PluginApi {
    /// The state of the event bus.
    pub closed spec fn bus(&self) -> EventBusView {
        self.event_bus@
    }

    /// The project root, vendor and Composer home directories.
    pub closed spec fn dirs(&self) -> (Seq<char>, Seq<char>, Seq<char>) {
        (self.project_root@, self.vendor_dir@, self.composer_home@)
    }

    /// Create a new plugin API instance.
    pub fn new(project_root: String, vendor_dir: String, composer_home: String, event_bus: EventBus) -> (r: Self)
        ensures
            r.dirs() == (project_root@, vendor_dir@, composer_home@),
            r.bus() == event_bus@,
    {
        PluginApi { project_root, vendor_dir, composer_home, event_bus }
    }

    /// Get the project root directory.
    pub fn project_root(&self) -> (r: &str)
        ensures
            r@ == self.dirs().0,
    {
        self.project_root.as_str()
    }

    /// Get the vendor directory.
    pub fn vendor_dir(&self) -> (r: &str)
        ensures
            r@ == self.dirs().1,
    {
        self.vendor_dir.as_str()
    }

    /// Get the composer home directory.
    pub fn composer_home(&self) -> (r: &str)
        ensures
            r@ == self.dirs().2,
    {
        self.composer_home.as_str()
    }

    /// The event bus.
    pub fn event_bus(&self) -> (r: &EventBus)
        ensures
            r@ == self.bus(),
    {
        &self.event_bus
    }

    /// Send a message to other plugins via the event bus.
    pub fn send_message(&mut self, message: EventMessage) -> (r: Result<(), PluginError>)
        ensures
            r is Ok,
            final(self).bus().subscribers == old(self).bus().subscribers.map_values(
                |s: SubscriberView| offer(s, message@, old(self).bus().capacity),
            ),
            final(self).bus().stats == stats_after_publish(
                old(self).bus().stats,
                accepted_count(old(self).bus().subscribers, message@, old(self).bus().capacity),
            ),
            final(self).bus().history == bounded_push(old(self).bus().history, message@, HISTORY_LIMIT as nat),
            final(self).bus().next_id == old(self).bus().next_id,
            final(self).bus().capacity == old(self).bus().capacity,
            final(self).dirs() == old(self).dirs(),
    {
        self.event_bus.publish(message)
    }

    /// Subscribe to messages from other plugins.
    pub fn subscribe(&mut self) -> (r: EventSubscription)
        requires
            old(self).bus().next_id < u64::MAX,
        ensures
            r.id == old(self).bus().next_id,
            r.topic_filter is None,
            final(self).bus().subscribers == old(self).bus().subscribers.push(
                SubscriberView { id: r.id, plugin_id: Seq::empty(), filter: None, pending: Seq::empty() },
            ),
            final(self).bus().next_id == old(self).bus().next_id + 1,
            final(self).bus().history == old(self).bus().history,
            final(self).bus().capacity == old(self).bus().capacity,
            final(self).dirs() == old(self).dirs(),
    {
        self.event_bus.subscribe()
    }
}

/// Context handed to a plugin's event handler. Package IDs are kept as
/// their `vendor/name` text; maps are kept as pairs.
#[derive(Debug, Clone, Default)]
pub struct EventContext {
    /// Packages involved in the event.
    pub packages: Vec<String>,
    /// Current operation (install, update, etc.).
    pub operation: Option<String>,
    /// Project root directory.
    pub project_root: Option<String>,
    /// Vendor directory.
    pub vendor_dir: Option<String>,
    /// Additional context data.
    pub data: Vec<(String, String)>,
    /// Command line arguments.
    pub args: Vec<String>,
    /// Whether running in dev mode.
    pub dev_mode: bool,
    /// Verbose output.
    pub verbose: bool,
    /// URLs involved in the event.
    pub urls: Vec<String>,
    /// Package versions involved.
    pub versions: Vec<(String, String)>,
}

impl EventContext {
    /// An empty context.
    pub fn new() -> (r: Self)
        ensures
            r.packages@.len() == 0,
            r.operation is None,
            r.project_root is None,
            r.vendor_dir is None,
            r.data@.len() == 0,
            r.args@.len() == 0,
            !r.dev_mode,
            !r.verbose,
            r.urls@.len() == 0,
            r.versions@.len() == 0,
    {
        EventContext {
            packages: Vec::new(),
            operation: None,
            project_root: None,
            vendor_dir: None,
            data: Vec::new(),
            args: Vec::new(),
            dev_mode: false,
            verbose: false,
            urls: Vec::new(),
            versions: Vec::new(),
        }
    }

    /// Set the packages.
    pub fn with_packages(self, packages: Vec<String>) -> (r: Self)
        ensures
            r == (EventContext { packages, ..self }),
    {
        EventContext { packages, ..self }
    }

    /// Set the operation.
    pub fn with_operation(self, operation: &str) -> (r: Self)
        ensures
            opt_view(r.operation) == Some(operation@),
            r == (EventContext { operation: r.operation, ..self }),
    {
        EventContext { operation: Some(owned(operation)), ..self }
    }

    /// Set the project root.
    pub fn with_project_root(self, path: &str) -> (r: Self)
        ensures
            opt_view(r.project_root) == Some(path@),
            r == (EventContext { project_root: r.project_root, ..self }),
    {
        EventContext { project_root: Some(owned(path)), ..self }
    }

    /// Set the vendor directory.
    pub fn with_vendor_dir(self, path: &str) -> (r: Self)
        ensures
            opt_view(r.vendor_dir) == Some(path@),
            r == (EventContext { vendor_dir: r.vendor_dir, ..self }),
    {
        EventContext { vendor_dir: Some(owned(path)), ..self }
    }

    /// Add a data entry, replacing the value of an existing key.
    pub fn with_data(self, key: &str, value: &str) -> (r: Self)
        ensures
            opt_view(bound_value(r.data@, key@)) == Some(value@),
            forall|k: Seq<char>| k != key@ ==> bound_value(r.data@, k) == bound_value(self.data@, k),
            r == (EventContext { data: r.data, ..self }),
    {
        let mut c = self;
        bind_value(&mut c.data, key, owned(value));
        c
    }

    /// Set dev mode.
    pub fn with_dev_mode(self, dev_mode: bool) -> (r: Self)
        ensures
            r == (EventContext { dev_mode, ..self }),
    {
        EventContext { dev_mode, ..self }
    }

    /// Set verbose output.
    pub fn with_verbose(self, verbose: bool) -> (r: Self)
        ensures
            r == (EventContext { verbose, ..self }),
    {
        EventContext { verbose, ..self }
    }

    /// Add a URL.
    pub fn with_url(self, url: &str) -> (r: Self)
        ensures
            r.urls@.len() == self.urls@.len() + 1,
            r.urls@.drop_last() == self.urls@,
            r.urls@.last()@ == url@,
            r == (EventContext { urls: r.urls, ..self }),
    {
        let mut c = self;
        c.urls.push(owned(url));
        c
    }

    /// A data entry.
    pub fn get_data(&self, key: &str) -> (r: Option<&str>)
        ensures
            match bound_value(self.data@, key@) {
                Some(v) => r matches Some(x) && x@ == v@,
                None => r is None,
            },
    {
        proof {
            lemma_last_binding(self.data@, key@);
        }
        match find_binding(&self.data, key) {
            Some(i) => Some(self.data[i].1.as_str()),
            None => None,
        }
    }
}

} // verus!

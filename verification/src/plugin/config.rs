//! Plugin manager configuration, per-plugin sandbox settings and the
//! settings read from the environment.
use vstd::prelude::*;
use core::time::Duration;
use crate::text::{chars_eq, chars_of, lowercase_of, owned, parse_u64, parsed_u64, str_eq, to_lowercase, views, Duplicate};
use crate::resolution::copy_names;

verus! {

/// What `Duration::from_secs` returns for a number of seconds.
pub uninterp spec fn duration_of_secs(secs: u64) -> Duration;

/// `Duration::from_secs`: a duration of whole seconds.
#[verifier::external_body]
pub(crate) fn duration_from_secs(secs: u64) -> (r: Duration)
    ensures
        r == duration_of_secs(secs),
{
    Duration::from_secs(secs)
}

/// `Duration` is `Copy`; its `clone` returns the same duration.
pub assume_specification[ <Duration as Clone>::clone ](d: &Duration) -> (r: Duration)
    ensures
        r == *d,
;

/// Plugin manager configuration.
#[derive(Debug, Clone)]
pub struct PluginManagerConfig {
    /// Enable plugins globally.
    pub plugins_enabled: bool,
    /// Enable hot reload for native plugins (development mode).
    pub hot_reload: bool,
    /// Default timeout for plugin operations.
    pub default_timeout: Duration,
    /// Maximum concurrent plugin operations.
    pub max_concurrent: usize,
    /// Event bus capacity.
    pub event_bus_capacity: usize,
    /// PHP plugin timeout.
    pub php_timeout: Duration,
    /// Enable lazy loading.
    pub lazy_loading: bool,
    /// Plugin loading order (explicit ordering).
    pub load_order: Vec<String>,
    /// Disabled plugins.
    pub disabled_plugins: Vec<String>,
}

/// The texts of a list of strings.
pub open spec fn names(v: Seq<String>) -> Seq<Seq<char>> {
    v.map_values(|s: String| s@)
}

/// Whether the configuration is the default one: plugins enabled, no hot
/// reload, a 30 s timeout, 20 concurrent operations, a bus of 1000
/// messages, a 60 s PHP timeout, lazy loading, no ordering and nothing
/// disabled.
pub open spec fn is_default_config(c: PluginManagerConfig) -> bool {
    &&& c.plugins_enabled
    &&& !c.hot_reload
    &&& c.default_timeout == duration_of_secs(30)
    &&& c.max_concurrent == 20
    &&& c.event_bus_capacity == 1000
    &&& c.php_timeout == duration_of_secs(60)
    &&& c.lazy_loading
    &&& c.load_order@.len() == 0
    &&& c.disabled_plugins@.len() == 0
}

impl Default for PluginManagerConfig {
    fn default() -> (r: Self)
        ensures
            is_default_config(r),
    {
        PluginManagerConfig {
            plugins_enabled: true,
            hot_reload: false,
            default_timeout: duration_from_secs(30),
            max_concurrent: 20,
            event_bus_capacity: 1000,
            php_timeout: duration_from_secs(60),
            lazy_loading: true,
            load_order: Vec::new(),
            disabled_plugins: Vec::new(),
        }
    }
}

impl PluginManagerConfig {
    /// Create a new configuration with defaults.
    pub fn new() -> (r: Self)
        ensures
            is_default_config(r),
    {
        Self::default()
    }

    /// Enable hot reload (for development).
    pub fn with_hot_reload(self, enabled: bool) -> (r: Self)
        ensures
            r == (PluginManagerConfig { hot_reload: enabled, ..self }),
    {
        let mut c = self;
        c.hot_reload = enabled;
        c
    }

    /// Set default timeout.
    pub fn with_timeout(self, timeout: Duration) -> (r: Self)
        ensures
            r == (PluginManagerConfig { default_timeout: timeout, ..self }),
    {
        let mut c = self;
        c.default_timeout = timeout;
        c
    }

    /// Set maximum concurrent operations.
    pub fn with_max_concurrent(self, max: usize) -> (r: Self)
        ensures
            r == (PluginManagerConfig { max_concurrent: max, ..self }),
    {
        let mut c = self;
        c.max_concurrent = max;
        c
    }

    /// Disable plugins.
    pub fn with_disabled_plugins(self, plugins: Vec<String>) -> (r: Self)
        ensures
            r == (PluginManagerConfig { disabled_plugins: plugins, ..self }),
    {
        let mut c = self;
        c.disabled_plugins = plugins;
        c
    }

    /// Enable lazy loading.
    pub fn with_lazy_loading(self, enabled: bool) -> (r: Self)
        ensures
            r == (PluginManagerConfig { lazy_loading: enabled, ..self }),
    {
        let mut c = self;
        c.lazy_loading = enabled;
        c
    }

    /// Check if a plugin is disabled: its ID is in the disabled list.
    pub fn is_plugin_disabled(&self, plugin_id: &str) -> (r: bool)
        ensures
            r == names(self.disabled_plugins@).contains(plugin_id@),
    {
        let mut i: usize = 0;
        while i < self.disabled_plugins.len()
            invariant
                i <= self.disabled_plugins@.len(),
                forall|k: int| 0 <= k < i ==> self.disabled_plugins@[k]@ != plugin_id@,
            decreases self.disabled_plugins.len() - i,
        {
            if str_eq(self.disabled_plugins[i].as_str(), plugin_id) {
                assert(names(self.disabled_plugins@)[i as int] == plugin_id@);
                return true;
            }
            i = i + 1;
        }
        proof {
            if names(self.disabled_plugins@).contains(plugin_id@) {
                let k = choose|k: int|
                    0 <= k < names(self.disabled_plugins@).len() && names(
                        self.disabled_plugins@,
                    )[k] == plugin_id@;
                assert(self.disabled_plugins@[k]@ == plugin_id@);
            }
        }
        false
    }

    /// Disable all plugins (--no-plugins); nothing else changes.
    pub fn disable_all(&mut self)
        ensures
            *final(self) == (PluginManagerConfig { plugins_enabled: false, ..*old(self) }),
    {
        self.plugins_enabled = false;
    }
}

/// Per-plugin sandbox configuration.
#[derive(Debug, Clone, Default)]
pub struct PluginSandboxConfig {
    /// Disable sandbox for this plugin.
    pub disable: bool,
    /// Additional allowed read paths.
    pub allowed_read_paths: Vec<String>,
    /// Additional allowed write paths.
    pub allowed_write_paths: Vec<String>,
    /// Additional allowed network hosts.
    pub allowed_hosts: Vec<String>,
    /// Custom memory limit.
    pub memory_limit: Option<usize>,
}

/// Environment-based configuration.
#[derive(Debug, Clone)]
pub struct EnvironmentConfig {
    /// `LIBRETTO_PLUGINS_DISABLED`
    pub plugins_disabled: bool,
    /// `LIBRETTO_PLUGIN_TIMEOUT`
    pub timeout: Option<Duration>,
    /// `LIBRETTO_PLUGIN_MAX_CONCURRENT`
    pub max_concurrent: Option<usize>,
    /// `LIBRETTO_HOT_RELOAD`
    pub hot_reload: bool,
}

/// Whether an environment flag is set: `1`, or `true` in any case.
pub open spec fn flag_set(v: Option<Seq<char>>) -> bool {
    match v {
        Some(s) => s == seq!['1'] || lowercase_of(s) == seq!['t', 'r', 'u', 'e'],
        None => false,
    }
}

/// A number of seconds or operations read from an environment variable.
pub open spec fn number_value(v: Option<Seq<char>>) -> Option<u64> {
    match v {
        Some(s) => parsed_u64(s),
        None => None,
    }
}

/// The text of an optional string slice.
pub open spec fn str_opt(v: Option<&str>) -> Option<Seq<char>> {
    match v {
        Some(s) => Some(s@),
        None => None,
    }
}

fn flag_value(v: Option<&str>) -> (r: bool)
    ensures
        r == flag_set(str_opt(v)),
{
    match v {
        Some(s) => {
            let one: Vec<char> = vec!['1'];
            let t: Vec<char> = vec!['t', 'r', 'u', 'e'];
            assert(one@ =~= seq!['1']);
            assert(t@ =~= seq!['t', 'r', 'u', 'e']);
            let c = chars_of(s);
            if chars_eq(c.as_slice(), one.as_slice()) {
                true
            } else {
                let low = to_lowercase(s);
                let lc = chars_of(low.as_str());
                chars_eq(lc.as_slice(), t.as_slice())
            }
        },
        None => false,
    }
}

impl EnvironmentConfig {
    /// Configuration from the values of `LIBRETTO_PLUGINS_DISABLED`,
    /// `LIBRETTO_PLUGIN_TIMEOUT` (seconds), `LIBRETTO_PLUGIN_MAX_CONCURRENT`
    /// and `LIBRETTO_HOT_RELOAD`, each `None` when unset. Flags are set by
    /// `1` or `true` (any case); numbers that do not parse are ignored.
    pub fn from_values(
        plugins_disabled: Option<&str>,
        timeout: Option<&str>,
        max_concurrent: Option<&str>,
        hot_reload: Option<&str>,
    ) -> (r: Self)
        ensures
            r.plugins_disabled == flag_set(str_opt(plugins_disabled)),
            r.hot_reload == flag_set(str_opt(hot_reload)),
            r.timeout == (match number_value(str_opt(timeout)) {
                Some(s) => Some(duration_of_secs(s)),
                None => None,
            }),
            r.max_concurrent == (match number_value(str_opt(max_concurrent)) {
                Some(n) => if n <= usize::MAX { Some(n as usize) } else { None },
                None => None,
            }),
    {
        let t = match timeout {
            Some(s) => {
                let c = chars_of(s);
                match parse_u64(c.as_slice()) {
                    Some(secs) => Some(duration_from_secs(secs)),
                    None => None,
                }
            },
            None => None,
        };
        let m = match max_concurrent {
            Some(s) => {
                let c = chars_of(s);
                match parse_u64(c.as_slice()) {
                    Some(n) => if n <= usize::MAX as u64 { Some(n as usize) } else { None },
                    None => None,
                }
            },
            None => None,
        };
        EnvironmentConfig {
            plugins_disabled: flag_value(plugins_disabled),
            timeout: t,
            max_concurrent: m,
            hot_reload: flag_value(hot_reload),
        }
    }

    /// Apply to manager config: a set flag disables plugins or enables hot
    /// reload, and a given timeout or concurrency replaces the configured one.
    pub fn apply_to(&self, config: &mut PluginManagerConfig)
        ensures
            final(config).plugins_enabled == (old(config).plugins_enabled && !self.plugins_disabled),
            final(config).default_timeout == (match self.timeout {
                Some(t) => t,
                None => old(config).default_timeout,
            }),
            final(config).max_concurrent == (match self.max_concurrent {
                Some(m) => m,
                None => old(config).max_concurrent,
            }),
            final(config).hot_reload == (old(config).hot_reload || self.hot_reload),
            final(config).event_bus_capacity == old(config).event_bus_capacity,
            final(config).php_timeout == old(config).php_timeout,
            final(config).lazy_loading == old(config).lazy_loading,
            final(config).load_order == old(config).load_order,
            final(config).disabled_plugins == old(config).disabled_plugins,
    {
        if self.plugins_disabled {
            config.plugins_enabled = false;
        }
        match self.timeout {
            Some(t) => {
                config.default_timeout = t;
            },
            None => {},
        }
        match self.max_concurrent {
            Some(m) => {
                config.max_concurrent = m;
            },
            None => {},
        }
        if self.hot_reload {
            config.hot_reload = true;
        }
    }
}

/// The value the last pair with key `id` gives, if any pair has it (later
/// pairs override earlier ones, as when a map is built from them).
pub open spec fn flag_lookup(pairs: Seq<(String, bool)>, id: Seq<char>) -> Option<bool>
    decreases pairs.len(),
{
    if pairs.len() == 0 {
        None
    } else if pairs.last().0@ == id {
        Some(pairs.last().1)
    } else {
        flag_lookup(pairs.drop_last(), id)
    }
}

/// Plugin permissions loaded from the `config` section of composer.json.
#[derive(Debug, Clone, Default)]
pub struct ComposerPluginConfig {
    /// Options for every plugin (`plugin-config`).
    pub global: Vec<(String, ConfigValue)>,
    /// Per-plugin configuration.
    pub plugins: Vec<(String, PluginConfig)>,
    /// Disabled plugins (`disable-plugins`).
    pub disabled: Vec<String>,
    /// Allowed plugins (`allow-plugins`); when set, only plugins listed with
    /// `true` are allowed.
    pub allowed: Option<Vec<(String, bool)>>,
}

impl ComposerPluginConfig {
    /// Check if a plugin is allowed: with an allow list, exactly the
    /// plugins it maps to `true`; without one, every plugin that is not
    /// disabled.
    pub fn is_plugin_allowed(&self, plugin_id: &str) -> (r: bool)
        ensures
            r == (match self.allowed {
                Some(a) => flag_lookup(a@, plugin_id@) == Some(true),
                None => !names(self.disabled@).contains(plugin_id@),
            }),
    {
        match &self.allowed {
            Some(a) => {
                let mut k = a.len();
                assert(a@.subrange(0, a@.len() as int) =~= a@);
                while k > 0
                    invariant
                        k <= a@.len(),
                        self.allowed == Some(*a),
                        flag_lookup(a@, plugin_id@) == flag_lookup(a@.subrange(0, k as int), plugin_id@),
                    decreases k,
                {
                    let ghost pre = a@.subrange(0, k as int);
                    assert(pre.drop_last() =~= a@.subrange(0, k - 1));
                    if str_eq(a[k - 1].0.as_str(), plugin_id) {
                        assert(pre.last() == a@[k - 1]);
                        assert(flag_lookup(pre, plugin_id@) == Some(a@[k - 1].1));
                        return a[k - 1].1;
                    }
                    assert(pre.last() == a@[k - 1]);
                    k = k - 1;
                }
                assert(a@.subrange(0, 0) =~= Seq::<(String, bool)>::empty());
                proof {
                    assert(a@.subrange(0, a@.len() as int) =~= a@);
                }
                false
            },
            None => {
                let mut i: usize = 0;
                while i < self.disabled.len()
                    invariant
                        i <= self.disabled@.len(),
                        self.allowed is None,
                        forall|k: int| 0 <= k < i ==> self.disabled@[k]@ != plugin_id@,
                    decreases self.disabled.len() - i,
                {
                    if str_eq(self.disabled[i].as_str(), plugin_id) {
                        assert(names(self.disabled@)[i as int] == plugin_id@);
                        assert(names(self.disabled@).contains(plugin_id@));
                        return false;
                    }
                    i = i + 1;
                }
                proof {
                    if names(self.disabled@).contains(plugin_id@) {
                        let k = choose|k: int|
                            0 <= k < names(self.disabled@).len() && names(self.disabled@)[k]
                                == plugin_id@;
                        assert(self.disabled@[k]@ == plugin_id@);
                    }
                }
                true
            },
        }
    }
}

/// A JSON value of a plugin option, as far as the options are read:
/// integers that fit in an `i64` are held as such, any other number and
/// any object as JSON text, and an array as its elements.
#[derive(Debug, Clone)]
pub enum ConfigValue {
    /// `null`.
    Null,
    /// A boolean.
    Bool(bool),
    /// An integer that fits in an `i64`.
    Int(i64),
    /// Any other number, as JSON text.
    Number(String),
    /// A string.
    Str(String),
    /// An array.
    Array(Vec<ArrayElement>),
    /// An object, as JSON text.
    Object(String),
}

/// An element of an array option: a string, or any other value as its
/// JSON text.
#[derive(Debug, Clone)]
pub enum ArrayElement {
    /// A string.
    Str(String),
    /// Any other value, as JSON text.
    Json(String),
}

/// The contents of an array element.
pub enum ArrayElementView {
    /// A string.
    Str(Seq<char>),
    /// Any other value, as JSON text.
    Json(Seq<char>),
}

impl View for ArrayElement {
    type V = ArrayElementView;

    open spec fn view(&self) -> ArrayElementView {
        match self {
            ArrayElement::Str(s) => ArrayElementView::Str(s@),
            ArrayElement::Json(s) => ArrayElementView::Json(s@),
        }
    }
}

/// The contents of an option value.
pub enum ConfigValueView {
    /// `null`.
    Null,
    /// A boolean.
    Bool(bool),
    /// An integer.
    Int(i64),
    /// Another number, as JSON text.
    Number(Seq<char>),
    /// A string.
    Str(Seq<char>),
    /// An array.
    Array(Seq<ArrayElementView>),
    /// An object, as JSON text.
    Object(Seq<char>),
}

/// The contents of a list of array elements.
pub open spec fn element_views(v: Seq<ArrayElement>) -> Seq<ArrayElementView> {
    v.map_values(|e: ArrayElement| e@)
}

impl View for ConfigValue {
    type V = ConfigValueView;

    open spec fn view(&self) -> ConfigValueView {
        match self {
            ConfigValue::Null => ConfigValueView::Null,
            ConfigValue::Bool(b) => ConfigValueView::Bool(*b),
            ConfigValue::Int(i) => ConfigValueView::Int(*i),
            ConfigValue::Number(t) => ConfigValueView::Number(t@),
            ConfigValue::Str(t) => ConfigValueView::Str(t@),
            ConfigValue::Array(a) => ConfigValueView::Array(element_views(a@)),
            ConfigValue::Object(t) => ConfigValueView::Object(t@),
        }
    }
}

fn copy_element(e: &ArrayElement) -> (r: ArrayElement)
    ensures
        r@ == e@,
{
    match e {
        ArrayElement::Str(s) => ArrayElement::Str(owned(s.as_str())),
        ArrayElement::Json(s) => ArrayElement::Json(owned(s.as_str())),
    }
}

/// A copy of an option value.
pub fn copy_value(v: &ConfigValue) -> (r: ConfigValue)
    ensures
        r@ == v@,
{
    match v {
        ConfigValue::Null => ConfigValue::Null,
        ConfigValue::Bool(b) => ConfigValue::Bool(*b),
        ConfigValue::Int(i) => ConfigValue::Int(*i),
        ConfigValue::Number(t) => ConfigValue::Number(owned(t.as_str())),
        ConfigValue::Str(t) => ConfigValue::Str(owned(t.as_str())),
        ConfigValue::Array(a) => {
            let mut out: Vec<ArrayElement> = Vec::new();
            let mut i: usize = 0;
            while i < a.len()
                invariant
                    i <= a@.len(),
                    element_views(out@) == element_views(a@.subrange(0, i as int)),
                decreases a.len() - i,
            {
                let ghost prev = out@;
                out.push(copy_element(&a[i]));
                proof {
                    assert(element_views(out@) =~= element_views(prev).push(a@[i as int]@));
                    assert(element_views(a@.subrange(0, i + 1)) =~= element_views(
                        a@.subrange(0, i as int),
                    ).push(a@[i as int]@));
                }
                i = i + 1;
            }
            assert(a@.subrange(0, a@.len() as int) =~= a@);
            ConfigValue::Array(out)
        },
        ConfigValue::Object(t) => ConfigValue::Object(owned(t.as_str())),
    }
}

/// The contents of a sandbox configuration.
pub struct SandboxView {
    /// Sandbox disabled.
    pub disable: bool,
    /// Additional allowed read paths.
    pub allowed_read_paths: Seq<Seq<char>>,
    /// Additional allowed write paths.
    pub allowed_write_paths: Seq<Seq<char>>,
    /// Additional allowed network hosts.
    pub allowed_hosts: Seq<Seq<char>>,
    /// Custom memory limit.
    pub memory_limit: Option<usize>,
}

impl View for PluginSandboxConfig {
    type V = SandboxView;

    open spec fn view(&self) -> SandboxView {
        SandboxView {
            disable: self.disable,
            allowed_read_paths: views(self.allowed_read_paths@),
            allowed_write_paths: views(self.allowed_write_paths@),
            allowed_hosts: views(self.allowed_hosts@),
            memory_limit: self.memory_limit,
        }
    }
}

/// A copy of a sandbox configuration.
pub fn copy_sandbox(c: &PluginSandboxConfig) -> (r: PluginSandboxConfig)
    ensures
        r@ == c@,
{
    PluginSandboxConfig {
        disable: c.disable,
        allowed_read_paths: copy_names(&c.allowed_read_paths),
        allowed_write_paths: copy_names(&c.allowed_write_paths),
        allowed_hosts: copy_names(&c.allowed_hosts),
        memory_limit: c.memory_limit,
    }
}

impl DeepView for ConfigValue {
    type V = ConfigValueView;

    open spec fn deep_view(&self) -> ConfigValueView {
        self@
    }
}

impl Duplicate for ConfigValue {
    fn duplicate(&self) -> (r: Self) {
        copy_value(self)
    }
}

impl DeepView for PluginSandboxConfig {
    type V = SandboxView;

    open spec fn deep_view(&self) -> SandboxView {
        self@
    }
}

impl Duplicate for PluginSandboxConfig {
    fn duplicate(&self) -> (r: Self) {
        copy_sandbox(self)
    }
}

/// Position of the last pair whose key is `key`.
pub open spec fn last_binding<V>(pairs: Seq<(String, V)>, key: Seq<char>) -> Option<int>
    decreases pairs.len(),
{
    if pairs.len() == 0 {
        None
    } else if pairs.last().0@ == key {
        Some(pairs.len() - 1)
    } else {
        last_binding(pairs.drop_last(), key)
    }
}

/// The value bound to `key` (the last pair with that key wins, as when a
/// map is built from the pairs).
pub open spec fn bound_value<V>(pairs: Seq<(String, V)>, key: Seq<char>) -> Option<V> {
    match last_binding(pairs, key) {
        Some(i) => Some(pairs[i].1),
        None => None,
    }
}

pub(crate) proof fn lemma_last_binding<V>(pairs: Seq<(String, V)>, key: Seq<char>)
    ensures
        match last_binding(pairs, key) {
            Some(i) => 0 <= i < pairs.len() && pairs[i].0@ == key && forall|j: int|
                i < j < pairs.len() ==> #[trigger] pairs[j].0@ != key,
            None => forall|j: int| 0 <= j < pairs.len() ==> #[trigger] pairs[j].0@ != key,
        },
    decreases pairs.len(),
{
    if pairs.len() > 0 && pairs.last().0@ != key {
        let rest = pairs.drop_last();
        lemma_last_binding(rest, key);
        assert(last_binding(pairs, key) == last_binding(rest, key));
        match last_binding(rest, key) {
            Some(i) => {
                assert(pairs[i] == rest[i]);
                assert forall|j: int| i < j < pairs.len() implies #[trigger] pairs[j].0@ != key by {
                    if j < pairs.len() - 1 {
                        assert(pairs[j] == rest[j]);
                    }
                }
            },
            None => {
                assert forall|j: int| 0 <= j < pairs.len() implies #[trigger] pairs[j].0@ != key by {
                    if j < pairs.len() - 1 {
                        assert(pairs[j] == rest[j]);
                    }
                }
            },
        }
    }
}

/// Two lists of pairs whose keys match `key` at the same positions bind
/// it at the same position.
proof fn lemma_same_binding<V>(a: Seq<(String, V)>, b: Seq<(String, V)>, key: Seq<char>)
    requires
        a.len() == b.len(),
        forall|j: int| 0 <= j < a.len() ==> (#[trigger] a[j].0@ == key) == (b[j].0@ == key),
    ensures
        last_binding(a, key) == last_binding(b, key),
    decreases a.len(),
{
    if a.len() > 0 {
        let (ra, rb) = (a.drop_last(), b.drop_last());
        assert forall|j: int| 0 <= j < ra.len() implies (#[trigger] ra[j].0@ == key) == (rb[j].0@ == key) by {
            assert(ra[j] == a[j]);
            assert(rb[j] == b[j]);
        }
        lemma_same_binding(ra, rb, key);
    }
}

/// Binding a key to a value: the pair that binds it gets the value, or a
/// new pair is added; every other key keeps its value.
pub(crate) fn bind_value<V>(pairs: &mut Vec<(String, V)>, key: &str, value: V)
    ensures
        bound_value(final(pairs)@, key@) == Some(value),
        forall|k: Seq<char>| k != key@ ==> bound_value(final(pairs)@, k) == bound_value(old(pairs)@, k),
        final(pairs)@.len() == old(pairs)@.len() + (if bound_value(old(pairs)@, key@) is None { 1int } else { 0int }),
{
    let ghost before = pairs@;
    let found = find_binding(pairs, key);
    proof {
        lemma_last_binding(before, key@);
    }
    match found {
        Some(i) => {
            pairs.set(i, (owned(key), value));
            proof {
                let after = pairs@;
                assert(after[i as int].0@ == key@);
                assert forall|j: int| 0 <= j < after.len() && j != i implies #[trigger] after[j] == before[j] by {}
                assert forall|k: Seq<char>| k != key@ implies bound_value(after, k) == bound_value(before, k) by {
                    assert forall|j: int| 0 <= j < after.len() implies (#[trigger] after[j].0@ == k) == (
                    before[j].0@ == k) by {
                        if j == i {
                            assert(before[j].0@ == key@);
                        }
                    }
                    lemma_same_binding(after, before, k);
                    lemma_last_binding(before, k);
                    match last_binding(before, k) {
                        Some(m) => {
                            assert(m != i);
                            assert(after[m] == before[m]);
                        },
                        None => {},
                    }
                }
                lemma_same_binding(after, before, key@);
            }
        },
        None => {
            pairs.push((owned(key), value));
            proof {
                let after = pairs@;
                assert(after.drop_last() =~= before);
                assert forall|k: Seq<char>| k != key@ implies bound_value(after, k) == bound_value(before, k) by {
                    lemma_last_binding(before, k);
                    match last_binding(before, k) {
                        Some(m) => assert(after[m] == before[m]),
                        None => {},
                    }
                }
            }
        },
    }
}

/// Position of the pair that binds `key`.
pub(crate) fn find_binding<V>(pairs: &Vec<(String, V)>, key: &str) -> (r: Option<usize>)
    ensures
        match last_binding(pairs@, key@) {
            Some(i) => r matches Some(x) && x == i,
            None => r is None,
        },
{
    let mut k = pairs.len();
    assert(pairs@.subrange(0, pairs@.len() as int) =~= pairs@);
    while k > 0
        invariant
            k <= pairs@.len(),
            last_binding(pairs@, key@) == last_binding(pairs@.subrange(0, k as int), key@),
        decreases k,
    {
        let ghost pre = pairs@.subrange(0, k as int);
        assert(pre.drop_last() =~= pairs@.subrange(0, k - 1));
        assert(pre.last() == pairs@[k - 1]);
        if str_eq(pairs[k - 1].0.as_str(), key) {
            return Some(k - 1);
        }
        k = k - 1;
    }
    None
}

/// The strings among the elements of an array, in order.
pub open spec fn strings_among(values: Seq<ArrayElement>) -> Seq<Seq<char>>
    decreases values.len(),
{
    if values.len() == 0 {
        Seq::empty()
    } else {
        strings_among(values.drop_last()) + match values.last() {
            ArrayElement::Str(s) => seq![s@],
            _ => Seq::empty(),
        }
    }
}

/// Configuration of one plugin.
#[derive(Debug, Clone)]
pub struct PluginConfig {
    /// Plugin-specific options.
    pub options: Vec<(String, ConfigValue)>,
    /// Whether the plugin is enabled.
    pub enabled: bool,
    /// Custom timeout.
    pub timeout: Option<Duration>,
    /// Custom sandbox settings.
    pub sandbox: Option<PluginSandboxConfig>,
}

/// The contents of a plugin configuration.
pub ghost struct PluginConfigView {
    /// The options with their values, in order.
    pub options: Seq<(Seq<char>, ConfigValueView)>,
    /// Whether the plugin is enabled.
    pub enabled: bool,
    /// Custom timeout.
    pub timeout: Option<Duration>,
    /// Custom sandbox settings.
    pub sandbox: Option<SandboxView>,
}

impl DeepView for PluginConfig {
    type V = PluginConfigView;

    open spec fn deep_view(&self) -> PluginConfigView {
        PluginConfigView {
            options: self.options.deep_view(),
            enabled: self.enabled,
            timeout: self.timeout,
            sandbox: self.sandbox.deep_view(),
        }
    }
}

impl Duplicate for PluginConfig {
    fn duplicate(&self) -> (r: Self) {
        PluginConfig {
            options: self.options.duplicate(),
            enabled: self.enabled,
            timeout: self.timeout,
            sandbox: self.sandbox.duplicate(),
        }
    }
}

impl PluginConfig {
    /// An empty configuration: no options, disabled, no timeout, no sandbox
    /// settings.
    pub fn new() -> (r: Self)
        ensures
            r.options@.len() == 0,
            !r.enabled,
            r.timeout is None,
            r.sandbox is None,
    {
        PluginConfig { options: Vec::new(), enabled: false, timeout: None, sandbox: None }
    }

    /// The value of an option.
    pub fn get(&self, key: &str) -> (r: Option<&ConfigValue>)
        ensures
            match bound_value(self.options@, key@) {
                Some(v) => r == Some(&v),
                None => r is None,
            },
    {
        proof {
            lemma_last_binding(self.options@, key@);
        }
        match find_binding(&self.options, key) {
            Some(i) => Some(&self.options[i].1),
            None => None,
        }
    }

    /// The value of a string option.
    pub fn get_str(&self, key: &str) -> (r: Option<&str>)
        ensures
            match bound_value(self.options@, key@) {
                Some(ConfigValue::Str(s)) => r matches Some(x) && x@ == s@,
                _ => r is None,
            },
    {
        match self.get(key) {
            Some(ConfigValue::Str(s)) => Some(s.as_str()),
            _ => None,
        }
    }

    /// The value of a boolean option.
    pub fn get_bool(&self, key: &str) -> (r: Option<bool>)
        ensures
            match bound_value(self.options@, key@) {
                Some(ConfigValue::Bool(b)) => r == Some(b),
                _ => r is None,
            },
    {
        match self.get(key) {
            Some(ConfigValue::Bool(b)) => Some(*b),
            _ => None,
        }
    }

    /// The value of an integer option.
    pub fn get_i64(&self, key: &str) -> (r: Option<i64>)
        ensures
            match bound_value(self.options@, key@) {
                Some(ConfigValue::Int(n)) => r == Some(n),
                _ => r is None,
            },
    {
        match self.get(key) {
            Some(ConfigValue::Int(n)) => Some(*n),
            _ => None,
        }
    }

    /// The strings of an array option, skipping its other elements.
    pub fn get_str_array(&self, key: &str) -> (r: Option<Vec<&str>>)
        ensures
            match bound_value(self.options@, key@) {
                Some(ConfigValue::Array(items)) => r matches Some(v) && v@.map_values(|x: &str| x@)
                    == strings_among(items@),
                _ => r is None,
            },
    {
        match self.get(key) {
            Some(ConfigValue::Array(items)) => {
                let mut out: Vec<&str> = Vec::new();
                let mut i: usize = 0;
                while i < items.len()
                    invariant
                        i <= items@.len(),
                        out@.map_values(|x: &str| x@) == strings_among(items@.subrange(0, i as int)),
                    decreases items.len() - i,
                {
                    let ghost prev = out@;
                    assert(items@.subrange(0, i + 1).drop_last() =~= items@.subrange(0, i as int));
                    match &items[i] {
                        ArrayElement::Str(s) => {
                            out.push(s.as_str());
                            assert(out@.map_values(|x: &str| x@) =~= prev.map_values(|x: &str| x@).push(
                                s@,
                            ));
                        },
                        _ => {},
                    }
                    i = i + 1;
                    assert(out@.map_values(|x: &str| x@) =~= strings_among(items@.subrange(0, i as int)));
                }
                assert(items@.subrange(0, items@.len() as int) =~= items@);
                Some(out)
            },
            _ => None,
        }
    }

    /// Set an option, replacing its previous value.
    pub fn set(&mut self, key: &str, value: ConfigValue)
        ensures
            bound_value(final(self).options@, key@) == Some(value),
            forall|k: Seq<char>|
                k != key@ ==> bound_value(final(self).options@, k) == bound_value(old(self).options@, k),
            final(self).enabled == old(self).enabled,
            final(self).timeout == old(self).timeout,
            final(self).sandbox == old(self).sandbox,
    {
        bind_value(&mut self.options, key, value);
    }

    /// Merge another configuration into this one: its options override,
    /// and its timeout and sandbox settings replace these when it has them.
    /// The merged values are copies of the other's.
    pub fn merge(&mut self, other: &Self)
        ensures
            forall|k: Seq<char>|
                match #[trigger] bound_value(other.options@, k) {
                    Some(v) => bound_value(final(self).options@, k) matches Some(w) && w@ == v@,
                    None => bound_value(final(self).options@, k) == bound_value(old(self).options@, k),
                },
            final(self).enabled == old(self).enabled,
            other.timeout is Some ==> final(self).timeout == other.timeout,
            other.timeout is None ==> final(self).timeout == old(self).timeout,
            other.sandbox matches Some(s) ==> final(self).sandbox matches Some(t) && t@ == s@,
            other.sandbox is None ==> final(self).sandbox == old(self).sandbox,
    {
        let mut i: usize = 0;
        while i < other.options.len()
            invariant
                i <= other.options@.len(),
                self.enabled == old(self).enabled,
                self.timeout == old(self).timeout,
                self.sandbox == old(self).sandbox,
                forall|k: Seq<char>|
                    match #[trigger] bound_value(other.options@.subrange(0, i as int), k) {
                        Some(v) => bound_value(self.options@, k) matches Some(w) && w@ == v@,
                        None => bound_value(self.options@, k) == bound_value(old(self).options@, k),
                    },
            decreases other.options.len() - i,
        {
            let ghost pre = other.options@.subrange(0, i as int);
            let ghost next = other.options@.subrange(0, i + 1);
            let ghost before = self.options@;
            let v = copy_value(&other.options[i].1);
            bind_value(&mut self.options, other.options[i].0.as_str(), v);
            proof {
                assert(next.drop_last() =~= pre);
                assert(next.last() == other.options@[i as int]);
                let key = other.options@[i as int].0@;
                assert forall|k: Seq<char>|
                    match #[trigger] bound_value(next, k) {
                        Some(v) => bound_value(self.options@, k) matches Some(w) && w@ == v@,
                        None => bound_value(self.options@, k) == bound_value(old(self).options@, k),
                    } by {
                    if k == key {
                        assert(last_binding(next, k) == Some(i as int));
                    } else {
                        assert(last_binding(next, k) == last_binding(pre, k));
                        lemma_last_binding(pre, k);
                        match last_binding(pre, k) {
                            Some(m) => assert(next[m] == pre[m]),
                            None => {},
                        }
                        assert(bound_value(next, k) == bound_value(pre, k));
                    }
                }
            }
            i = i + 1;
        }
        assert(other.options@.subrange(0, other.options@.len() as int) =~= other.options@);
        if other.timeout.is_some() {
            self.timeout = other.timeout;
        }
        match &other.sandbox {
            Some(s) => {
                self.sandbox = Some(copy_sandbox(s));
            },
            None => {},
        }
    }
}

impl Default for PluginConfig {
    fn default() -> (r: Self)
        ensures
            r.options@.len() == 0,
            !r.enabled,
            r.timeout is None,
            r.sandbox is None,
    {
        Self::new()
    }
}

impl ComposerPluginConfig {
    /// The configuration of a plugin.
    pub fn get_plugin_config(&self, plugin_id: &str) -> (r: Option<&PluginConfig>)
        ensures
            match bound_value(self.plugins@, plugin_id@) {
                Some(c) => r == Some(&c),
                None => r is None,
            },
    {
        proof {
            lemma_last_binding(self.plugins@, plugin_id@);
        }
        match find_binding(&self.plugins, plugin_id) {
            Some(i) => Some(&self.plugins[i].1),
            None => None,
        }
    }
}

} // verus!

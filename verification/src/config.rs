//! User settings read from `config.toml`, their defaults, and the rendering
//! workarounds they select.
use vstd::prelude::*;

use crate::text::{
    chars_of, is_white_space, lemma_trim_keeps_prefix, lemma_trim_leading_white_space, trim_bounds,
    trim_seq,
};

verus! {

/// Default user agent; the Chrome version is bumped each release.
pub const DEFAULT_UA: &'static str =
    "Mozilla/5.0 (X11; Linux x86_64) AppleWebKit/537.36 (KHTML, like Gecko) Chrome/143.0.0.0 Safari/537.36";

/// All keys are optional in the file; a missing key keeps its default.
#[derive(Clone, Debug)]
pub struct Config {
    pub user_agent: String,
    pub close_to_tray: bool,
    pub start_hidden: bool,
    /// Sets WEBKIT_DISABLE_DMABUF_RENDERER=1 before webview init (NVIDIA/Wayland glitches).
    pub disable_dmabuf_renderer: bool,
    /// Sets WEBKIT_DISABLE_COMPOSITING_MODE=1 before webview init.
    pub disable_compositing: bool,
    /// Sets WEBKIT_DMABUF_RENDERER_FORCE_SHM=1: GPU painting with shared-memory
    /// transport, between full GPU and software rendering.
    pub force_shm: bool,
    /// Auto-apply NVIDIA workarounds (explicit sync off on Wayland, NVDEC
    /// demoted) when an NVIDIA GPU is detected.
    pub nvidia_quirks: bool,
}

/// What a `Config` holds, with the user agent as characters.
pub struct ConfigView {
    pub user_agent: Seq<char>,
    pub close_to_tray: bool,
    pub start_hidden: bool,
    pub disable_dmabuf_renderer: bool,
    pub disable_compositing: bool,
    pub force_shm: bool,
    pub nvidia_quirks: bool,
}

impl View for Config {
    type V = ConfigView;

    open spec fn view(&self) -> ConfigView {
        ConfigView {
            user_agent: self.user_agent@,
            close_to_tray: self.close_to_tray,
            start_hidden: self.start_hidden,
            disable_dmabuf_renderer: self.disable_dmabuf_renderer,
            disable_compositing: self.disable_compositing,
            force_shm: self.force_shm,
            nvidia_quirks: self.nvidia_quirks,
        }
    }
}

/// The defaults: the built-in user agent, close to tray, NVIDIA quirks on,
/// everything else off.
pub open spec fn default_config() -> ConfigView {
    ConfigView {
        user_agent: DEFAULT_UA@,
        close_to_tray: true,
        start_hidden: false,
        disable_dmabuf_renderer: false,
        disable_compositing: false,
        force_shm: false,
        nvidia_quirks: true,
    }
}

impl Default for Config {
    fn default() -> (c: Self)
        ensures
            c@ == default_config(),
    {
        Config {
            user_agent: String::from_str(DEFAULT_UA),
            close_to_tray: true,
            start_hidden: false,
            disable_dmabuf_renderer: false,
            disable_compositing: false,
            force_shm: false,
            nvidia_quirks: true,
        }
    }
}

/// A top-level value of a TOML document, as far as the settings need it.
#[derive(Clone, Debug)]
pub enum TomlValue {
    Text(String),
    Flag(bool),
    /// A number, date, array or table.
    Other,
}

pub enum TomlValueView {
    Text(Seq<char>),
    Flag(bool),
    Other,
}

impl View for TomlValue {
    type V = TomlValueView;

    open spec fn view(&self) -> TomlValueView {
        match self {
            TomlValue::Text(s) => TomlValueView::Text(s@),
            TomlValue::Flag(b) => TomlValueView::Flag(*b),
            TomlValue::Other => TomlValueView::Other,
        }
    }
}

/// The top-level key/value pairs of a TOML document, or `None` when `text`
/// is not a TOML document (what `toml::from_str::<toml::Table>` decides).
pub uninterp spec fn toml_document(text: Seq<char>) -> Option<Seq<(Seq<char>, TomlValueView)>>;

pub open spec fn entries_view(e: Seq<(String, TomlValue)>) -> Seq<(Seq<char>, TomlValueView)> {
    e.map_values(|p: (String, TomlValue)| (p.0@, p.1@))
}

pub open spec fn document_view(d: Option<Vec<(String, TomlValue)>>) -> Option<
    Seq<(Seq<char>, TomlValueView)>,
> {
    match d {
        None => None,
        Some(e) => Some(entries_view(e@)),
    }
}

/// Parses `text` with `toml::from_str` into a `toml::Table` and lists its
/// top-level entries, each value reduced to its kind (strings and booleans
/// keep their value). The contract says only that the result is the one
/// named by `toml_document` for this text.
#[verifier::external_body]
fn parse_toml_document(text: &str) -> (r: Option<Vec<(String, TomlValue)>>)
    ensures
        document_view(r) == toml_document(text@),
{
    let table: toml::Table = toml::from_str(text).ok()?;
    Some(table.into_iter().map(|(k, v)| (k, match v {
        toml::Value::String(s) => TomlValue::Text(s),
        toml::Value::Boolean(b) => TomlValue::Flag(b),
        toml::Value::Integer(_) => TomlValue::Other,
        toml::Value::Float(_) => TomlValue::Other,
        toml::Value::Datetime(_) => TomlValue::Other,
        toml::Value::Array(_) => TomlValue::Other,
        toml::Value::Table(_) => TomlValue::Other,
    })).collect())
}

/// The value of the first entry named `key`.
pub open spec fn lookup(e: Seq<(Seq<char>, TomlValueView)>, key: Seq<char>) -> Option<TomlValueView>
    decreases e.len(),
{
    if e.len() == 0 {
        None
    } else if e[0].0 == key {
        Some(e[0].1)
    } else {
        lookup(e.drop_first(), key)
    }
}

/// A string setting: its value, the default when absent, `None` when the
/// key holds something that is not a string.
pub open spec fn text_setting(e: Seq<(Seq<char>, TomlValueView)>, key: Seq<char>, dflt: Seq<char>) -> Option<Seq<char>> {
    match lookup(e, key) {
        None => Some(dflt),
        Some(TomlValueView::Text(s)) => Some(s),
        Some(_) => None,
    }
}

/// A boolean setting: its value, the default when absent, `None` when the
/// key holds something that is not a boolean.
pub open spec fn flag_setting(e: Seq<(Seq<char>, TomlValueView)>, key: Seq<char>, dflt: bool) -> Option<bool> {
    match lookup(e, key) {
        None => Some(dflt),
        Some(TomlValueView::Flag(b)) => Some(b),
        Some(_) => None,
    }
}

/// Every known key that is present has the right type.
pub open spec fn settings_well_typed(e: Seq<(Seq<char>, TomlValueView)>) -> bool {
    let d = default_config();
    &&& text_setting(e, "user_agent"@, d.user_agent) is Some
    &&& flag_setting(e, "close_to_tray"@, d.close_to_tray) is Some
    &&& flag_setting(e, "start_hidden"@, d.start_hidden) is Some
    &&& flag_setting(e, "disable_dmabuf_renderer"@, d.disable_dmabuf_renderer) is Some
    &&& flag_setting(e, "disable_compositing"@, d.disable_compositing) is Some
    &&& flag_setting(e, "force_shm"@, d.force_shm) is Some
    &&& flag_setting(e, "nvidia_quirks"@, d.nvidia_quirks) is Some
}

/// The settings a document gives: each present key overrides its default,
/// unknown keys are ignored; a document that is not TOML, or where a known
/// key has the wrong type, gives the defaults throughout.
pub open spec fn config_from_document(doc: Option<Seq<(Seq<char>, TomlValueView)>>) -> ConfigView {
    let d = default_config();
    match doc {
        None => d,
        Some(e) => if settings_well_typed(e) {
            ConfigView {
                user_agent: text_setting(e, "user_agent"@, d.user_agent)->0,
                close_to_tray: flag_setting(e, "close_to_tray"@, d.close_to_tray)->0,
                start_hidden: flag_setting(e, "start_hidden"@, d.start_hidden)->0,
                disable_dmabuf_renderer: flag_setting(
                    e,
                    "disable_dmabuf_renderer"@,
                    d.disable_dmabuf_renderer,
                )->0,
                disable_compositing: flag_setting(
                    e,
                    "disable_compositing"@,
                    d.disable_compositing,
                )->0,
                force_shm: flag_setting(e, "force_shm"@, d.force_shm)->0,
                nvidia_quirks: flag_setting(e, "nvidia_quirks"@, d.nvidia_quirks)->0,
            }
        } else {
            d
        },
    }
}

fn find_entry<'a>(e: &'a Vec<(String, TomlValue)>, key: &str) -> (r: Option<&'a TomlValue>)
    ensures
        match r {
            None => lookup(entries_view(e@), key@) is None,
            Some(v) => lookup(entries_view(e@), key@) == Some(v@),
        },
{
    let ghost ev = entries_view(e@);
    let k = String::from_str(key);
    let mut i: usize = 0;
    assert(ev.skip(0) =~= ev);
    while i < e.len()
        invariant
            i <= e.len(),
            ev == entries_view(e@),
            k@ == key@,
            lookup(ev, key@) == lookup(ev.skip(i as int), key@),
        decreases e.len() - i,
    {
        let ghost rest = ev.skip(i as int);
        assert(rest[0] == (e@[i as int].0@, e@[i as int].1@));
        if e[i].0 == k {
            return Some(&e[i].1);
        }
        assert(rest.drop_first() =~= ev.skip(i + 1));
        i = i + 1;
    }
    assert(ev.skip(i as int).len() == 0);
    None
}

fn text_entry(e: &Vec<(String, TomlValue)>, key: &str, dflt: &str) -> (r: Option<String>)
    ensures
        match r {
            None => text_setting(entries_view(e@), key@, dflt@) is None,
            Some(s) => text_setting(entries_view(e@), key@, dflt@) == Some(s@),
        },
{
    match find_entry(e, key) {
        None => Some(String::from_str(dflt)),
        Some(TomlValue::Text(s)) => Some(s.clone()),
        Some(_) => None,
    }
}

fn flag_entry(e: &Vec<(String, TomlValue)>, key: &str, dflt: bool) -> (r: Option<bool>)
    ensures
        r == flag_setting(entries_view(e@), key@, dflt),
{
    match find_entry(e, key) {
        None => Some(dflt),
        Some(TomlValue::Flag(b)) => Some(*b),
        Some(_) => None,
    }
}

/// Why a configuration text was set aside for the defaults.
#[derive(Clone, Debug)]
pub enum ConfigError {
    /// The text is not a TOML document.
    NotToml,
    /// This known key holds a value of the wrong type.
    WrongType(String),
}

/// The first known key, in field order, whose value has the wrong type.
pub open spec fn first_mistyped_key(e: Seq<(Seq<char>, TomlValueView)>) -> Option<Seq<char>> {
    let d = default_config();
    if text_setting(e, "user_agent"@, d.user_agent) is None {
        Some("user_agent"@)
    } else if flag_setting(e, "close_to_tray"@, d.close_to_tray) is None {
        Some("close_to_tray"@)
    } else if flag_setting(e, "start_hidden"@, d.start_hidden) is None {
        Some("start_hidden"@)
    } else if flag_setting(e, "disable_dmabuf_renderer"@, d.disable_dmabuf_renderer) is None {
        Some("disable_dmabuf_renderer"@)
    } else if flag_setting(e, "disable_compositing"@, d.disable_compositing) is None {
        Some("disable_compositing"@)
    } else if flag_setting(e, "force_shm"@, d.force_shm) is None {
        Some("force_shm"@)
    } else if flag_setting(e, "nvidia_quirks"@, d.nvidia_quirks) is None {
        Some("nvidia_quirks"@)
    } else {
        None
    }
}

/// What reading a document gives: the settings, or why they are set aside.
pub open spec fn document_outcome(doc: Option<Seq<(Seq<char>, TomlValueView)>>, r: Result<Config, ConfigError>) -> bool {
    match doc {
        None => r matches Err(ConfigError::NotToml),
        Some(e) => match first_mistyped_key(e) {
            Some(k) => r matches Err(ConfigError::WrongType(key)) && key@ == k,
            None => r matches Ok(c) && c@ == config_from_document(doc),
        },
    }
}

fn mistyped(key: &str) -> (r: Result<Config, ConfigError>)
    ensures
        r matches Err(ConfigError::WrongType(k)) && k@ == key@,
{
    Err(ConfigError::WrongType(String::from_str(key)))
}

impl Config {
    /// The settings of an already parsed document (`None` for text that was
    /// not TOML), or why the document is set aside: not TOML, or the first
    /// known key that holds a value of the wrong type.
    pub fn try_from_document(doc: Option<Vec<(String, TomlValue)>>) -> (r: Result<Config, ConfigError>)
        ensures
            document_outcome(document_view(doc), r),
    {
        let e = match doc {
            None => {
                return Err(ConfigError::NotToml);
            },
            Some(e) => e,
        };
        let user_agent = match text_entry(&e, "user_agent", DEFAULT_UA) {
            Some(v) => v,
            None => return mistyped("user_agent"),
        };
        let close_to_tray = match flag_entry(&e, "close_to_tray", true) {
            Some(v) => v,
            None => return mistyped("close_to_tray"),
        };
        let start_hidden = match flag_entry(&e, "start_hidden", false) {
            Some(v) => v,
            None => return mistyped("start_hidden"),
        };
        let disable_dmabuf_renderer = match flag_entry(&e, "disable_dmabuf_renderer", false) {
            Some(v) => v,
            None => return mistyped("disable_dmabuf_renderer"),
        };
        let disable_compositing = match flag_entry(&e, "disable_compositing", false) {
            Some(v) => v,
            None => return mistyped("disable_compositing"),
        };
        let force_shm = match flag_entry(&e, "force_shm", false) {
            Some(v) => v,
            None => return mistyped("force_shm"),
        };
        let nvidia_quirks = match flag_entry(&e, "nvidia_quirks", true) {
            Some(v) => v,
            None => return mistyped("nvidia_quirks"),
        };
        Ok(
            Config {
                user_agent,
                close_to_tray,
                start_hidden,
                disable_dmabuf_renderer,
                disable_compositing,
                force_shm,
                nvidia_quirks,
            },
        )
    }

    /// The settings of an already parsed document; the defaults when it was
    /// not TOML or a known key has the wrong type.
    pub fn from_document(doc: Option<Vec<(String, TomlValue)>>) -> (c: Config)
        ensures
            c@ == config_from_document(document_view(doc)),
    {
        match Config::try_from_document(doc) {
            Ok(c) => c,
            Err(_) => Config::default(),
        }
    }

    /// Reads `config.toml` text, telling why it is set aside when it is.
    pub fn try_from_toml(s: &str) -> (r: Result<Config, ConfigError>)
        ensures
            document_outcome(toml_document(s@), r),
    {
        Config::try_from_document(parse_toml_document(s))
    }

    /// Reads the settings from the text of `config.toml`. Text that is not
    /// TOML, or gives a known key the wrong type, yields the defaults: the
    /// app never refuses to start over its configuration.
    pub fn from_toml(s: &str) -> (c: Config)
        ensures
            c@ == config_from_document(toml_document(s@)),
    {
        match Config::try_from_toml(s) {
            Ok(c) => c,
            Err(_) => Config::default(),
        }
    }
}

/// The PCI vendor id of NVIDIA, as the kernel writes it.
pub open spec fn nvidia_vendor_id() -> Seq<char> {
    seq!['0', 'x', '1', '0', 'd', 'e']
}

/// ASCII lower case; every other character is unchanged.
pub open spec fn ascii_lower(c: char) -> char {
    if 'A' <= c && c <= 'Z' {
        ((c as u32) + 32) as char
    } else {
        c
    }
}

/// `a` and `b` are equal up to ASCII case (`str::eq_ignore_ascii_case`).
pub open spec fn eq_ignore_ascii_case(a: Seq<char>, b: Seq<char>) -> bool {
    a.len() == b.len() && forall|i: int| 0 <= i < a.len() ==> ascii_lower(#[trigger] a[i]) == ascii_lower(b[i])
}

/// A sysfs `vendor` file names NVIDIA: trimmed, it reads `0x10de` in any
/// ASCII case.
pub open spec fn is_nvidia_vendor(v: Seq<char>) -> bool {
    eq_ignore_ascii_case(trim_seq(v), nvidia_vendor_id())
}

fn ascii_lower_exec(c: char) -> (r: char)
    ensures
        r == ascii_lower(c),
{
    if 'A' <= c && c <= 'Z' {
        ((c as u32 + 32) as u8) as char
    } else {
        c
    }
}

fn is_nvidia_vendor_exec(v: &String) -> (b: bool)
    ensures
        b == is_nvidia_vendor(v@),
{
    let s = chars_of(v.as_str());
    let (lo, hi) = trim_bounds(&s);
    let ghost t = s@.subrange(lo as int, hi as int);
    let pat: Vec<char> = vec!['0', 'x', '1', '0', 'd', 'e'];
    assert(pat@ =~= nvidia_vendor_id());
    if hi - lo != pat.len() {
        return false;
    }
    let mut i: usize = 0;
    while i < pat.len()
        invariant
            lo <= hi <= s.len(),
            hi - lo == pat.len(),
            t == s@.subrange(lo as int, hi as int),
            t == trim_seq(v@),
            pat@ == nvidia_vendor_id(),
            i <= pat.len(),
            forall|j: int| 0 <= j < i ==> ascii_lower(#[trigger] t[j]) == ascii_lower(pat@[j]),
        decreases pat.len() - i,
    {
        if ascii_lower_exec(s[lo + i]) != ascii_lower_exec(pat[i]) {
            assert(ascii_lower(t[i as int]) != ascii_lower(pat@[i as int]));
            return false;
        }
        i = i + 1;
    }
    true
}

/// True if any DRM device vendor id is NVIDIA (0x10de).
pub fn is_nvidia_vendor_list(vendors: &[String]) -> (b: bool)
    ensures
        b == exists|i: int| 0 <= i < vendors@.len() && #[trigger] is_nvidia_vendor(vendors@[i]@),
{
    let mut i: usize = 0;
    while i < vendors.len()
        invariant
            i <= vendors@.len(),
            forall|j: int| 0 <= j < i ==> !#[trigger] is_nvidia_vendor(vendors@[j]@),
        decreases vendors@.len() - i,
    {
        if is_nvidia_vendor_exec(&vendors[i]) {
            return true;
        }
        i = i + 1;
    }
    false
}

/// What the host looks like when the workarounds are chosen.
pub struct HostEnv {
    /// An NVIDIA GPU was detected (only looked for when the quirks are on).
    pub nvidia_gpu: bool,
    /// `WAYLAND_DISPLAY` is set.
    pub wayland: bool,
    /// `__NV_DISABLE_EXPLICIT_SYNC` is already set by the user.
    pub explicit_sync_set: bool,
    /// `GST_PLUGIN_FEATURE_RANK` is already set by the user.
    pub feature_rank_set: bool,
}

/// The NVIDIA decoders demoted so GStreamer picks openh264.
pub open spec fn demoted_decoders() -> Seq<char> {
    "nvh264dec:NONE,nvh265dec:NONE,nvav1dec:NONE"@
}

/// One assignment, or none.
pub open spec fn assign_if(c: bool, name: Seq<char>, value: Seq<char>) -> Seq<(Seq<char>, Seq<char>)> {
    if c {
        seq![(name, value)]
    } else {
        seq![]
    }
}

/// The environment variables to set before GTK/WebKit start, in order.
/// The NVIDIA ones only with the quirks on and an NVIDIA GPU present, and
/// never over a value the user set.
pub open spec fn env_assignments(c: ConfigView, h: HostEnv) -> Seq<(Seq<char>, Seq<char>)> {
    let nv = c.nvidia_quirks && h.nvidia_gpu;
    assign_if(c.disable_dmabuf_renderer, "WEBKIT_DISABLE_DMABUF_RENDERER"@, "1"@)
        + assign_if(c.disable_compositing, "WEBKIT_DISABLE_COMPOSITING_MODE"@, "1"@)
        + assign_if(c.force_shm, "WEBKIT_DMABUF_RENDERER_FORCE_SHM"@, "1"@)
        + assign_if(nv && h.wayland && !h.explicit_sync_set, "__NV_DISABLE_EXPLICIT_SYNC"@, "1"@)
        + assign_if(nv && !h.feature_rank_set, "GST_PLUGIN_FEATURE_RANK"@, demoted_decoders())
}

pub open spec fn assignments_view(v: Seq<(String, String)>) -> Seq<(Seq<char>, Seq<char>)> {
    v.map_values(|p: (String, String)| (p.0@, p.1@))
}

fn push_assignment(out: &mut Vec<(String, String)>, c: bool, name: &str, value: &str)
    ensures
        assignments_view(final(out)@) == assignments_view(old(out)@) + assign_if(c, name@, value@),
{
    if c {
        out.push((String::from_str(name), String::from_str(value)));
        assert(assignments_view(out@) =~= assignments_view(old(out)@) + assign_if(c, name@, value@));
    } else {
        assert(assign_if(c, name@, value@) =~= Seq::<(Seq<char>, Seq<char>)>::empty());
        assert(assignments_view(out@) =~= assignments_view(old(out)@) + assign_if(c, name@, value@));
    }
}

impl Config {
    /// The workarounds this configuration asks for on host `h`, as
    /// `(variable, value)` pairs for the caller to set before any GTK/WebKit
    /// initialization.
    pub fn env_workarounds(&self, h: &HostEnv) -> (out: Vec<(String, String)>)
        ensures
            assignments_view(out@) == env_assignments(self@, *h),
    {
        let mut out: Vec<(String, String)> = Vec::new();
        let nv = self.nvidia_quirks && h.nvidia_gpu;
        assert(assignments_view(out@) =~= Seq::<(Seq<char>, Seq<char>)>::empty());
        push_assignment(&mut out, self.disable_dmabuf_renderer, "WEBKIT_DISABLE_DMABUF_RENDERER", "1");
        push_assignment(&mut out, self.disable_compositing, "WEBKIT_DISABLE_COMPOSITING_MODE", "1");
        push_assignment(&mut out, self.force_shm, "WEBKIT_DMABUF_RENDERER_FORCE_SHM", "1");
        push_assignment(&mut out, nv && h.wayland && !h.explicit_sync_set, "__NV_DISABLE_EXPLICIT_SYNC", "1");
        push_assignment(
            &mut out,
            nv && !h.feature_rank_set,
            "GST_PLUGIN_FEATURE_RANK",
            "nvh264dec:NONE,nvh265dec:NONE,nvav1dec:NONE",
        );
        out
    }
}

/// Text that is not TOML gives the defaults.
pub proof fn lemma_unparsable_text_gives_defaults(text: Seq<char>)
    requires
        toml_document(text) is None,
    ensures
        config_from_document(toml_document(text)) == default_config(),
{
}

/// A document where a known key has the wrong type gives the defaults for
/// every setting, not only for that key.
pub proof fn lemma_mistyped_key_gives_defaults(e: Seq<(Seq<char>, TomlValueView)>)
    requires
        !settings_well_typed(e),
    ensures
        config_from_document(Some(e)) == default_config(),
{
}

/// In a well-typed document every setting is the value written for it, and
/// the default where the key is absent: a partial file fills the rest with
/// defaults.
pub proof fn lemma_absent_keys_keep_defaults(e: Seq<(Seq<char>, TomlValueView)>)
    requires
        settings_well_typed(e),
    ensures
        lookup(e, "user_agent"@) is None ==> config_from_document(Some(e)).user_agent == DEFAULT_UA@,
        lookup(e, "close_to_tray"@) is None ==> config_from_document(Some(e)).close_to_tray,
        lookup(e, "start_hidden"@) is None ==> !config_from_document(Some(e)).start_hidden,
        lookup(e, "disable_dmabuf_renderer"@) is None
            ==> !config_from_document(Some(e)).disable_dmabuf_renderer,
        lookup(e, "disable_compositing"@) is None
            ==> !config_from_document(Some(e)).disable_compositing,
        lookup(e, "force_shm"@) is None ==> !config_from_document(Some(e)).force_shm,
        lookup(e, "nvidia_quirks"@) is None ==> config_from_document(Some(e)).nvidia_quirks,
        lookup(e, "user_agent"@) matches Some(TomlValueView::Text(s))
            ==> config_from_document(Some(e)).user_agent == s,
        lookup(e, "start_hidden"@) matches Some(TomlValueView::Flag(b))
            ==> config_from_document(Some(e)).start_hidden == b,
{
}

/// Each setting is read from its own key alone: in a document where every
/// known key is absent or holds a value of its type, each flag is the
/// boolean written for it and the user agent the string written for it;
/// an absent key gives that setting's default. No other key changes it.
pub proof fn lemma_each_key_read_on_its_own(e: Seq<(Seq<char>, TomlValueView)>)
    requires
        lookup(e, "user_agent"@) is None || lookup(e, "user_agent"@) matches Some(
            TomlValueView::Text(_),
        ),
        lookup(e, "close_to_tray"@) is None || lookup(e, "close_to_tray"@) matches Some(
            TomlValueView::Flag(_),
        ),
        lookup(e, "start_hidden"@) is None || lookup(e, "start_hidden"@) matches Some(
            TomlValueView::Flag(_),
        ),
        lookup(e, "disable_dmabuf_renderer"@) is None || lookup(
            e,
            "disable_dmabuf_renderer"@,
        ) matches Some(TomlValueView::Flag(_)),
        lookup(e, "disable_compositing"@) is None || lookup(e, "disable_compositing"@) matches Some(
            TomlValueView::Flag(_),
        ),
        lookup(e, "force_shm"@) is None || lookup(e, "force_shm"@) matches Some(
            TomlValueView::Flag(_),
        ),
        lookup(e, "nvidia_quirks"@) is None || lookup(e, "nvidia_quirks"@) matches Some(
            TomlValueView::Flag(_),
        ),
    ensures
        ({
            let c = config_from_document(Some(e));
            &&& (match lookup(e, "user_agent"@) {
                Some(TomlValueView::Text(v)) => c.user_agent == v,
                _ => c.user_agent == DEFAULT_UA@,
            })
            &&& (match lookup(e, "close_to_tray"@) {
                Some(TomlValueView::Flag(b)) => c.close_to_tray == b,
                _ => c.close_to_tray == true,
            })
            &&& (match lookup(e, "start_hidden"@) {
                Some(TomlValueView::Flag(b)) => c.start_hidden == b,
                _ => c.start_hidden == false,
            })
            &&& (match lookup(e, "disable_dmabuf_renderer"@) {
                Some(TomlValueView::Flag(b)) => c.disable_dmabuf_renderer == b,
                _ => c.disable_dmabuf_renderer == false,
            })
            &&& (match lookup(e, "disable_compositing"@) {
                Some(TomlValueView::Flag(b)) => c.disable_compositing == b,
                _ => c.disable_compositing == false,
            })
            &&& (match lookup(e, "force_shm"@) {
                Some(TomlValueView::Flag(b)) => c.force_shm == b,
                _ => c.force_shm == false,
            })
            &&& (match lookup(e, "nvidia_quirks"@) {
                Some(TomlValueView::Flag(b)) => c.nvidia_quirks == b,
                _ => c.nvidia_quirks == true,
            })
        }),
{
}

/// A document with only the key `key` set to a boolean.
pub open spec fn single_flag(key: Seq<char>, b: bool) -> Seq<(Seq<char>, TomlValueView)> {
    seq![(key, TomlValueView::Flag(b))]
}

proof fn lemma_lookup_single(k: Seq<char>, v: TomlValueView, key: Seq<char>)
    ensures
        lookup(seq![(k, v)], key) == if k == key {
            Some(v)
        } else {
            None
        },
{
    let e = seq![(k, v)];
    assert(e.drop_first() =~= Seq::<(Seq<char>, TomlValueView)>::empty());
    assert(lookup(e.drop_first(), key) is None);
}

/// A file holding just `disable_dmabuf_renderer = b` (what the crash
/// notification tells users to write) gives that value, and every other
/// setting its default.
pub proof fn lemma_lone_dmabuf_key_is_honoured(b: bool)
    ensures
        config_from_document(Some(single_flag("disable_dmabuf_renderer"@, b))).disable_dmabuf_renderer
            == b,
        config_from_document(Some(single_flag("disable_dmabuf_renderer"@, b))).disable_compositing
            == false,
        config_from_document(Some(single_flag("disable_dmabuf_renderer"@, b))).close_to_tray,
{
    let e = single_flag("disable_dmabuf_renderer"@, b);
    reveal_strlit("disable_dmabuf_renderer");
    reveal_strlit("user_agent");
    reveal_strlit("close_to_tray");
    reveal_strlit("start_hidden");
    reveal_strlit("disable_compositing");
    reveal_strlit("force_shm");
    reveal_strlit("nvidia_quirks");
    assert(e.drop_first() =~= Seq::<(Seq<char>, TomlValueView)>::empty());
    assert("disable_dmabuf_renderer"@.len() == 23);
    assert("user_agent"@.len() == 10);
    assert("close_to_tray"@.len() == 13);
    assert("start_hidden"@.len() == 12);
    assert("disable_compositing"@.len() == 19);
    assert("force_shm"@.len() == 9);
    assert("nvidia_quirks"@.len() == 13);
    assert("disable_dmabuf_renderer"@ != "user_agent"@);
    assert("disable_dmabuf_renderer"@ != "close_to_tray"@);
    assert("disable_dmabuf_renderer"@ != "start_hidden"@);
    assert("disable_dmabuf_renderer"@ != "disable_compositing"@);
    assert("disable_dmabuf_renderer"@ != "force_shm"@);
    assert("disable_dmabuf_renderer"@ != "nvidia_quirks"@);
    let k = "disable_dmabuf_renderer"@;
    let v = TomlValueView::Flag(b);
    lemma_lookup_single(k, v, "user_agent"@);
    lemma_lookup_single(k, v, "close_to_tray"@);
    lemma_lookup_single(k, v, "start_hidden"@);
    lemma_lookup_single(k, v, "disable_dmabuf_renderer"@);
    lemma_lookup_single(k, v, "disable_compositing"@);
    lemma_lookup_single(k, v, "force_shm"@);
    lemma_lookup_single(k, v, "nvidia_quirks"@);
    lemma_each_key_read_on_its_own(e);
}

proof fn lemma_contains_concat(a: Seq<(Seq<char>, Seq<char>)>, b: Seq<(Seq<char>, Seq<char>)>, x: (Seq<char>, Seq<char>))
    ensures
        (a + b).contains(x) <==> a.contains(x) || b.contains(x),
{
    if a.contains(x) {
        let i = choose|i: int| 0 <= i < a.len() && a[i] == x;
        assert((a + b)[i] == x);
    }
    if b.contains(x) {
        let i = choose|i: int| 0 <= i < b.len() && b[i] == x;
        assert((a + b)[a.len() + i] == x);
    }
    if (a + b).contains(x) {
        let i = choose|i: int| 0 <= i < (a + b).len() && (a + b)[i] == x;
        if i < a.len() {
            assert(a[i] == x);
        } else {
            assert(b[i - a.len()] == x);
        }
    }
}

proof fn lemma_contains_assign_if(c: bool, n: Seq<char>, v: Seq<char>, x: (Seq<char>, Seq<char>))
    ensures
        assign_if(c, n, v).contains(x) <==> c && x == (n, v),
{
    if c {
        assert(assign_if(c, n, v)[0] == (n, v));
    }
}

/// Which workarounds are chosen, each on its own condition: a fallback
/// switch of the configuration sets its WebKit variable; explicit sync is
/// disabled exactly with the quirks on, an NVIDIA GPU, a Wayland session
/// and no value of the user's; the NVIDIA decoders are demoted exactly with
/// the quirks on, an NVIDIA GPU and no value of the user's, whatever the
/// session or the explicit-sync variable.
pub proof fn lemma_each_workaround_on_its_own_condition(c: ConfigView, h: HostEnv)
    ensures
        env_assignments(c, h).contains(("WEBKIT_DISABLE_DMABUF_RENDERER"@, "1"@))
            <==> c.disable_dmabuf_renderer,
        env_assignments(c, h).contains(("WEBKIT_DISABLE_COMPOSITING_MODE"@, "1"@))
            <==> c.disable_compositing,
        env_assignments(c, h).contains(("WEBKIT_DMABUF_RENDERER_FORCE_SHM"@, "1"@))
            <==> c.force_shm,
        env_assignments(c, h).contains(("__NV_DISABLE_EXPLICIT_SYNC"@, "1"@)) <==> c.nvidia_quirks
            && h.nvidia_gpu && h.wayland && !h.explicit_sync_set,
        env_assignments(c, h).contains(
            ("GST_PLUGIN_FEATURE_RANK"@, "nvh264dec:NONE,nvh265dec:NONE,nvav1dec:NONE"@),
        ) <==> c.nvidia_quirks && h.nvidia_gpu && !h.feature_rank_set,
{
    let names = seq![
        "WEBKIT_DISABLE_DMABUF_RENDERER"@,
        "WEBKIT_DISABLE_COMPOSITING_MODE"@,
        "WEBKIT_DMABUF_RENDERER_FORCE_SHM"@,
        "__NV_DISABLE_EXPLICIT_SYNC"@,
        "GST_PLUGIN_FEATURE_RANK"@,
    ];
    reveal_strlit("__NV_DISABLE_EXPLICIT_SYNC");
    reveal_strlit("GST_PLUGIN_FEATURE_RANK");
    reveal_strlit("WEBKIT_DISABLE_DMABUF_RENDERER");
    reveal_strlit("WEBKIT_DISABLE_COMPOSITING_MODE");
    reveal_strlit("WEBKIT_DMABUF_RENDERER_FORCE_SHM");
    assert("__NV_DISABLE_EXPLICIT_SYNC"@.len() == 26);
    assert("GST_PLUGIN_FEATURE_RANK"@.len() == 23);
    assert("WEBKIT_DISABLE_DMABUF_RENDERER"@.len() == 30);
    assert("WEBKIT_DISABLE_COMPOSITING_MODE"@.len() == 31);
    assert("WEBKIT_DMABUF_RENDERER_FORCE_SHM"@.len() == 32);
    let nv = c.nvidia_quirks && h.nvidia_gpu;
    let one = "1"@;
    let p1 = assign_if(c.disable_dmabuf_renderer, names[0], one);
    let p2 = assign_if(c.disable_compositing, names[1], one);
    let p3 = assign_if(c.force_shm, names[2], one);
    let p4 = assign_if(nv && h.wayland && !h.explicit_sync_set, names[3], one);
    let p5 = assign_if(nv && !h.feature_rank_set, names[4], demoted_decoders());
    assert(env_assignments(c, h) == p1 + p2 + p3 + p4 + p5);
    assert forall|x: (Seq<char>, Seq<char>)|
        #![trigger env_assignments(c, h).contains(x)]
        env_assignments(c, h).contains(x) <==> p1.contains(x) || p2.contains(x) || p3.contains(x)
            || p4.contains(x) || p5.contains(x) by {
        lemma_contains_concat(p1, p2, x);
        lemma_contains_concat(p1 + p2, p3, x);
        lemma_contains_concat(p1 + p2 + p3, p4, x);
        lemma_contains_concat(p1 + p2 + p3 + p4, p5, x);
    }
    assert forall|x: (Seq<char>, Seq<char>)|
        #![trigger env_assignments(c, h).contains(x)]
        env_assignments(c, h).contains(x) ==> x == (names[0], one) && c.disable_dmabuf_renderer
            || x == (names[1], one) && c.disable_compositing || x == (names[2], one)
            && c.force_shm || x == (names[3], one) && nv && h.wayland && !h.explicit_sync_set
            || x == (names[4], demoted_decoders()) && nv && !h.feature_rank_set by {
        lemma_contains_assign_if(c.disable_dmabuf_renderer, names[0], one, x);
        lemma_contains_assign_if(c.disable_compositing, names[1], one, x);
        lemma_contains_assign_if(c.force_shm, names[2], one, x);
        lemma_contains_assign_if(nv && h.wayland && !h.explicit_sync_set, names[3], one, x);
        lemma_contains_assign_if(nv && !h.feature_rank_set, names[4], demoted_decoders(), x);
    }
    let xs = seq![
        (names[0], one),
        (names[1], one),
        (names[2], one),
        (names[3], one),
        (names[4], demoted_decoders()),
    ];
    lemma_contains_assign_if(c.disable_dmabuf_renderer, names[0], one, xs[0]);
    lemma_contains_assign_if(c.disable_compositing, names[1], one, xs[1]);
    lemma_contains_assign_if(c.force_shm, names[2], one, xs[2]);
    lemma_contains_assign_if(nv && h.wayland && !h.explicit_sync_set, names[3], one, xs[3]);
    lemma_contains_assign_if(nv && !h.feature_rank_set, names[4], demoted_decoders(), xs[4]);
    assert(env_assignments(c, h).contains(xs[0]) ==> c.disable_dmabuf_renderer);
    assert(env_assignments(c, h).contains(xs[1]) ==> c.disable_compositing);
    assert(env_assignments(c, h).contains(xs[2]) ==> c.force_shm);
    assert(env_assignments(c, h).contains(xs[3]) ==> nv && h.wayland && !h.explicit_sync_set);
    assert(env_assignments(c, h).contains(xs[4]) ==> nv && !h.feature_rank_set);
}

/// No assignment in `a` is to the variable `name`.
pub open spec fn never_assigns(a: Seq<(Seq<char>, Seq<char>)>, name: Seq<char>) -> bool {
    forall|i: int| 0 <= i < a.len() ==> (#[trigger] a[i]).0 != name
}

proof fn lemma_never_assigns_concat(a: Seq<(Seq<char>, Seq<char>)>, b: Seq<(Seq<char>, Seq<char>)>, name: Seq<char>)
    requires
        never_assigns(a, name),
        never_assigns(b, name),
    ensures
        never_assigns(a + b, name),
{
    assert forall|i: int| 0 <= i < (a + b).len() implies (#[trigger] (a + b)[i]).0 != name by {
        if i < a.len() {
            assert((a + b)[i] == a[i]);
        } else {
            assert((a + b)[i] == b[i - a.len()]);
        }
    }
}

proof fn lemma_assign_if_avoids(c: bool, n: Seq<char>, v: Seq<char>, name: Seq<char>)
    requires
        !c || n != name,
    ensures
        never_assigns(assign_if(c, n, v), name),
{
}

/// The NVIDIA workarounds never overwrite a variable the user already set,
/// and with the quirks off no NVIDIA variable is chosen at all.
pub proof fn lemma_workarounds_respect_user_env(c: ConfigView, h: HostEnv)
    ensures
        h.explicit_sync_set || !c.nvidia_quirks ==> never_assigns(
            env_assignments(c, h),
            "__NV_DISABLE_EXPLICIT_SYNC"@,
        ),
        h.feature_rank_set || !c.nvidia_quirks ==> never_assigns(
            env_assignments(c, h),
            "GST_PLUGIN_FEATURE_RANK"@,
        ),
{
    reveal_strlit("__NV_DISABLE_EXPLICIT_SYNC");
    reveal_strlit("GST_PLUGIN_FEATURE_RANK");
    reveal_strlit("WEBKIT_DISABLE_DMABUF_RENDERER");
    reveal_strlit("WEBKIT_DISABLE_COMPOSITING_MODE");
    reveal_strlit("WEBKIT_DMABUF_RENDERER_FORCE_SHM");
    assert("__NV_DISABLE_EXPLICIT_SYNC"@.len() == 26);
    assert("GST_PLUGIN_FEATURE_RANK"@.len() == 23);
    assert("WEBKIT_DISABLE_DMABUF_RENDERER"@.len() == 30);
    assert("WEBKIT_DISABLE_COMPOSITING_MODE"@.len() == 31);
    assert("WEBKIT_DMABUF_RENDERER_FORCE_SHM"@.len() == 32);
    let nv = c.nvidia_quirks && h.nvidia_gpu;
    let one = "1"@;
    let p1 = assign_if(c.disable_dmabuf_renderer, "WEBKIT_DISABLE_DMABUF_RENDERER"@, one);
    let p2 = assign_if(c.disable_compositing, "WEBKIT_DISABLE_COMPOSITING_MODE"@, one);
    let p3 = assign_if(c.force_shm, "WEBKIT_DMABUF_RENDERER_FORCE_SHM"@, one);
    let p4 = assign_if(nv && h.wayland && !h.explicit_sync_set, "__NV_DISABLE_EXPLICIT_SYNC"@, one);
    let p5 = assign_if(nv && !h.feature_rank_set, "GST_PLUGIN_FEATURE_RANK"@, demoted_decoders());
    assert(env_assignments(c, h) == p1 + p2 + p3 + p4 + p5);
    if h.explicit_sync_set || !c.nvidia_quirks {
        let name = "__NV_DISABLE_EXPLICIT_SYNC"@;
        lemma_assign_if_avoids(c.disable_dmabuf_renderer, "WEBKIT_DISABLE_DMABUF_RENDERER"@, one, name);
        lemma_assign_if_avoids(c.disable_compositing, "WEBKIT_DISABLE_COMPOSITING_MODE"@, one, name);
        lemma_assign_if_avoids(c.force_shm, "WEBKIT_DMABUF_RENDERER_FORCE_SHM"@, one, name);
        lemma_assign_if_avoids(nv && h.wayland && !h.explicit_sync_set, name, one, name);
        lemma_assign_if_avoids(nv && !h.feature_rank_set, "GST_PLUGIN_FEATURE_RANK"@, demoted_decoders(), name);
        lemma_never_assigns_concat(p1, p2, name);
        lemma_never_assigns_concat(p1 + p2, p3, name);
        lemma_never_assigns_concat(p1 + p2 + p3, p4, name);
        lemma_never_assigns_concat(p1 + p2 + p3 + p4, p5, name);
    }
    if h.feature_rank_set || !c.nvidia_quirks {
        let name = "GST_PLUGIN_FEATURE_RANK"@;
        lemma_assign_if_avoids(c.disable_dmabuf_renderer, "WEBKIT_DISABLE_DMABUF_RENDERER"@, one, name);
        lemma_assign_if_avoids(c.disable_compositing, "WEBKIT_DISABLE_COMPOSITING_MODE"@, one, name);
        lemma_assign_if_avoids(c.force_shm, "WEBKIT_DMABUF_RENDERER_FORCE_SHM"@, one, name);
        lemma_assign_if_avoids(nv && h.wayland && !h.explicit_sync_set, "__NV_DISABLE_EXPLICIT_SYNC"@, one, name);
        lemma_assign_if_avoids(nv && !h.feature_rank_set, name, demoted_decoders(), name);
        lemma_never_assigns_concat(p1, p2, name);
        lemma_never_assigns_concat(p1 + p2, p3, name);
        lemma_never_assigns_concat(p1 + p2 + p3, p4, name);
        lemma_never_assigns_concat(p1 + p2 + p3 + p4, p5, name);
    }
}

/// A vendor file reading `0x10de` in any ASCII case, with any white space
/// around it, names NVIDIA; one with a different id (after trimming, not six
/// characters, or differing from `0x10de` beyond case) does not. A list is
/// NVIDIA as soon as one of its entries is.
pub proof fn lemma_nvidia_vendor_forms(lead: Seq<char>, id: Seq<char>, trail: Seq<char>, vendors: Seq<Seq<char>>, k: int)
    requires
        forall|i: int| 0 <= i < lead.len() ==> is_white_space(#[trigger] lead[i]),
        forall|i: int| 0 <= i < trail.len() ==> is_white_space(#[trigger] trail[i]),
        id.len() == 6,
        !is_white_space(id[0]),
        !is_white_space(id[5]),
    ensures
        is_nvidia_vendor(lead + id + trail) <==> forall|i: int|
            0 <= i < 6 ==> ascii_lower(#[trigger] id[i]) == seq!['0', 'x', '1', '0', 'd', 'e'][i],
        0 <= k < vendors.len() && is_nvidia_vendor(vendors[k]) ==> exists|i: int|
            0 <= i < vendors.len() && #[trigger] is_nvidia_vendor(vendors[i]),
{
    let body = id + trail;
    assert(lead + id + trail =~= lead + body);
    lemma_trim_leading_white_space(lead, body);
    let h = lemma_trim_keeps_prefix(body);
    assert(body[5] == id[5]);
    assert(h >= 6);
    if h > 6 {
        assert(body[h - 1] == trail[h - 7]);
        assert(is_white_space(trail[h - 7]));
    }
    assert(trim_seq(body) =~= id) by {
        assert(body.take(6) =~= id);
    }
    let pat = seq!['0', 'x', '1', '0', 'd', 'e'];
    assert(nvidia_vendor_id() == pat);
    assert forall|i: int| 0 <= i < 6 implies ascii_lower(pat[i]) == pat[i] by {}
}

} // verus!

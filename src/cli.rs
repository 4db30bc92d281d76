use vstd::prelude::*;
use crate::channel::{opt_chars, section_view, select_topics, selected_topics, ConfigSection, YTTopic};

verus! {

#[verifier::external_type_specification]
#[verifier::external_body]
pub struct ExIni(configparser::ini::Ini);

/// What a loaded configuration holds: each section by name, each with its
/// keys and their values (a key may stand without one).
pub uninterp spec fn ini_sections(ini: configparser::ini::Ini) -> Map<
    Seq<char>,
    Map<Seq<char>, Option<Seq<char>>>,
>;

/// What `Ini::getboolcoerce` reads for a section and key: `Some(Some(b))` for
/// a value it reads as a boolean, `Some(None)` for none, `None` for a value it
/// cannot read.
pub uninterp spec fn ini_bool(
    ini: configparser::ini::Ini,
    section: Seq<char>,
    key: Seq<char>,
) -> Option<Option<bool>>;

/// The lines of one section list exactly the keys and values of `m`, each key
/// once.
pub open spec fn entries_match(
    es: Seq<(String, Option<String>)>,
    m: Map<Seq<char>, Option<Seq<char>>>,
) -> bool {
    &&& forall|i: int, j: int| 0 <= i < j < es.len() ==> es[i].0@ != es[j].0@
    &&& forall|i: int|
        0 <= i < es.len() ==> m.contains_key(#[trigger] es[i].0@) && m[es[i].0@] == opt_chars(
            es[i].1,
        )
    &&& forall|k: Seq<char>|
        #[trigger] m.contains_key(k) ==> exists|i: int| 0 <= i < es.len() && es[i].0@ == k
}

/// The sections list exactly the sections of `m`, each once.
pub open spec fn sections_match(
    ss: Seq<ConfigSection>,
    m: Map<Seq<char>, Map<Seq<char>, Option<Seq<char>>>>,
) -> bool {
    &&& forall|i: int, j: int| 0 <= i < j < ss.len() ==> ss[i].name@ != ss[j].name@
    &&& forall|i: int|
        0 <= i < ss.len() ==> m.contains_key(#[trigger] ss[i].name@) && entries_match(
            ss[i].entries@,
            m[ss[i].name@],
        )
    &&& forall|k: Seq<char>|
        #[trigger] m.contains_key(k) ==> exists|i: int| 0 <= i < ss.len() && ss[i].name@ == k
}

/// Relies on `Ini::get_map`: a copy of every section with its keys and values,
/// nothing for an empty configuration. It is a hash map, so sections and keys
/// come in no fixed order.
#[verifier::external_body]
fn config_sections(ini: &configparser::ini::Ini) -> (r: Vec<ConfigSection>)
    ensures
        sections_match(r@, ini_sections(*ini)),
{
    ini.get_map().unwrap_or_default().into_iter().map(
        |(name, entries)| ConfigSection { name, entries: entries.into_iter().collect() },
    ).collect()
}

/// Relies on `Ini::getboolcoerce`: a value read as a boolean, `Err` (here
/// `None`) for one it cannot read.
#[verifier::external_body]
fn config_bool(ini: &configparser::ini::Ini, section: &str, key: &str) -> (r: Option<Option<bool>>)
    ensures
        r == ini_bool(*ini, section@, key@),
{
    ini.getboolcoerce(section, key).ok()
}

/// A switch of the configuration: on unless it is set and reads as false.
pub open spec fn switch_of(r: Option<Option<bool>>) -> bool {
    match r {
        Some(Some(b)) => b,
        _ => true,
    }
}

pub fn switch_value(r: Option<Option<bool>>) -> (b: bool)
    ensures
        b == switch_of(r),
{
    match r {
        Some(Some(b)) => b,
        _ => true,
    }
}

pub open spec fn thumbnails_key() -> Seq<char> {
    "preview.thumbnails.enable"@
}

pub open spec fn preview_key() -> Seq<char> {
    "preview.enable"@
}

/// The browser's settings: the loaded configuration, and whether thumbnails
/// are drawn.
pub struct YTCli {
    pub config: configparser::ini::Ini,
    pub thumbnails: bool,
}

impl YTCli {
    /// Thumbnails are drawn when the configuration leaves them on and an
    /// overlay program is there to draw them.
    pub fn new(config: configparser::ini::Ini, overlay_available: bool) -> (r: YTCli)
        ensures
            r.config == config,
            r.thumbnails == (switch_of(ini_bool(config, "default"@, thumbnails_key()))
                && overlay_available),
    {
        let on = switch_value(config_bool(&config, "default", "preview.thumbnails.enable"));
        YTCli { config, thumbnails: on && overlay_available }
    }

    /// The configured topics that the filter selects (see `select_topics`),
    /// in the order in which the configuration hands its sections out.
    pub fn topics(&self, filter: &str) -> (r: Vec<YTTopic>)
        ensures
            exists|ss: Seq<ConfigSection>|
                #[trigger] sections_match(ss, ini_sections(self.config)) && r@.map_values(
                    |t: YTTopic| t@,
                ) == selected_topics(ss.map_values(|s: ConfigSection| section_view(s)), filter@),
    {
        let sections = config_sections(&self.config);
        let r = select_topics(&sections, filter);
        assert(sections_match(sections@, ini_sections(self.config)));
        r
    }

    /// Whether the selection list shows a preview pane.
    pub fn preview_enabled(&self) -> (r: bool)
        ensures
            r == switch_of(ini_bool(self.config, "default"@, preview_key())),
    {
        switch_value(config_bool(&self.config, "default", "preview.enable"))
    }

    /// Whether thumbnails are drawn in the preview pane.
    pub fn thumbnails_enabled(&self) -> (r: bool)
        ensures
            r == self.thumbnails,
    {
        self.thumbnails
    }
}

} // verus!

use vstd::prelude::*;
use crate::text::{char_is_space, is_space};

verus! {

/// A video-publishing source, with a display name when the configuration
/// gives one.
pub struct YTChannel {
    pub id: String,
    pub name: Option<String>,
}

/// A named group of channels.
pub struct YTTopic {
    pub name: String,
    pub channels: Vec<YTChannel>,
}

/// One section of the configuration: its name and its `key = value` lines, a
/// key without a value standing alone.
pub struct ConfigSection {
    pub name: String,
    pub entries: Vec<(String, Option<String>)>,
}

pub struct ChannelView {
    pub id: Seq<char>,
    pub name: Option<Seq<char>>,
}

pub struct TopicView {
    pub name: Seq<char>,
    pub channels: Seq<ChannelView>,
}

pub open spec fn opt_chars(o: Option<String>) -> Option<Seq<char>> {
    match o {
        Some(s) => Some(s@),
        None => None,
    }
}

impl View for YTChannel {
    type V = ChannelView;

    open spec fn view(&self) -> ChannelView {
        ChannelView { id: self.id@, name: opt_chars(self.name) }
    }
}

impl View for YTTopic {
    type V = TopicView;

    open spec fn view(&self) -> TopicView {
        TopicView { name: self.name@, channels: self.channels@.map_values(|c: YTChannel| c@) }
    }
}

pub open spec fn entry_view(e: (String, Option<String>)) -> (Seq<char>, Option<Seq<char>>) {
    (e.0@, opt_chars(e.1))
}

pub open spec fn section_view(s: ConfigSection) -> (Seq<char>, Seq<(Seq<char>, Option<Seq<char>>)>) {
    (s.name@, s.entries@.map_values(|e: (String, Option<String>)| entry_view(e)))
}

/// A configuration line as a channel: `name = id`, or a bare id.
pub open spec fn channel_of_entry(key: Seq<char>, value: Option<Seq<char>>) -> ChannelView {
    match value {
        Some(id) => ChannelView { id, name: Some(key) },
        None => ChannelView { id: key, name: None },
    }
}

/// Characters that separate topic names in a filter.
pub open spec fn is_separator(c: char) -> bool {
    is_space(c) || c == ',' || c == ';'
}

/// The filter with its separators taken out.
pub open spec fn filter_letters(f: Seq<char>) -> Seq<char>
    decreases f.len(),
{
    if f.len() == 0 {
        Seq::empty()
    } else if is_separator(f.last()) {
        filter_letters(f.drop_last())
    } else {
        filter_letters(f.drop_last()).push(f.last())
    }
}

pub open spec fn occurs_at(hay: Seq<char>, needle: Seq<char>, i: int) -> bool {
    0 <= i && i + needle.len() <= hay.len() && hay.subrange(i, i + needle.len()) == needle
}

pub open spec fn contains_text(hay: Seq<char>, needle: Seq<char>) -> bool {
    exists|i: int| occurs_at(hay, needle, i)
}

/// A topic is listed unless it is the `default` section, or the filter names
/// topics and its name does not occur in the filter's letters.
pub open spec fn topic_selected(name: Seq<char>, filter: Seq<char>) -> bool {
    name != "default"@ && (filter_letters(filter).len() == 0 || contains_text(
        filter_letters(filter),
        name,
    ))
}

pub open spec fn topic_of_section(s: (Seq<char>, Seq<(Seq<char>, Option<Seq<char>>)>)) -> TopicView {
    TopicView { name: s.0, channels: s.1.map_values(|e: (Seq<char>, Option<Seq<char>>)| channel_of_entry(e.0, e.1)) }
}

/// The topics of the configuration that the filter selects, in section order.
pub open spec fn selected_topics(
    sections: Seq<(Seq<char>, Seq<(Seq<char>, Option<Seq<char>>)>)>,
    filter: Seq<char>,
) -> Seq<TopicView>
    decreases sections.len(),
{
    if sections.len() == 0 {
        Seq::empty()
    } else if topic_selected(sections.last().0, filter) {
        selected_topics(sections.drop_last(), filter).push(topic_of_section(sections.last()))
    } else {
        selected_topics(sections.drop_last(), filter)
    }
}

impl YTChannel {
    /// The key by which channels are listed: the display name when one is
    /// known, else the id behind a `~`, which sorts after names.
    pub fn sort_key(&self, display_name: Option<String>) -> (r: String)
        ensures
            r@ == match display_name {
                Some(n) => n@,
                None => "~"@ + self.id@,
            },
    {
        match display_name {
            Some(n) => n,
            None => String::from_str("~").concat(self.id.as_str()),
        }
    }
}

/// Takes the separators out of a topic filter.
pub fn strip_separators(f: &str) -> (r: String)
    ensures
        r@ == filter_letters(f@),
{
    let n = f.unicode_len();
    let mut out = String::new();
    let mut i: usize = 0;
    while i < n
        invariant
            n == f@.len(),
            i <= n,
            out@ == filter_letters(f@.subrange(0, i as int)),
        decreases n - i,
    {
        let c = f.get_char(i);
        proof {
            assert(f@.subrange(0, i + 1).drop_last() =~= f@.subrange(0, i as int));
        }
        if !(char_is_space(c) || c == ',' || c == ';') {
            out.append(f.substring_char(i, i + 1));
            assert(f@.subrange(i as int, i + 1) =~= seq![c]);
        }
        i = i + 1;
    }
    assert(f@.subrange(0, n as int) =~= f@);
    out
}

fn equal_text(a: &str, b: &str) -> (r: bool)
    ensures
        r == (a@ == b@),
{
    let n = a.unicode_len();
    if n != b.unicode_len() {
        return false;
    }
    let mut i: usize = 0;
    while i < n
        invariant
            n == a@.len(),
            n == b@.len(),
            i <= n,
            forall|k: int| 0 <= k < i ==> a@[k] == b@[k],
        decreases n - i,
    {
        if a.get_char(i) != b.get_char(i) {
            return false;
        }
        i = i + 1;
    }
    assert(a@ =~= b@);
    true
}

/// Whether `needle` occurs in `hay`.
pub fn contains_str(hay: &str, needle: &str) -> (r: bool)
    ensures
        r == contains_text(hay@, needle@),
{
    let n = hay.unicode_len();
    let m = needle.unicode_len();
    if m > n {
        assert(forall|i: int| !occurs_at(hay@, needle@, i));
        return false;
    }
    if m == 0 {
        assert(hay@.subrange(0, 0) =~= needle@);
        assert(occurs_at(hay@, needle@, 0));
        return true;
    }
    let mut i: usize = 0;
    while i <= n - m
        invariant
            n == hay@.len(),
            m == needle@.len(),
            m <= n,
            m >= 1,
            i <= n - m + 1,
            forall|k: int| 0 <= k < i ==> !occurs_at(hay@, needle@, k),
        decreases n - m + 1 - i,
    {
        let part = hay.substring_char(i, i + m);
        if equal_text(part, needle) {
            assert(occurs_at(hay@, needle@, i as int));
            return true;
        }
        i = i + 1;
    }
    assert forall|k: int| !occurs_at(hay@, needle@, k) by {
        if 0 <= k && k < i {
        }
    }
    false
}

fn copy_opt(o: &Option<String>) -> (r: Option<String>)
    ensures
        opt_chars(r) == opt_chars(*o),
{
    match o {
        Some(s) => Some(s.clone()),
        None => None,
    }
}

/// The channel that one configuration line names.
pub fn channel_from_entry(key: &String, value: &Option<String>) -> (r: YTChannel)
    ensures
        r@ == channel_of_entry(key@, opt_chars(*value)),
{
    match value {
        Some(id) => YTChannel { id: id.clone(), name: Some(key.clone()) },
        None => YTChannel { id: key.clone(), name: None },
    }
}

/// The topic that a configuration section describes.
pub fn topic_from_section(s: &ConfigSection) -> (r: YTTopic)
    ensures
        r@ == topic_of_section(section_view(*s)),
{
    let mut channels: Vec<YTChannel> = Vec::new();
    let mut i: usize = 0;
    while i < s.entries.len()
        invariant
            i <= s.entries@.len(),
            channels@.len() == i,
            forall|k: int| 0 <= k < i ==> #[trigger] channels@[k]@ == channel_of_entry(
                s.entries@[k].0@,
                opt_chars(s.entries@[k].1),
            ),
        decreases s.entries@.len() - i,
    {
        let c = channel_from_entry(&s.entries[i].0, &s.entries[i].1);
        channels.push(c);
        i = i + 1;
    }
    let r = YTTopic { name: s.name.clone(), channels };
    assert(r@.channels =~= topic_of_section(section_view(*s)).channels);
    r
}

/// Selects the topics that a filter names. An empty filter selects every
/// topic; the `default` section is never one.
pub fn select_topics(sections: &Vec<ConfigSection>, filter: &str) -> (r: Vec<YTTopic>)
    ensures
        r@.map_values(|t: YTTopic| t@) == selected_topics(
            sections@.map_values(|s: ConfigSection| section_view(s)),
            filter@,
        ),
{
    let allowed = strip_separators(filter);
    let ghost secs = sections@.map_values(|s: ConfigSection| section_view(s));
    let mut out: Vec<YTTopic> = Vec::new();
    let mut i: usize = 0;
    while i < sections.len()
        invariant
            i <= sections@.len(),
            secs == sections@.map_values(|s: ConfigSection| section_view(s)),
            allowed@ == filter_letters(filter@),
            out@.map_values(|t: YTTopic| t@) == selected_topics(secs.subrange(0, i as int), filter@),
        decreases sections@.len() - i,
    {
        let s = &sections[i];
        proof {
            assert(secs.subrange(0, i + 1).drop_last() =~= secs.subrange(0, i as int));
            assert(secs.subrange(0, i + 1).last() == section_view(*s));
            reveal_strlit("default");
        }
        let is_default = equal_text(s.name.as_str(), "default");
        let wanted = !is_default && (allowed.unicode_len() == 0 || contains_str(
            allowed.as_str(),
            s.name.as_str(),
        ));
        if wanted {
            let t = topic_from_section(s);
            out.push(t);
            assert(out@.map_values(|t: YTTopic| t@) =~= selected_topics(
                secs.subrange(0, i as int),
                filter@,
            ).push(topic_of_section(section_view(*s))));
        }
        i = i + 1;
    }
    assert(secs.subrange(0, i as int) =~= secs);
    out
}

/// All channels of the given topics, topic by topic.
pub fn channels_of_topics(topics: Vec<YTTopic>) -> (r: Vec<YTChannel>)
    ensures
        r@.map_values(|c: YTChannel| c@) == topics@.map_values(|t: YTTopic| t@.channels).flatten(),
{
    let ghost all = topics@.map_values(|t: YTTopic| t@.channels);
    let mut rest = topics;
    let mut out: Vec<YTChannel> = Vec::new();
    let ghost mut k: int = 0;
    while rest.len() > 0
        invariant
            0 <= k <= all.len(),
            rest@.map_values(|t: YTTopic| t@.channels) == all.subrange(k, all.len() as int),
            rest@.len() == all.len() - k,
            out@.map_values(|c: YTChannel| c@) == all.subrange(0, k).flatten(),
        decreases rest@.len(),
    {
        let ghost before = rest@;
        let mut t = rest.remove(0);
        proof {
            assert(before.map_values(|t: YTTopic| t@.channels)[0] == all.subrange(k, all.len() as int)[0]);
            assert(all[k] == t@.channels);
            let p = all.subrange(0, k + 1);
            assert(p.drop_last() =~= all.subrange(0, k));
            all.subrange(0, k).lemma_flatten_push(all[k]);
            assert(p =~= all.subrange(0, k).push(all[k]));
        }
        let ghost prev = out@;
        out.append(&mut t.channels);
        proof {
            assert(out@.map_values(|c: YTChannel| c@) =~= prev.map_values(|c: YTChannel| c@)
                + all[k]);
            let k0 = k;
            k = k + 1;
            assert forall|j: int| 0 <= j < rest@.len() implies rest@.map_values(
                |t: YTTopic| t@.channels,
            )[j] == all.subrange(k, all.len() as int)[j] by {
                assert(rest@[j] == before[j + 1]);
                assert(before.map_values(|t: YTTopic| t@.channels)[j + 1] == all.subrange(
                    k0,
                    all.len() as int,
                )[j + 1]);
            }
            assert(rest@.map_values(|t: YTTopic| t@.channels) =~= all.subrange(k, all.len() as int));
        }
    }
    assert(all.subrange(0, k) =~= all);
    out
}

} // verus!

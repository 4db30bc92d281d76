use vstd::prelude::*;
use crate::channel::{opt_chars, YTChannel};
use crate::feed::{FetchError, VideoView, YTVideo};
use crate::text::is_digit;

verus! {

#[verifier::external_type_specification]
#[verifier::external_body]
pub struct ExJsonValue(json::JsonValue);

/// The document that `json::parse` reads from a text, when it is JSON.
pub uninterp spec fn json_parse_result(text: Seq<char>) -> Option<json::JsonValue>;

/// What indexing a JSON value by a key gives: the member, or null.
pub uninterp spec fn json_index(v: json::JsonValue, key: Seq<char>) -> json::JsonValue;

/// The elements of a JSON array; none for any other value.
pub uninterp spec fn json_members_of(v: json::JsonValue) -> Seq<json::JsonValue>;

/// The text of a JSON string; nothing for any other value.
pub uninterp spec fn json_as_str(v: json::JsonValue) -> Option<Seq<char>>;

/// The instant that an RFC 3339 date and time names, when the text is one:
/// whole seconds since the Unix epoch, and the nanoseconds past them (more
/// than a second's worth only in a leap second).
pub uninterp spec fn rfc3339_parts(s: Seq<char>) -> Option<(i64, u32)>;

/// The longest run of decimal digits that `json::parse` reads safely: each
/// digit of a fraction lowers a 16-bit exponent without a check.
pub const MAX_DIGIT_RUN: usize = 32768;

/// How many decimal digits `s` ends with.
pub open spec fn trailing_digits(s: Seq<char>) -> nat
    decreases s.len(),
{
    if s.len() > 0 && is_digit(s.last()) {
        trailing_digits(s.drop_last()) + 1
    } else {
        0
    }
}

/// No run of decimal digits in `s` is longer than `MAX_DIGIT_RUN`.
pub open spec fn digit_runs_bounded(s: Seq<char>) -> bool {
    forall|i: int| 0 <= i <= s.len() ==> #[trigger] trailing_digits(s.take(i)) <= MAX_DIGIT_RUN
}

/// Whether every run of decimal digits in `s` is short enough to be read.
pub fn digit_runs_ok(s: &str) -> (r: bool)
    ensures
        r == digit_runs_bounded(s@),
{
    let n = s.unicode_len();
    let mut run: usize = 0;
    let mut i: usize = 0;
    assert(s@.take(0) =~= Seq::<char>::empty());
    while i < n
        invariant
            n == s@.len(),
            i <= n,
            run == trailing_digits(s@.take(i as int)),
            forall|k: int| 0 <= k <= i ==> #[trigger] trailing_digits(s@.take(k)) <= MAX_DIGIT_RUN,
        decreases n - i,
    {
        let c = s.get_char(i);
        assert(s@.take(i + 1).drop_last() =~= s@.take(i as int));
        if '0' <= c && c <= '9' {
            run = run + 1;
        } else {
            run = 0;
        }
        i = i + 1;
        if run > MAX_DIGIT_RUN {
            assert(trailing_digits(s@.take(i as int)) > MAX_DIGIT_RUN);
            return false;
        }
    }
    assert(s@.take(n as int) =~= s@);
    true
}

/// Relies on `json::parse`: reads a JSON document, `Err` on malformed text.
/// It overflows a 16-bit exponent on a longer run of fraction digits than
/// `MAX_DIGIT_RUN`, so such text is left out.
#[verifier::external_body]
fn parse_json(text: &str) -> (r: Option<json::JsonValue>)
    requires
        digit_runs_bounded(text@),
    ensures
        r == json_parse_result(text@),
{
    json::parse(text).ok()
}


/// Relies on `JsonValue`'s `Index<&str>`: an object's member by key, and null
/// for a missing key or a value that is no object.
#[verifier::external_body]
fn json_field<'a>(v: &'a json::JsonValue, key: &str) -> (r: &'a json::JsonValue)
    ensures
        *r == json_index(*v, key@),
{
    &v[key]
}

/// Relies on `JsonValue::members`: an array's elements in order, none for
/// other values.
#[verifier::external_body]
fn json_members(v: &json::JsonValue) -> (r: Vec<json::JsonValue>)
    ensures
        r@ == json_members_of(*v),
{
    v.members().cloned().collect()
}

/// Relies on `JsonValue::as_str`: the text of a JSON string.
#[verifier::external_body]
fn json_str(v: &json::JsonValue) -> (r: Option<String>)
    ensures
        opt_chars(r) == json_as_str(*v),
{
    v.as_str().map(String::from)
}

/// Relies on `chrono::DateTime::parse_from_rfc3339`, `DateTime::timestamp` and
/// `DateTime::timestamp_subsec_nanos`: the instant that an RFC 3339 text names.
#[verifier::external_body]
fn parse_rfc3339(s: &str) -> (r: Option<(i64, u32)>)
    ensures
        r == rfc3339_parts(s@),
{
    chrono::DateTime::parse_from_rfc3339(s).ok().map(|d| (d.timestamp(), d.timestamp_subsec_nanos()))
}

/// An instant as nanoseconds since the Unix epoch.
pub open spec fn instant_of(secs: i64, nanos: u32) -> i128 {
    (secs * 1_000_000_000 + nanos) as i128
}

pub fn instant(secs: i64, nanos: u32) -> (r: i128)
    ensures
        r == instant_of(secs, nanos),
{
    assert(-0x8000_0000_0000_0000 * 1_000_000_000 <= secs * 1_000_000_000 <= 0x7fff_ffff_ffff_ffff
        * 1_000_000_000) by (nonlinear_arith)
        requires
            -0x8000_0000_0000_0000 <= secs <= 0x7fff_ffff_ffff_ffff,
    ;
    secs as i128 * 1_000_000_000 + nanos as i128
}

/// The string member `key` of a JSON object.
pub open spec fn str_member(e: json::JsonValue, key: Seq<char>) -> Option<Seq<char>> {
    json_as_str(json_index(e, key))
}

/// The video that one entry of a cached feed describes: it needs `id`,
/// `title`, `author`, `description` and an RFC 3339 `timestamp`, all strings.
pub open spec fn entry_video(e: json::JsonValue) -> Option<VideoView> {
    match (
        str_member(e, "id"@),
        str_member(e, "title"@),
        str_member(e, "author"@),
        str_member(e, "description"@),
        str_member(e, "timestamp"@),
    ) {
        (Some(id), Some(title), Some(author), Some(description), Some(ts)) => match rfc3339_parts(
            ts,
        ) {
            Some((secs, nanos)) => Some(
                VideoView { id, title, author, description, timestamp: instant_of(secs, nanos) },
            ),
            None => None,
        },
        _ => None,
    }
}

/// The entries of a cached feed document: the elements of its `feed` array.
pub open spec fn feed_entries(doc: json::JsonValue) -> Seq<json::JsonValue> {
    json_members_of(json_index(doc, "feed"@))
}

/// The videos of a cached feed document, when every entry describes one.
pub open spec fn document_videos(doc: json::JsonValue) -> Option<Seq<VideoView>> {
    let es = feed_entries(doc);
    if forall|i: int| 0 <= i < es.len() ==> (#[trigger] entry_video(es[i])).is_some() {
        Some(es.map_values(|e: json::JsonValue| entry_video(e).unwrap()))
    } else {
        None
    }
}

fn video_from_entry(e: &json::JsonValue) -> (r: Option<YTVideo>)
    ensures
        match r {
            Some(v) => entry_video(*e) == Some(v@),
            None => entry_video(*e).is_none(),
        },
{
    proof {
        reveal_strlit("id");
        reveal_strlit("title");
        reveal_strlit("author");
        reveal_strlit("description");
        reveal_strlit("timestamp");
    }
    let id = json_str(json_field(e, "id"));
    let title = json_str(json_field(e, "title"));
    let author = json_str(json_field(e, "author"));
    let description = json_str(json_field(e, "description"));
    let ts = json_str(json_field(e, "timestamp"));
    match (id, title, author, description, ts) {
        (Some(id), Some(title), Some(author), Some(description), Some(ts)) => {
            match parse_rfc3339(ts.as_str()) {
                Some((secs, nanos)) => {
                    let timestamp = instant(secs, nanos);
                    Some(YTVideo { id, title, author, description, timestamp })
                },
                None => None,
            }
        },
        _ => None,
    }
}

/// The videos of a parsed feed document, in document order; `Err` when an
/// entry lacks a field or has a malformed date.
pub fn videos_from_document(doc: &json::JsonValue) -> (r: Result<Vec<YTVideo>, FetchError>)
    ensures
        match document_videos(*doc) {
            Some(vs) => r is Ok && r->Ok_0@.map_values(|v: YTVideo| v@) == vs,
            None => r == Err::<Vec<YTVideo>, FetchError>(FetchError::MalformedUpstream),
        },
{
    proof {
        reveal_strlit("feed");
    }
    let entries = json_members(json_field(doc, "feed"));
    let ghost es = feed_entries(*doc);
    let mut out: Vec<YTVideo> = Vec::new();
    let mut i: usize = 0;
    while i < entries.len()
        invariant
            entries@ == es,
            es == feed_entries(*doc),
            i <= es.len(),
            out@.len() == i,
            forall|k: int| 0 <= k < i ==> (#[trigger] entry_video(es[k])) == Some(out@[k]@),
        decreases es.len() - i,
    {
        match video_from_entry(&entries[i]) {
            Some(v) => {
                out.push(v);
            },
            None => {
                assert(entry_video(es[i as int]).is_none());
                assert(!(forall|k: int| 0 <= k < es.len() ==> (#[trigger] entry_video(es[k])).is_some()));
                return Err(FetchError::MalformedUpstream);
            },
        }
        i = i + 1;
    }
    assert(out@.map_values(|v: YTVideo| v@) =~= es.map_values(
        |e: json::JsonValue| entry_video(e).unwrap(),
    ));
    Ok(out)
}

/// Reads a cached feed document: `Err(TransformFailed)` when the text is not
/// JSON or holds a run of digits too long to read, `Err(MalformedUpstream)`
/// when an entry is not a complete video.
pub fn parse_feed_document(text: &str) -> (r: Result<Vec<YTVideo>, FetchError>)
    ensures
        !digit_runs_bounded(text@) ==> r == Err::<Vec<YTVideo>, FetchError>(
            FetchError::TransformFailed,
        ),
        digit_runs_bounded(text@) ==> match json_parse_result(text@) {
            None => r == Err::<Vec<YTVideo>, FetchError>(FetchError::TransformFailed),
            Some(doc) => match document_videos(doc) {
                Some(vs) => r is Ok && r->Ok_0@.map_values(|v: YTVideo| v@) == vs,
                None => r == Err::<Vec<YTVideo>, FetchError>(FetchError::MalformedUpstream),
            },
        },
{
    if !digit_runs_ok(text) {
        return Err(FetchError::TransformFailed);
    }
    match parse_json(text) {
        Some(doc) => videos_from_document(&doc),
        None => Err(FetchError::TransformFailed),
    }
}

/// The channel id of one subscription entry: `snippet.resourceId.channelId`.
pub open spec fn subscription_id(e: json::JsonValue) -> Option<Seq<char>> {
    json_as_str(json_index(json_index(json_index(e, "snippet"@), "resourceId"@), "channelId"@))
}

/// The channels of a subscriptions export, when every entry names one.
pub open spec fn subscription_ids(doc: json::JsonValue) -> Option<Seq<Seq<char>>> {
    let es = json_members_of(doc);
    if forall|i: int| 0 <= i < es.len() ==> (#[trigger] subscription_id(es[i])).is_some() {
        Some(es.map_values(|e: json::JsonValue| subscription_id(e).unwrap()))
    } else {
        None
    }
}

/// The channels of a subscriptions export (an array of entries), each
/// without a display name; `None` when an entry names no channel.
pub fn subscriptions_from_document(doc: &json::JsonValue) -> (r: Option<Vec<YTChannel>>)
    ensures
        match subscription_ids(*doc) {
            Some(ids) => r is Some && r->Some_0@.map_values(|c: YTChannel| c@.id) == ids && (
            forall|i: int| 0 <= i < ids.len() ==> (#[trigger] r->Some_0@[i]).name is None),
            None => r is None,
        },
{
    proof {
        reveal_strlit("snippet");
        reveal_strlit("resourceId");
        reveal_strlit("channelId");
    }
    let entries = json_members(doc);
    let ghost es = json_members_of(*doc);
    let mut out: Vec<YTChannel> = Vec::new();
    let mut i: usize = 0;
    while i < entries.len()
        invariant
            entries@ == es,
            es == json_members_of(*doc),
            i <= es.len(),
            out@.len() == i,
            forall|k: int| 0 <= k < i ==> (#[trigger] subscription_id(es[k])) == Some(out@[k].id@),
            forall|k: int| 0 <= k < i ==> (#[trigger] out@[k]).name is None,
        decreases es.len() - i,
    {
        let id = json_str(json_field(json_field(json_field(&entries[i], "snippet"), "resourceId"), "channelId"));
        match id {
            Some(id) => {
                out.push(YTChannel { id, name: None });
            },
            None => {
                assert(subscription_id(es[i as int]).is_none());
                assert(!(forall|k: int| 0 <= k < es.len() ==> (#[trigger] subscription_id(es[k])).is_some()));
                return None;
            },
        }
        i = i + 1;
    }
    assert(out@.map_values(|c: YTChannel| c@.id) =~= es.map_values(
        |e: json::JsonValue| subscription_id(e).unwrap(),
    ));
    Some(out)
}

/// Reads a subscriptions export: `None` when it is not JSON, holds a run of
/// digits too long to read, or has an entry that names no channel. No
/// channel comes with a display name.
pub fn parse_subscriptions(text: &str) -> (r: Option<Vec<YTChannel>>)
    ensures
        !digit_runs_bounded(text@) ==> r is None,
        digit_runs_bounded(text@) ==> match json_parse_result(text@) {
            None => r is None,
            Some(doc) => match subscription_ids(doc) {
                Some(ids) => r is Some && r->Some_0@.map_values(|c: YTChannel| c@.id) == ids && (
                forall|i: int| 0 <= i < ids.len() ==> (#[trigger] r->Some_0@[i]).name is None),
                None => r is None,
            },
        },
{
    if !digit_runs_ok(text) {
        return None;
    }
    match parse_json(text) {
        Some(doc) => subscriptions_from_document(&doc),
        None => None,
    }
}

/// The author of the first entry of a parsed feed document, if it is a string.
pub open spec fn first_author(doc: json::JsonValue) -> Option<Seq<char>> {
    if feed_entries(doc).len() > 0 {
        str_member(feed_entries(doc)[0], "author"@)
    } else {
        None
    }
}

impl YTChannel {
    /// The channel's display name: the configured one, else the author of the
    /// first video in its cached feed document, when there is one.
    pub fn name(&self, cached_feed: Option<&json::JsonValue>) -> (r: Option<String>)
        ensures
            opt_chars(r) == match self.name {
                Some(n) => Some(n@),
                None => match cached_feed {
                    Some(doc) => first_author(*doc),
                    None => None,
                },
            },
    {
        match &self.name {
            Some(n) => Some(n.clone()),
            None => match cached_feed {
                Some(doc) => {
                    proof {
                        reveal_strlit("feed");
                        reveal_strlit("author");
                    }
                    let entries = json_members(json_field(doc, "feed"));
                    if entries.len() > 0 {
                        json_str(json_field(&entries[0], "author"))
                    } else {
                        None
                    }
                },
                None => None,
            },
        }
    }

    /// The public feed of the channel's videos.
    pub fn feed_url(&self) -> (r: String)
        ensures
            r@ == "https://www.youtube.com/feeds/videos.xml?channel_id="@ + self.id@,
    {
        String::from_str("https://www.youtube.com/feeds/videos.xml?channel_id=").concat(
            self.id.as_str(),
        )
    }

    /// Where the channel's feed document is cached under the cache directory.
    pub fn cache_path(&self, cache_dir: &str) -> (r: String)
        ensures
            r@ == cache_dir@ + "/feed/"@ + self.id@ + ".json"@,
    {
        String::from_str(cache_dir).concat("/feed/").concat(self.id.as_str()).concat(".json")
    }
}

/// Reads a cached feed text for a channel's display name; text that is not
/// JSON, or holds a run of digits too long to read, counts as no cached feed.
pub fn channel_name_from_text(c: &YTChannel, cached_text: Option<&str>) -> (r: Option<String>)
    ensures
        opt_chars(r) == match c.name {
            Some(n) => Some(n@),
            None => match cached_text {
                Some(t) => if digit_runs_bounded(t@) {
                    match json_parse_result(t@) {
                        Some(doc) => first_author(doc),
                        None => None,
                    }
                } else {
                    None
                },
                None => None,
            },
        },
{
    if c.name.is_some() {
        return c.name(None);
    }
    match cached_text {
        Some(t) => {
            if !digit_runs_ok(t) {
                return c.name(None);
            }
            match parse_json(t) {
                Some(doc) => c.name(Some(&doc)),
                None => c.name(None),
            }
        },
        None => c.name(None),
    }
}

} // verus!

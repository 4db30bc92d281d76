use vstd::prelude::*;

verus! {

/// Age, in nanoseconds, up to which a cached channel feed is still served.
pub const CACHE_MAX_AGE_NANOS: u128 = 1_800_000_000_000;

/// One video of a channel feed. `timestamp` is the publication instant in
/// nanoseconds since the Unix epoch.
#[derive(Clone, Debug)]
pub struct YTVideo {
    pub id: String,
    pub title: String,
    pub author: String,
    pub description: String,
    pub timestamp: i128,
}

pub struct VideoView {
    pub id: Seq<char>,
    pub title: Seq<char>,
    pub author: Seq<char>,
    pub description: Seq<char>,
    pub timestamp: i128,
}

impl View for YTVideo {
    type V = VideoView;

    open spec fn view(&self) -> VideoView {
        VideoView {
            id: self.id@,
            title: self.title@,
            author: self.author@,
            description: self.description@,
            timestamp: self.timestamp,
        }
    }
}

/// Why one channel contributed no videos.
#[derive(Clone, Copy, Debug, PartialEq, Eq, Structural)]
pub enum FetchError {
    Network,
    MalformedUpstream,
    TransformFailed,
    CacheWriteFailed,
}

/// Whether a cache entry of the given age (`None`: no entry) can be served
/// without a network fetch.
pub open spec fn is_fresh(age_nanos: Option<u128>) -> bool {
    match age_nanos {
        Some(a) => a <= CACHE_MAX_AGE_NANOS,
        None => false,
    }
}

/// Decides whether a channel's cache entry must be fetched again: when it is
/// missing or older than thirty minutes.
pub fn needs_refetch(age_nanos: Option<u128>) -> (r: bool)
    ensures
        r == !is_fresh(age_nanos),
{
    match age_nanos {
        Some(a) => a > CACHE_MAX_AGE_NANOS,
        None => true,
    }
}

/// Whether the cache sweep removes a file of the given age.
pub fn cache_file_expired(age_nanos: u128, max_age_nanos: u128) -> (r: bool)
    ensures
        r == (age_nanos > max_age_nanos),
{
    age_nanos > max_age_nanos
}

/// A merged, time-ordered feed of videos.
pub struct YTFeed {
    pub videos: Vec<YTVideo>,
}

/// The videos that one channel's fetch result contributes.
pub open spec fn contribution(r: Result<Vec<YTVideo>, FetchError>) -> Seq<YTVideo> {
    match r {
        Ok(v) => v@,
        Err(_) => Seq::empty(),
    }
}

/// All contributed videos, channel by channel, each in its own order.
pub open spec fn contributed(rs: Seq<Result<Vec<YTVideo>, FetchError>>) -> Seq<YTVideo>
    decreases rs.len(),
{
    if rs.len() == 0 {
        Seq::empty()
    } else {
        contributed(rs.drop_last()) + contribution(rs.last())
    }
}

/// The videos of `s` published at instant `t`, in their order in `s`.
pub open spec fn with_stamp(s: Seq<YTVideo>, t: i128) -> Seq<YTVideo>
    decreases s.len(),
{
    if s.len() == 0 {
        Seq::empty()
    } else if s.last().timestamp == t {
        with_stamp(s.drop_last(), t).push(s.last())
    } else {
        with_stamp(s.drop_last(), t)
    }
}

/// Newest first.
pub open spec fn sorted_newest_first(s: Seq<YTVideo>) -> bool {
    forall|i: int, j: int| 0 <= i < j < s.len() ==> s[i].timestamp >= s[j].timestamp
}

/// `f` is the stable newest-first ordering of `s`: sorted by timestamp, and
/// videos of equal timestamp keep their relative order from `s`. This fixes
/// `f` (see `lemma_ordered_feed_unique`).
pub open spec fn is_ordered_feed_of(f: Seq<YTVideo>, s: Seq<YTVideo>) -> bool {
    &&& sorted_newest_first(f)
    &&& forall|t: i128| #[trigger] with_stamp(f, t) == with_stamp(s, t)
}

pub proof fn lemma_with_stamp_add(a: Seq<YTVideo>, b: Seq<YTVideo>, t: i128)
    ensures
        with_stamp(a + b, t) == with_stamp(a, t) + with_stamp(b, t),
    decreases b.len(),
{
    if b.len() == 0 {
        assert(a + b =~= a);
        assert(with_stamp(a, t) + with_stamp(b, t) =~= with_stamp(a, t));
    } else {
        assert((a + b).drop_last() =~= a + b.drop_last());
        assert((a + b).last() == b.last());
        lemma_with_stamp_add(a, b.drop_last(), t);
        if b.last().timestamp == t {
            assert(with_stamp(a, t) + with_stamp(b.drop_last(), t).push(b.last()) =~= (
            with_stamp(a, t) + with_stamp(b.drop_last(), t)).push(b.last()));
        }
    }
}

pub proof fn lemma_with_stamp_none(s: Seq<YTVideo>, t: i128)
    requires
        forall|i: int| 0 <= i < s.len() ==> s[i].timestamp != t,
    ensures
        with_stamp(s, t) == Seq::<YTVideo>::empty(),
    decreases s.len(),
{
    if s.len() > 0 {
        lemma_with_stamp_none(s.drop_last(), t);
    }
}

proof fn lemma_with_stamp_single(v: YTVideo, t: i128)
    ensures
        with_stamp(seq![v], t) == (if v.timestamp == t {
            seq![v]
        } else {
            Seq::<YTVideo>::empty()
        }),
{
    assert(seq![v].drop_last() =~= Seq::<YTVideo>::empty());
    assert(with_stamp(Seq::<YTVideo>::empty(), t) == Seq::<YTVideo>::empty());
    assert(Seq::<YTVideo>::empty().push(v) =~= seq![v]);
}

/// Inserting `v` right after every video at least as new keeps the order and
/// appends `v` to the videos of its own instant.
proof fn lemma_insert_stable(s: Seq<YTVideo>, p: int, v: YTVideo)
    requires
        sorted_newest_first(s),
        0 <= p <= s.len(),
        forall|j: int| 0 <= j < p ==> s[j].timestamp >= v.timestamp,
        forall|j: int| p <= j < s.len() ==> s[j].timestamp < v.timestamp,
    ensures
        sorted_newest_first(s.insert(p, v)),
        forall|t: i128| #[trigger]
            with_stamp(s.insert(p, v), t) == with_stamp(s, t) + with_stamp(seq![v], t),
{
    let r = s.insert(p, v);
    assert forall|i: int, j: int| 0 <= i < j < r.len() implies r[i].timestamp >= r[j].timestamp by {
    }
    assert forall|t: i128| #[trigger]
        with_stamp(s.insert(p, v), t) == with_stamp(s, t) + with_stamp(seq![v], t) by {
        let a = s.subrange(0, p);
        let b = s.subrange(p, s.len() as int);
        assert(s =~= a + b);
        assert(r =~= a + seq![v] + b);
        lemma_with_stamp_add(a + seq![v], b, t);
        lemma_with_stamp_add(a, seq![v], t);
        lemma_with_stamp_add(a, b, t);
        lemma_with_stamp_single(v, t);
        if v.timestamp == t {
            lemma_with_stamp_none(b, t);
            assert(with_stamp(s, t) + with_stamp(seq![v], t) =~= with_stamp(a, t) + seq![v]);
            assert(with_stamp(r, t) =~= with_stamp(a, t) + seq![v] + Seq::<YTVideo>::empty());
        } else {
            assert(with_stamp(a, t) + Seq::<YTVideo>::empty() =~= with_stamp(a, t));
            assert(with_stamp(s, t) + Seq::<YTVideo>::empty() =~= with_stamp(s, t));
        }
    }
}

/// Inserts `v` into a newest-first vector after every video at least as new.
fn insert_by_time(out: &mut Vec<YTVideo>, v: YTVideo)
    requires
        sorted_newest_first(old(out)@),
    ensures
        sorted_newest_first(final(out)@),
        forall|t: i128| #[trigger]
            with_stamp(final(out)@, t) == with_stamp(old(out)@, t) + with_stamp(seq![v], t),
{
    let mut p: usize = 0;
    while p < out.len() && out[p].timestamp >= v.timestamp
        invariant
            0 <= p <= out@.len(),
            forall|j: int| 0 <= j < p ==> out@[j].timestamp >= v.timestamp,
        decreases out@.len() - p,
    {
        p = p + 1;
    }
    proof {
        assert forall|j: int| p <= j < out@.len() implies out@[j].timestamp < v.timestamp by {
            if p < j {
                assert(out@[p as int].timestamp >= out@[j].timestamp);
            }
        }
        lemma_insert_stable(out@, p as int, v);
    }
    out.insert(p, v);
}

proof fn lemma_with_stamp_has(s: Seq<YTVideo>, i: int)
    requires
        0 <= i < s.len(),
    ensures
        with_stamp(s, s[i].timestamp).len() > 0,
    decreases s.len(),
{
    if i < s.len() - 1 {
        lemma_with_stamp_has(s.drop_last(), i);
    }
}

proof fn lemma_with_stamp_from(s: Seq<YTVideo>, t: i128)
    requires
        with_stamp(s, t).len() > 0,
    ensures
        exists|i: int| 0 <= i < s.len() && s[i].timestamp == t,
    decreases s.len(),
{
    if s.last().timestamp != t {
        lemma_with_stamp_from(s.drop_last(), t);
        let i = choose|i: int| 0 <= i < s.drop_last().len() && s.drop_last()[i].timestamp == t;
        assert(s[i] == s.drop_last()[i]);
    }
}

/// Two newest-first sequences with the same videos at every instant, in the
/// same order, are equal: an ordered feed is fixed by what it orders.
pub proof fn lemma_ordered_feed_unique(f: Seq<YTVideo>, g: Seq<YTVideo>)
    requires
        sorted_newest_first(f),
        sorted_newest_first(g),
        forall|t: i128| #[trigger] with_stamp(f, t) == with_stamp(g, t),
    ensures
        f == g,
    decreases f.len() + g.len(),
{
    if f.len() == 0 || g.len() == 0 {
        if g.len() > 0 {
            lemma_with_stamp_has(g, g.len() - 1);
            assert(with_stamp(f, g.last().timestamp) == with_stamp(g, g.last().timestamp));
        }
        if f.len() > 0 {
            lemma_with_stamp_has(f, f.len() - 1);
            assert(with_stamp(f, f.last().timestamp) == with_stamp(g, f.last().timestamp));
        }
        assert(f =~= g);
    } else {
        let a = f.last();
        let b = g.last();
        lemma_with_stamp_has(f, f.len() - 1);
        lemma_with_stamp_has(g, g.len() - 1);
        assert(with_stamp(f, a.timestamp) == with_stamp(g, a.timestamp));
        assert(with_stamp(f, b.timestamp) == with_stamp(g, b.timestamp));
        lemma_with_stamp_from(g, a.timestamp);
        lemma_with_stamp_from(f, b.timestamp);
        let i = choose|i: int| 0 <= i < g.len() && g[i].timestamp == a.timestamp;
        let j = choose|j: int| 0 <= j < f.len() && f[j].timestamp == b.timestamp;
        if i < g.len() - 1 {
            assert(g[i].timestamp >= b.timestamp);
        }
        if j < f.len() - 1 {
            assert(f[j].timestamp >= a.timestamp);
        }
        assert(a.timestamp == b.timestamp);
        let t = a.timestamp;
        assert(with_stamp(f, t).last() == a);
        assert(with_stamp(g, t).last() == b);
        assert forall|u: i128| #[trigger] with_stamp(f.drop_last(), u) == with_stamp(g.drop_last(), u) by {
            assert(with_stamp(f, u) == with_stamp(g, u));
            if u == t {
                assert(with_stamp(f, t).drop_last() == with_stamp(f.drop_last(), t));
                assert(with_stamp(g, t).drop_last() == with_stamp(g.drop_last(), t));
            }
        }
        lemma_ordered_feed_unique(f.drop_last(), g.drop_last());
        assert(f =~= f.drop_last().push(a));
        assert(g =~= g.drop_last().push(b));
    }
}

/// A channel whose fetch failed leaves the other channels' videos exactly as
/// they would be had that channel not been asked at all: the merged feed is
/// the one of the remaining channels.
pub proof fn lemma_failure_isolated(
    rs: Seq<Result<Vec<YTVideo>, FetchError>>,
    x: int,
    e: FetchError,
)
    requires
        0 <= x < rs.len(),
    ensures
        contributed(rs.update(x, Err(e))) == contributed(rs.remove(x)),
        forall|f: Seq<YTVideo>|
            #[trigger] is_ordered_feed_of(f, contributed(rs.update(x, Err(e))))
                == is_ordered_feed_of(f, contributed(rs.remove(x))),
    decreases rs.len(),
{
    let u = rs.update(x, Err(e));
    if x == rs.len() - 1 {
        assert(u.drop_last() =~= rs.remove(x));
        assert(contributed(u) =~= contributed(rs.remove(x)));
    } else {
        lemma_failure_isolated(rs.drop_last(), x, e);
        assert(u.drop_last() =~= rs.drop_last().update(x, Err(e)));
        assert(rs.remove(x).drop_last() =~= rs.drop_last().remove(x));
        assert(rs.remove(x).last() == rs.last());
    }
}

impl YTVideo {
    /// The page on which the video plays.
    pub fn url(&self) -> (r: String)
        ensures
            r@ == "https://youtube.com/watch?v="@ + self.id@,
    {
        String::from_str("https://youtube.com/watch?v=").concat(self.id.as_str())
    }

    /// Where the video's thumbnail image is downloaded from.
    pub fn thumbnail_url(&self) -> (r: String)
        ensures
            r@ == "https://i.ytimg.com/vi/"@ + self.id@ + "/hq720.jpg"@,
    {
        String::from_str("https://i.ytimg.com/vi/").concat(self.id.as_str()).concat("/hq720.jpg")
    }

    /// The line that lists the video: `[author] title`.
    pub fn to_string(&self) -> (r: String)
        ensures
            r@ == "["@ + self.author@ + "] "@ + self.title@,
    {
        String::from_str("[").concat(self.author.as_str()).concat("] ").concat(self.title.as_str())
    }

    /// The text that the selection list matches against.
    pub fn text(&self) -> (r: String)
        ensures
            r@ == "["@ + self.author@ + "] "@ + self.title@,
    {
        self.to_string()
    }
}

impl YTFeed {
    /// Merges the fetch results of several channels into one feed, newest
    /// first. A failed channel contributes nothing; videos of equal timestamp
    /// keep their channel order and their order within a channel.
    pub fn from_results(results: Vec<Result<Vec<YTVideo>, FetchError>>) -> (r: YTFeed)
        ensures
            is_ordered_feed_of(r.videos@, contributed(results@)),
    {
        let ghost all = results@;
        let mut rest = results;
        let mut flat: Vec<YTVideo> = Vec::new();
        let mut k: usize = 0;
        let n = rest.len();
        while rest.len() > 0
            invariant
                all.len() == n,
                k <= all.len(),
                rest@ == all.subrange(k as int, all.len() as int),
                flat@ == contributed(all.subrange(0, k as int)),
            decreases rest@.len(),
        {
            let item = rest.remove(0);
            proof {
                assert(all.subrange(0, k + 1).drop_last() =~= all.subrange(0, k as int));
                assert(all.subrange(0, k + 1).last() == item);
            }
            match item {
                Ok(mut vs) => {
                    flat.append(&mut vs);
                },
                Err(_) => {
                    assert(flat@ + Seq::<YTVideo>::empty() =~= flat@);
                },
            }
            k = k + 1;
            assert(rest@ =~= all.subrange(k as int, all.len() as int));
        }
        assert(all.subrange(0, k as int) =~= all);
        let ghost input = flat@;
        let mut out: Vec<YTVideo> = Vec::new();
        let mut i: usize = 0;
        let m = flat.len();
        while flat.len() > 0
            invariant
                input.len() == m,
                i <= input.len(),
                flat@ == input.subrange(i as int, input.len() as int),
                sorted_newest_first(out@),
                forall|t: i128| #[trigger] with_stamp(out@, t) == with_stamp(input.subrange(0, i as int), t),
            decreases flat@.len(),
        {
            let v = flat.remove(0);
            let ghost prev = out@;
            insert_by_time(&mut out, v);
            proof {
                assert forall|t: i128| #[trigger] with_stamp(out@, t) == with_stamp(
                    input.subrange(0, i + 1),
                    t,
                ) by {
                    assert(input.subrange(0, i + 1) =~= input.subrange(0, i as int) + seq![v]);
                    lemma_with_stamp_add(input.subrange(0, i as int), seq![v], t);
                }
            }
            i = i + 1;
            assert(flat@ =~= input.subrange(i as int, input.len() as int));
        }
        assert(input.subrange(0, i as int) =~= input);
        YTFeed { videos: out }
    }
}

} // verus!

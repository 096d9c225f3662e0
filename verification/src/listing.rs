//! The cached channel listing: an ordered collection of entries plus the
//! time of the most recent refresh, with the expiration policy.

use vstd::prelude::*;
use crate::channel::ChanView;
use crate::channel::Channel;
use crate::channel::spec_channel_of;
use crate::channel::spec_matches;
use crate::channel::spec_record_ok;
use crate::channel::spec_render_channel;
use crate::request::ReqView;
use crate::request::Request;

verus! {

/// How long a fetched listing stays fresh, in seconds.
pub const LIST_CACHE_TIME_SECS: u64 = 300;

/// Abstract value of the cache: the entries in arrival order and the time of
/// the last refresh, in seconds.
#[verifier::ext_equal]
pub struct ListingView {
    pub channels: Seq<ChanView>,
    pub last_fetch: u64,
}

/// Seconds elapsed since `last` at `now`; zero when `now` lies before `last`.
pub open spec fn spec_elapsed(last: u64, now: u64) -> u64 {
    if now >= last {
        (now - last) as u64
    } else {
        0
    }
}

/// The cache has expired when strictly more than the cache lifetime has
/// passed since the last refresh.
pub open spec fn spec_expired(last: u64, now: u64) -> bool {
    spec_elapsed(last, now) > LIST_CACHE_TIME_SECS
}

/// The display lines of the entries that match the request, in arrival order.
pub open spec fn spec_results(chs: Seq<ChanView>, q: ReqView) -> Seq<Seq<char>>
    decreases chs.len(),
{
    if chs.len() == 0 {
        Seq::empty()
    } else {
        spec_results(chs.drop_last(), q) + if spec_matches(chs.last(), q) {
            seq![spec_render_channel(chs.last())]
        } else {
            Seq::empty()
        }
    }
}

/// The cached channel listing. Timestamps are supplied by the caller as
/// seconds on a monotonic clock.
pub struct ChannelListing {
    channels: Vec<Channel>,
    last_fetch: u64,
}

impl View for ChannelListing {
    type V = ListingView;

    closed spec fn view(&self) -> ListingView {
        ListingView { channels: self.channels.deep_view(), last_fetch: self.last_fetch }
    }
}

impl ChannelListing {
    /// An empty listing stamped with the current time.
    pub fn new(now: u64) -> (r: ChannelListing)
        ensures
            r@.channels.len() == 0,
            r@.last_fetch == now,
    {
        let r = ChannelListing { channels: Vec::new(), last_fetch: now };
        proof {
            assert(r@.channels =~= Seq::<ChanView>::empty());
        }
        r
    }

    /// Append the entry a raw listing record decodes into; a malformed record
    /// is dropped and leaves the listing unchanged.
    pub fn add_channel(&mut self, v: &Vec<String>)
        ensures
            final(self)@.channels == if spec_record_ok(v.deep_view()) {
                old(self)@.channels.push(spec_channel_of(v.deep_view()))
            } else {
                old(self)@.channels
            },
            final(self)@.last_fetch == old(self)@.last_fetch,
    {
        if let Ok(channel) = Channel::new(v) {
            self.channels.push(channel);
            proof {
                assert(self@.channels =~= old(self)@.channels.push(
                    spec_channel_of(v.deep_view()),
                ));
            }
        }
    }

    /// Record the current time as the moment of the last refresh.
    pub fn set_timestamp(&mut self, now: u64)
        ensures
            final(self)@.channels == old(self)@.channels,
            final(self)@.last_fetch == now,
    {
        self.last_fetch = now;
    }

    /// Number of cached entries.
    pub fn len(&self) -> (r: usize)
        ensures
            r == self@.channels.len(),
    {
        self.channels.len()
    }

    /// Whether the listing is older than the cache lifetime.
    pub fn has_expired(&self, now: u64) -> (r: bool)
        ensures
            r == spec_expired(self@.last_fetch, now),
    {
        let elapsed = self.get_elapsed_time(now);
        elapsed > LIST_CACHE_TIME_SECS
    }

    /// Clear the entries and restart the freshness clock.
    pub fn reset(&mut self, now: u64)
        ensures
            final(self)@.channels.len() == 0,
            final(self)@.last_fetch == now,
    {
        self.channels = Vec::new();
        self.set_timestamp(now);
        proof {
            assert(self@.channels =~= Seq::<ChanView>::empty());
        }
    }

    /// Seconds since the last refresh.
    pub fn get_elapsed_time(&self, now: u64) -> (r: u64)
        ensures
            r == spec_elapsed(self@.last_fetch, now),
    {
        if now >= self.last_fetch {
            now - self.last_fetch
        } else {
            0
        }
    }

    /// The display lines of the entries matching the request, in arrival
    /// order.
    pub fn matching_lines(&self, request: &Request) -> (r: Vec<String>)
        requires
            request.wf(),
        ensures
            r.deep_view() == spec_results(self@.channels, request@),
    {
        let mut out: Vec<String> = Vec::new();
        proof {
            assert(out.deep_view() =~= spec_results(self@.channels.take(0), request@));
        }
        let n = self.channels.len();
        let mut j: usize = 0;
        while j < n
            invariant
                0 <= j <= n,
                n == self.channels@.len(),
                request.wf(),
                out.deep_view() == spec_results(self@.channels.take(j as int), request@),
            decreases n - j,
        {
            let c = &self.channels[j];
            proof {
                assert(self@.channels.take(j + 1).drop_last() =~= self@.channels.take(j as int));
                assert(self@.channels.take(j + 1).last() == c.deep_view());
            }
            if c.matches(request) {
                out.push(c.render());
            }
            proof {
                assert(out.deep_view() =~= spec_results(self@.channels.take(j + 1), request@));
            }
            j = j + 1;
        }
        proof {
            assert(self@.channels.take(n as int) =~= self@.channels);
        }
        out
    }
}

/// The match predicate of a request, as a function on entries.
pub open spec fn matches_pred(q: ReqView) -> spec_fn(ChanView) -> bool {
    |c: ChanView| spec_matches(c, q)
}

/// Rendering, as a function on entries.
pub open spec fn render_fn() -> spec_fn(ChanView) -> Seq<char> {
    |c: ChanView| spec_render_channel(c)
}

/// Arrival order is preserved: the results of a query are exactly the
/// matching entries, in the order they stand in the cache, each rendered.
pub proof fn lemma_results_are_filter_map(chs: Seq<ChanView>, q: ReqView)
    ensures
        spec_results(chs, q) == chs.filter(matches_pred(q)).map_values(render_fn()),
    decreases chs.len(),
{
    reveal_with_fuel(Seq::filter, 2);
    if chs.len() == 0 {
        assert(chs.filter(matches_pred(q)).map_values(render_fn()) =~= Seq::<Seq<char>>::empty());
    } else {
        let dl = chs.drop_last();
        lemma_results_are_filter_map(dl, q);
        if spec_matches(chs.last(), q) {
            assert(chs.filter(matches_pred(q)) == dl.filter(matches_pred(q)).push(chs.last()));
            assert(chs.filter(matches_pred(q)).map_values(render_fn()) =~= spec_results(dl, q)
                + seq![spec_render_channel(chs.last())]);
        } else {
            assert(chs.filter(matches_pred(q)) == dl.filter(matches_pred(q)));
            assert(spec_results(chs, q) =~= spec_results(dl, q));
        }
    }
}

/// The freshness law of the cache: immediately after a reset or a stamp the
/// cache has not expired, and it counts as expired exactly once strictly more
/// than the cache lifetime has passed since the stamp.
pub proof fn lemma_cache_expiry(st: ListingView, now: u64)
    requires
        now >= st.last_fetch,
    ensures
        !spec_expired(st.last_fetch, st.last_fetch),
        spec_expired(st.last_fetch, now) <==> now - st.last_fetch > LIST_CACHE_TIME_SECS,
{
}

} // verus!

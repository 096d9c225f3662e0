//! The refresh coordinator: a two-state machine (available / refreshing)
//! over the shared cache. The surrounding runtime holds it under one lock,
//! performs the emitted refresh request, and blocks waiting queries until the
//! state returns to available; every decision is taken here.

use vstd::prelude::*;
use crate::channel::ChanView;
use crate::channel::spec_channel_of;
use crate::channel::spec_record_ok;
use crate::listing::ChannelListing;
use crate::listing::ListingView;
use crate::listing::spec_elapsed;
use crate::listing::spec_expired;
use crate::listing::spec_results;
use crate::request::Request;

verus! {

/// Abstract value of the coordinator: whether the listing is available, and
/// the cache it guards.
#[verifier::ext_equal]
pub struct CoordView {
    pub available: bool,
    pub listing: ListingView,
}

/// What an arriving query must do next: read the cache at once, or wait for
/// the running refresh to complete — after emitting the refresh request first
/// when it started one.
#[derive(Clone, Copy, PartialEq, Eq, Structural, Debug)]
pub enum QueryDecision {
    ReadNow,
    Wait { emit: bool },
}

/// A query needs a refresh when it asks for one or the cache has expired.
pub open spec fn spec_needs_refresh(st: CoordView, force: bool, now: u64) -> bool {
    force || spec_expired(st.listing.last_fetch, now)
}

/// An arriving query emits a refresh request exactly when it needs a refresh
/// and the coordinator is available: it is the one that starts the refresh.
pub open spec fn spec_query_emits(st: CoordView, force: bool, now: u64) -> bool {
    spec_needs_refresh(st, force, now) && st.available
}

/// The coordinator state after a query arrives: starting a refresh clears the
/// cache, restarts its freshness clock and makes the listing unavailable;
/// otherwise nothing changes.
pub open spec fn spec_on_query_state(st: CoordView, force: bool, now: u64) -> CoordView {
    if spec_query_emits(st, force, now) {
        CoordView {
            available: false,
            listing: ListingView { channels: Seq::empty(), last_fetch: now },
        }
    } else {
        st
    }
}

/// What the arriving query is told to do.
pub open spec fn spec_on_query_decision(st: CoordView, force: bool, now: u64) -> QueryDecision {
    if !spec_needs_refresh(st, force, now) {
        QueryDecision::ReadNow
    } else {
        QueryDecision::Wait { emit: st.available }
    }
}

/// A session-ready event emits a refresh request exactly when the
/// coordinator is available, performing the same initiation transition.
pub open spec fn spec_session_ready_emits(st: CoordView) -> bool {
    st.available
}

/// The entries after a sequence of raw listing records has arrived: each
/// well-formed record appends its entry, each malformed one is dropped.
pub open spec fn spec_ingest(chs: Seq<ChanView>, records: Seq<Seq<Seq<char>>>) -> Seq<ChanView>
    decreases records.len(),
{
    if records.len() == 0 {
        chs
    } else {
        let rest = spec_ingest(chs, records.drop_last());
        if spec_record_ok(records.last()) {
            rest.push(spec_channel_of(records.last()))
        } else {
            rest
        }
    }
}

/// The refresh coordinator and the cache it owns.
pub struct Coordinator {
    available: bool,
    listing: ChannelListing,
}

impl View for Coordinator {
    type V = CoordView;

    closed spec fn view(&self) -> CoordView {
        CoordView { available: self.available, listing: self.listing@ }
    }
}

impl Coordinator {
    /// A fresh coordinator: available, with an empty cache stamped now.
    pub fn new(now: u64) -> (r: Coordinator)
        ensures
            r@.available,
            r@.listing.channels.len() == 0,
            r@.listing.last_fetch == now,
    {
        Coordinator { available: true, listing: ChannelListing::new(now) }
    }

    /// Whether the listing is currently available for reading.
    pub fn is_available(&self) -> (r: bool)
        ensures
            r == self@.available,
    {
        self.available
    }

    /// Number of cached entries.
    pub fn len(&self) -> (r: usize)
        ensures
            r == self@.listing.channels.len(),
    {
        self.listing.len()
    }

    /// A query arrives. If it needs a refresh and the coordinator is
    /// available, the initiation transition runs: the cache is cleared, the
    /// listing becomes unavailable, and the caller is told to emit the one
    /// refresh request and wait. If a refresh is already running, the caller
    /// joins it without emitting anything. Otherwise the caller may read at
    /// once and nothing changes.
    pub fn on_query(&mut self, force: bool, now: u64) -> (d: QueryDecision)
        ensures
            final(self)@ == spec_on_query_state(old(self)@, force, now),
            d == spec_on_query_decision(old(self)@, force, now),
            (d == QueryDecision::Wait { emit: true }) <==> spec_query_emits(
                old(self)@,
                force,
                now,
            ),
    {
        let expired = self.listing.has_expired(now);
        if force || expired {
            if self.available {
                self.available = false;
                self.listing.reset(now);
                proof {
                    assert(self@ =~= spec_on_query_state(old(self)@, force, now));
                }
                QueryDecision::Wait { emit: true }
            } else {
                QueryDecision::Wait { emit: false }
            }
        } else {
            QueryDecision::ReadNow
        }
    }

    /// A raw listing record arrives from the protocol session: its entry is
    /// appended, or the record is dropped when malformed. Availability and
    /// the freshness clock do not move.
    pub fn on_entry_record(&mut self, fields: &Vec<String>)
        ensures
            final(self)@.available == old(self)@.available,
            final(self)@.listing.last_fetch == old(self)@.listing.last_fetch,
            final(self)@.listing.channels == spec_ingest(
                old(self)@.listing.channels,
                seq![fields.deep_view()],
            ),
    {
        self.listing.add_channel(fields);
        proof {
            reveal_with_fuel(spec_ingest, 2);
            let one = seq![fields.deep_view()];
            assert(one.drop_last() =~= Seq::<Seq<Seq<char>>>::empty());
            assert(one.last() == fields.deep_view());
        }
    }

    /// The listing-complete event: the cache is stamped with the completion
    /// time and the listing becomes available; the entries stay as received.
    /// The caller wakes every waiting query after this.
    pub fn on_listing_complete(&mut self, now: u64)
        ensures
            final(self)@.available,
            final(self)@.listing.channels == old(self)@.listing.channels,
            final(self)@.listing.last_fetch == now,
    {
        self.listing.set_timestamp(now);
        self.available = true;
    }

    /// The session-ready event: an unconditional initial refresh. When the
    /// coordinator is available this runs the initiation transition and asks
    /// the caller to emit the refresh request; a refresh already running is
    /// left alone.
    pub fn on_session_ready(&mut self, now: u64) -> (emit: bool)
        ensures
            emit == spec_session_ready_emits(old(self)@),
            emit ==> final(self)@ == (CoordView {
                available: false,
                listing: ListingView { channels: Seq::empty(), last_fetch: now },
            }),
            !emit ==> final(self)@ == old(self)@,
    {
        if self.available {
            self.available = false;
            self.listing.reset(now);
            proof {
                assert(self@ =~= (CoordView {
                    available: false,
                    listing: ListingView { channels: Seq::empty(), last_fetch: now },
                }));
            }
            true
        } else {
            proof {
                assert(self@ =~= old(self)@);
            }
            false
        }
    }

    /// A consistent snapshot answer: the display lines of the matching
    /// entries in arrival order, and the cache's age. Taken by the caller
    /// under the same lock that guards mutation.
    pub fn answer(&self, request: &Request, now: u64) -> (r: (Vec<String>, u64))
        requires
            request.wf(),
        ensures
            r.0.deep_view() == spec_results(self@.listing.channels, request@),
            r.1 == spec_elapsed(self@.listing.last_fetch, now),
    {
        (self.listing.matching_lines(request), self.listing.get_elapsed_time(now))
    }
}

/// One event the coordinator reacts to, as each of its methods realizes it:
/// `Query` is `on_query`, `Record` is `on_entry_record`, `Complete` is
/// `on_listing_complete`, and `SessionReady` is `on_session_ready`.
pub enum CoordEvent {
    Query { force: bool, now: u64 },
    Record { fields: Seq<Seq<char>> },
    Complete { now: u64 },
    SessionReady { now: u64 },
}

/// The state after one event, exactly as the corresponding method's
/// contract states it.
pub open spec fn spec_step(st: CoordView, e: CoordEvent) -> CoordView {
    match e {
        CoordEvent::Query { force, now } => spec_on_query_state(st, force, now),
        CoordEvent::Record { fields } => CoordView {
            available: st.available,
            listing: ListingView {
                channels: spec_ingest(st.listing.channels, seq![fields]),
                last_fetch: st.listing.last_fetch,
            },
        },
        CoordEvent::Complete { now } => CoordView {
            available: true,
            listing: ListingView { channels: st.listing.channels, last_fetch: now },
        },
        CoordEvent::SessionReady { now } => if st.available {
            CoordView {
                available: false,
                listing: ListingView { channels: Seq::empty(), last_fetch: now },
            }
        } else {
            st
        },
    }
}

/// Whether one event emits a refresh request.
pub open spec fn spec_emits(st: CoordView, e: CoordEvent) -> bool {
    match e {
        CoordEvent::Query { force, now } => spec_query_emits(st, force, now),
        CoordEvent::SessionReady { now: _ } => spec_session_ready_emits(st),
        _ => false,
    }
}

/// The state after a sequence of events.
pub open spec fn spec_run(st: CoordView, events: Seq<CoordEvent>) -> CoordView
    decreases events.len(),
{
    if events.len() == 0 {
        st
    } else {
        spec_step(spec_run(st, events.drop_last()), events.last())
    }
}

/// How many refresh requests a sequence of events emits.
pub open spec fn spec_emission_count(st: CoordView, events: Seq<CoordEvent>) -> nat
    decreases events.len(),
{
    if events.len() == 0 {
        0
    } else {
        spec_emission_count(st, events.drop_last()) + if spec_emits(
            spec_run(st, events.drop_last()),
            events.last(),
        ) {
            1nat
        } else {
            0nat
        }
    }
}

/// At most one refresh request per contiguous refreshing period: once the
/// coordinator is unavailable, any sequence of events that holds no
/// completion — however many queries arrive, force or join, and however many
/// records come in — emits nothing and leaves the coordinator unavailable.
/// Together with `lemma_emission_starts_refresh`, the only emission of a
/// period is the one on the transition that began it.
pub proof fn lemma_refreshing_period_emits_nothing(st: CoordView, events: Seq<CoordEvent>)
    requires
        !st.available,
        forall|k: int| 0 <= k < events.len() ==> !(#[trigger] events[k] is Complete),
    ensures
        !spec_run(st, events).available,
        spec_emission_count(st, events) == 0,
    decreases events.len(),
{
    if events.len() > 0 {
        let rest = events.drop_last();
        assert(forall|k: int| 0 <= k < rest.len() ==> rest[k] == events[k]);
        lemma_refreshing_period_emits_nothing(st, rest);
        assert(!(events[events.len() - 1] is Complete));
    }
}

/// Single-flight law: while a refresh is running (the coordinator is
/// unavailable) no arriving query and no session-ready event emits a refresh
/// request, and an arriving query changes nothing; record and completion
/// events emit nothing by their shape. So at most one refresh request is
/// emitted per contiguous refreshing period — the one that started it.
pub proof fn lemma_single_flight(st: CoordView, force: bool, now: u64)
    requires
        !st.available,
    ensures
        !spec_query_emits(st, force, now),
        !spec_session_ready_emits(st),
        spec_on_query_state(st, force, now) == st,
{
}

/// A refresh request is only ever emitted on the transition from available
/// to refreshing.
pub proof fn lemma_emission_starts_refresh(st: CoordView, force: bool, now: u64)
    requires
        spec_query_emits(st, force, now),
    ensures
        st.available,
        !spec_on_query_state(st, force, now).available,
{
}

/// No needless wait: a query that does not force a refresh, against a cache
/// that has not expired, is told to read at once, emits nothing, and leaves
/// the coordinator untouched.
pub proof fn lemma_fresh_read_no_block(st: CoordView, now: u64)
    ensures
        !spec_expired(st.listing.last_fetch, now) ==> {
            &&& spec_on_query_decision(st, false, now) == QueryDecision::ReadNow
            &&& spec_on_query_state(st, false, now) == st
            &&& !spec_query_emits(st, false, now)
        },
{
}

/// Round trip: ingesting well-formed records appends exactly their entries
/// in arrival order — from an empty cache, N records yield N entries — and
/// the completion event leaves the entries untouched, so that is what the
/// snapshot shows.
pub proof fn lemma_round_trip(chs: Seq<ChanView>, records: Seq<Seq<Seq<char>>>)
    requires
        forall|k: int| 0 <= k < records.len() ==> spec_record_ok(#[trigger] records[k]),
    ensures
        spec_ingest(chs, records).len() == chs.len() + records.len(),
        forall|k: int| 0 <= k < chs.len() ==> spec_ingest(chs, records)[k] == chs[k],
        forall|k: int|
            0 <= k < records.len() ==> spec_ingest(chs, records)[chs.len() + k]
                == spec_channel_of(#[trigger] records[k]),
    decreases records.len(),
{
    if records.len() > 0 {
        let rest = records.drop_last();
        assert forall|k: int| 0 <= k < rest.len() implies spec_record_ok(#[trigger] rest[k]) by {
            assert(rest[k] == records[k]);
        }
        lemma_round_trip(chs, rest);
        assert(spec_record_ok(records.last()));
        assert forall|k: int|
            0 <= k < records.len() implies spec_ingest(chs, records)[chs.len() + k]
            == spec_channel_of(#[trigger] records[k]) by {
            if k < records.len() - 1 {
                assert(rest[k] == records[k]);
            } else {
                assert(records[k] == records.last());
            }
        }
    }
}

} // verus!

use crate::gate::item_hashes;
use crate::gate::lemma_new_indices;
use crate::gate::lemma_next_well_formed;
use crate::gate::new_indices;
use crate::gate::idle;
use crate::gate::next;
use crate::gate::records;
use crate::gate::turn_to;
use crate::gate::well_formed;
use crate::gate::FeedRecordView;
use crate::gate::GateActionView;
use crate::gate::GateEventView;
use crate::gate::GateView;
use crate::gate::Phase;
use vstd::prelude::*;

verus! {

/// The world around one cycle: what the store knows, and which channel
/// delivers which item. The store itself does not fail.
pub struct World {
    /// The store knows the feed.
    pub feed_known: bool,
    /// The item hashes that the store knows.
    pub known: Seq<Seq<char>>,
    /// Whether the channel (second) delivers the item at a position (first).
    pub delivers: spec_fn(int, int) -> bool,
}

/// The answer that the world gives to what the notification gate is
/// waiting for.
pub open spec fn answer(g: GateView, world: World) -> GateEventView {
    match g.phase {
        Phase::Idle => GateEventView::Begin,
        Phase::FeedLookup => GateEventView::FeedKnown(world.feed_known),
        Phase::ItemLookup => GateEventView::ItemsKnown(world.known),
        Phase::Delivering => GateEventView::Delivered((world.delivers)(g.queue[g.at], g.channel)),
        _ => GateEventView::Stored,
    }
}

/// How far a phase is from the turns of the items: the lookups come first.
pub open spec fn epoch(phase: Phase) -> int {
    match phase {
        Phase::Idle => 3,
        Phase::FeedLookup => 2,
        Phase::ItemLookup => 1,
        _ => 0,
    }
}

/// How far a phase is from the end of an item's turn.
pub open spec fn stage(phase: Phase) -> int {
    match phase {
        Phase::Delivering => 3,
        Phase::StoringFeed => 1,
        Phase::StoringItem => 1,
        _ => 0,
    }
}

/// Whether the handling has ended.
pub open spec fn ended(g: GateView) -> bool {
    g.phase == Phase::Done || g.phase == Phase::Aborted
}

/// Everything that the notification gate asks for, in order, from `g` on
/// until the feed is dealt with, in a world that answers each request.
#[verifier::opaque]
pub open spec fn cycle(g: GateView, world: World) -> Seq<GateActionView>
    decreases epoch(g.phase), g.queue.len() - g.at, stage(g.phase), g.channels - g.channel,
    when well_formed(g)
{
    if ended(g) {
        Seq::empty()
    } else {
        let (then, action) = next(g, answer(g, world));
        if ended(then) {
            seq![action]
        } else {
            seq![action] + cycle(then, world)
        }
    }
}

/// Whether every channel from `channel` on delivers the item at `item`.
pub open spec fn delivered_from(world: World, item: int, channel: int, channels: int) -> bool {
    forall|c: int| channel <= c < channels ==> #[trigger] (world.delivers)(item, c)
}

/// The request to record the one item at `item`.
pub open spec fn store_one(item: int) -> GateActionView {
    GateActionView::StoreItems { first: item, count: 1 }
}

/// The requests to record, one by one, those of the queued items that
/// every channel delivers.
pub open spec fn owed_of_queue(queue: Seq<int>, channels: int, world: World) -> Seq<
    GateActionView,
> {
    queue.filter(|item: int| delivered_from(world, item, 0, channels)).map_values(
        |item: int| store_one(item),
    )
}

/// The one request to record a new feed with all its items.
pub open spec fn owed_of_new_feed() -> Seq<GateActionView> {
    seq![GateActionView::StoreFeed]
}

/// What is to be recorded of a feed in one cycle: of a feed that the store
/// does not know, the feed and all its items if every channel delivers the
/// first item, and nothing otherwise; of a feed that it knows, one by one
/// and in the feed's order, the items with an unknown hash that every
/// channel delivers.
pub open spec fn owed(feed: FeedRecordView, channels: int, world: World) -> Seq<GateActionView> {
    if world.feed_known {
        owed_of_queue(
            new_indices(item_hashes(feed), world.known, feed.items.len() as int),
            channels,
            world,
        )
    } else if feed.items.len() > 0 && delivered_from(world, 0, 0, channels) {
        owed_of_new_feed()
    } else {
        Seq::empty()
    }
}

/// The requests among `actions` that record something.
pub open spec fn recorded(actions: Seq<GateActionView>) -> Seq<GateActionView> {
    actions.filter(|action: GateActionView| records(action))
}

/// [`well_formed`], kept folded in the proofs below.
#[verifier::opaque]
spec fn sound(g: GateView) -> bool {
    well_formed(g)
}

/// The step that the world's answer leads to, kept folded in the proofs
/// below.
#[verifier::opaque]
spec fn reply(g: GateView, world: World) -> (GateView, GateActionView) {
    next(g, answer(g, world))
}

/// [`turn_to`], kept folded in the proofs below.
#[verifier::opaque]
spec fn turn(g: GateView, at: int) -> (GateView, GateActionView) {
    turn_to(g, at)
}

/// The requests from the turn to a place of the queue on.
spec fn from_turn(g: GateView, at: int, world: World) -> Seq<GateActionView> {
    seq![turn(g, at).1] + cycle(turn(g, at).0, world)
}

/// A cycle that has not ended is its next request and the cycle after it.
proof fn lemma_cycle_unfold(g: GateView, world: World)
    requires
        sound(g),
        !ended(g),
    ensures
        cycle(g, world) == seq![reply(g, world).1] + cycle(reply(g, world).0, world),
        sound(reply(g, world).0),
{
    reveal(cycle);
    reveal(sound);
    reveal(reply);
    let then = next(g, answer(g, world)).0;
    lemma_next_well_formed(g, answer(g, world));
    if ended(then) {
        assert(cycle(then, world) == Seq::<GateActionView>::empty());
        assert(seq![next(g, answer(g, world)).1] + Seq::<GateActionView>::empty() =~= seq![
            next(g, answer(g, world)).1,
        ]);
    }
}

/// A cycle that has ended asks for nothing.
proof fn lemma_cycle_ended(g: GateView, world: World)
    requires
        sound(g),
        ended(g),
    ensures
        cycle(g, world) == Seq::<GateActionView>::empty(),
{
    reveal(cycle);
    reveal(sound);
}

/// Nothing is recorded where nothing is asked for.
proof fn lemma_recorded_empty()
    ensures
        recorded(Seq::<GateActionView>::empty()) == Seq::<GateActionView>::empty(),
{
    reveal(Seq::filter);
    assert(recorded(Seq::<GateActionView>::empty()) =~= Seq::<GateActionView>::empty());
}

/// A request in front of others is recorded, or not, before them.
proof fn lemma_recorded_prepend(action: GateActionView, rest: Seq<GateActionView>)
    ensures
        records(action) ==> recorded(seq![action] + rest) == seq![action] + recorded(rest),
        !records(action) ==> recorded(seq![action] + rest) == recorded(rest),
{
    let p = |action: GateActionView| records(action);
    rest.lemma_filter_prepend(action, p);
}

/// The last of some requests behind another is their own last.
proof fn lemma_last_prepend(action: GateActionView, rest: Seq<GateActionView>)
    ensures
        rest.len() > 0 ==> (seq![action] + rest).last() == rest.last(),
        rest.len() == 0 ==> (seq![action] + rest).last() == action,
{
}

/// What a channel's report leads to.
proof fn lemma_delivered(g: GateView, world: World)
    requires
        sound(g),
        g.phase == Phase::Delivering,
    ensures
        sound(reply(g, world).0),
        (world.delivers)(g.queue[g.at], g.channel) && g.channel + 1 < g.channels ==> {
            &&& reply(g, world).0 == GateView { channel: g.channel + 1, ..g }
            &&& !records(reply(g, world).1)
            &&& turn(reply(g, world).0, g.at + 1) == turn(g, g.at + 1)
        },
        (world.delivers)(g.queue[g.at], g.channel) && g.channel + 1 >= g.channels && !g.fresh ==> {
            &&& reply(g, world).1 == store_one(g.queue[g.at])
            &&& !ended(reply(g, world).0)
            &&& reply(reply(g, world).0, world) == turn(g, g.at + 1)
        },
        (world.delivers)(g.queue[g.at], g.channel) && g.channel + 1 >= g.channels && g.fresh ==> {
            &&& reply(g, world).1 == GateActionView::StoreFeed
            &&& reply(g, world).0 == GateView { phase: Phase::StoringFeed, ..g }
        },
        !(world.delivers)(g.queue[g.at], g.channel) && !g.fresh ==> reply(g, world) == turn(
            g,
            g.at + 1,
        ),
        !(world.delivers)(g.queue[g.at], g.channel) && g.fresh ==> reply(g, world).1
            == GateActionView::Finish && ended(reply(g, world).0),
{
    reveal(sound);
    reveal(reply);
    reveal(turn);
    lemma_next_well_formed(g, answer(g, world));
}

/// What a turn to a place of the queue leads to.
proof fn lemma_turn(g: GateView, at: int, world: World)
    requires
        sound(g),
        0 <= at <= g.queue.len(),
    ensures
        sound(turn(g, at).0),
        at >= g.queue.len() ==> ended(turn(g, at).0) && turn(g, at).1 == GateActionView::Finish,
        at < g.queue.len() && g.channels > 0 ==> {
            &&& turn(g, at).0 == GateView { phase: Phase::Delivering, at, channel: 0, ..g }
            &&& !records(turn(g, at).1)
            &&& turn(turn(g, at).0, at + 1) == turn(g, at + 1)
        },
        at < g.queue.len() && g.channels <= 0 && !g.fresh ==> {
            &&& turn(g, at).1 == store_one(g.queue[at])
            &&& !ended(turn(g, at).0)
            &&& reply(turn(g, at).0, world) == turn(g, at + 1)
        },
        at < g.queue.len() && g.channels <= 0 && g.fresh ==> {
            &&& turn(g, at).1 == GateActionView::StoreFeed
            &&& turn(g, at).0 == GateView { phase: Phase::StoringFeed, at, channel: 0, ..g }
        },
{
    reveal(sound);
    reveal(reply);
    reveal(turn);
}

/// Whether the channels from one on deliver is whether that one delivers
/// and those after it do.
proof fn lemma_delivered_from(world: World, item: int, channel: int, channels: int)
    ensures
        channel >= channels ==> delivered_from(world, item, channel, channels),
        channel < channels ==> (delivered_from(world, item, channel, channels) <==> (
        world.delivers)(item, channel) && delivered_from(world, item, channel + 1, channels)),
{
    if channel < channels && (world.delivers)(item, channel) && delivered_from(
        world,
        item,
        channel + 1,
        channels,
    ) {
        assert forall|c: int| channel <= c < channels implies #[trigger] (world.delivers)(
            item,
            c,
        ) by {
            if c > channel {
            }
        }
    }
}

/// The rest of a round in a feed that the store knows: from the channel
/// that the current item is with, the item is recorded if and only if that
/// channel and all after it deliver; then the next new item has its turn.
proof fn lemma_round_known(g: GateView, world: World)
    requires
        sound(g),
        g.phase == Phase::Delivering,
        !g.fresh,
        0 <= g.channel < g.channels,
    ensures
        delivered_from(world, g.queue[g.at], g.channel, g.channels) ==> recorded(cycle(g, world))
            == seq![store_one(g.queue[g.at])] + recorded(from_turn(g, g.at + 1, world)),
        !delivered_from(world, g.queue[g.at], g.channel, g.channels) ==> recorded(cycle(g, world))
            == recorded(from_turn(g, g.at + 1, world)),
        cycle(g, world).len() > 0,
        cycle(g, world).last() == from_turn(g, g.at + 1, world).last(),
    decreases g.channels - g.channel,
{
    let item = g.queue[g.at];
    let g2 = reply(g, world).0;
    let a2 = reply(g, world).1;
    lemma_cycle_unfold(g, world);
    lemma_delivered(g, world);
    lemma_delivered_from(world, item, g.channel, g.channels);
    lemma_delivered_from(world, item, g.channel + 1, g.channels);
    lemma_recorded_prepend(a2, cycle(g2, world));
    lemma_last_prepend(a2, cycle(g2, world));
    if (world.delivers)(item, g.channel) {
        if g.channel + 1 < g.channels {
            lemma_round_known(g2, world);
        } else {
            lemma_cycle_unfold(g2, world);
        }
    }
}

/// The queued items that every channel delivers, from a place of the queue
/// on, are the one at that place, if every channel delivers it, and those
/// from the next place on.
proof fn lemma_owed_unfold(queue: Seq<int>, at: int, world: World, channels: int)
    requires
        0 <= at < queue.len(),
    ensures
        delivered_from(world, queue[at], 0, channels) ==> owed_of_queue(
            queue.skip(at),
            channels,
            world,
        ) == seq![store_one(queue[at])] + owed_of_queue(queue.skip(at + 1), channels, world),
        !delivered_from(world, queue[at], 0, channels) ==> owed_of_queue(
            queue.skip(at),
            channels,
            world,
        ) == owed_of_queue(queue.skip(at + 1), channels, world),
{
    let pass = |item: int| delivered_from(world, item, 0, channels);
    let item = queue[at];
    let tail = queue.skip(at + 1);
    assert(queue.skip(at) =~= seq![item] + tail);
    tail.lemma_filter_prepend(item, pass);
    let stored_rest = tail.filter(pass).map_values(|item: int| store_one(item));
    if pass(item) {
        assert((seq![item] + tail.filter(pass)).map_values(|item: int| store_one(item))
            =~= seq![store_one(item)] + stored_rest);
    }
}

/// Behind the end of the queue nothing is owed.
proof fn lemma_owed_end(queue: Seq<int>, world: World, channels: int)
    ensures
        owed_of_queue(queue.skip(queue.len() as int), channels, world) == Seq::<
            GateActionView,
        >::empty(),
{
    let pass = |item: int| delivered_from(world, item, 0, channels);
    reveal(Seq::filter);
    assert(queue.skip(queue.len() as int) =~= Seq::<int>::empty());
    assert(queue.skip(queue.len() as int).filter(pass).map_values(|item: int| store_one(item))
        =~= Seq::<GateActionView>::empty());
}

/// From a place of the queue on, in a feed that the store knows: the items
/// recorded are the queued ones that every channel delivers, one by one in
/// the queue's order, and the last request is to finish.
proof fn lemma_rest_of_queue(g: GateView, at: int, world: World)
    requires
        sound(g),
        !g.fresh,
        0 <= at <= g.queue.len(),
    ensures
        recorded(from_turn(g, at, world)) == owed_of_queue(g.queue.skip(at), g.channels, world),
        from_turn(g, at, world).last() == GateActionView::Finish,
    decreases g.queue.len() - at,
{
    let g1 = turn(g, at).0;
    let a1 = turn(g, at).1;
    lemma_turn(g, at, world);
    lemma_recorded_prepend(a1, cycle(g1, world));
    lemma_last_prepend(a1, cycle(g1, world));
    if at >= g.queue.len() {
        lemma_cycle_ended(g1, world);
        lemma_recorded_empty();
        lemma_owed_end(g.queue, world, g.channels);
    } else {
        lemma_owed_unfold(g.queue, at, world, g.channels);
        lemma_rest_of_queue(g, at + 1, world);
        if g.channels <= 0 {
            lemma_delivered_from(world, g.queue[at], 0, g.channels);
            lemma_cycle_unfold(g1, world);
        } else {
            lemma_round_known(g1, world);
        }
    }
}

/// Once the feed is being recorded, nothing else is.
proof fn lemma_stored_fresh(g: GateView, world: World)
    requires
        sound(g),
        g.phase == Phase::StoringFeed,
    ensures
        recorded(cycle(g, world)) == Seq::<GateActionView>::empty(),
        cycle(g, world).len() > 0,
        cycle(g, world).last() == GateActionView::Finish,
{
    let g2 = reply(g, world).0;
    let a2 = reply(g, world).1;
    lemma_cycle_unfold(g, world);
    assert(g2.phase == Phase::Done && a2 == GateActionView::Finish) by {
        reveal(reply);
    }
    lemma_cycle_ended(g2, world);
    lemma_recorded_prepend(a2, cycle(g2, world));
    lemma_last_prepend(a2, cycle(g2, world));
    lemma_recorded_empty();
}

/// The rest of the trial of a feed that the store does not know: from the
/// channel that the first item is with, the feed is recorded with all its
/// items if that channel and all after it deliver, and nothing is recorded
/// if one of them fails.
proof fn lemma_round_fresh(g: GateView, world: World)
    requires
        sound(g),
        g.phase == Phase::Delivering,
        g.fresh,
        0 <= g.channel < g.channels,
    ensures
        delivered_from(world, g.queue[g.at], g.channel, g.channels) ==> recorded(cycle(g, world))
            == owed_of_new_feed(),
        !delivered_from(world, g.queue[g.at], g.channel, g.channels) ==> recorded(cycle(g, world))
            == Seq::<GateActionView>::empty(),
        cycle(g, world).len() > 0,
        cycle(g, world).last() == GateActionView::Finish,
    decreases g.channels - g.channel,
{
    let item = g.queue[g.at];
    let g2 = reply(g, world).0;
    let a2 = reply(g, world).1;
    lemma_cycle_unfold(g, world);
    lemma_delivered(g, world);
    lemma_delivered_from(world, item, g.channel, g.channels);
    lemma_delivered_from(world, item, g.channel + 1, g.channels);
    lemma_recorded_prepend(a2, cycle(g2, world));
    lemma_last_prepend(a2, cycle(g2, world));
    if (world.delivers)(item, g.channel) {
        if g.channel + 1 < g.channels {
            lemma_round_fresh(g2, world);
        } else {
            lemma_stored_fresh(g2, world);
            assert(seq![a2] + recorded(cycle(g2, world)) =~= owed_of_new_feed());
        }
    } else {
        lemma_cycle_ended(g2, world);
        lemma_recorded_empty();
    }
}

/// The cycle of a feed that the store does not know, from its trial on.
proof fn lemma_new_feed(g: GateView, world: World)
    requires
        sound(g),
        g.fresh,
        !world.feed_known,
        g.queue == (if g.feed.items.len() > 0 {
            seq![0int]
        } else {
            Seq::empty()
        }),
    ensures
        recorded(from_turn(g, 0, world)) == owed(g.feed, g.channels, world),
        from_turn(g, 0, world).last() == GateActionView::Finish,
{
    let g1 = turn(g, 0).0;
    let a1 = turn(g, 0).1;
    lemma_turn(g, 0, world);
    lemma_recorded_prepend(a1, cycle(g1, world));
    lemma_last_prepend(a1, cycle(g1, world));
    lemma_recorded_empty();
    if g.feed.items.len() > 0 {
        if g.channels <= 0 {
            lemma_delivered_from(world, 0, 0, g.channels);
            lemma_stored_fresh(g1, world);
            assert(seq![a1] + recorded(cycle(g1, world)) =~= owed_of_new_feed());
        } else {
            lemma_round_fresh(g1, world);
        }
    } else {
        lemma_cycle_ended(g1, world);
    }
}

/// What the answers to the two lookups lead to.
proof fn lemma_lookups(feed: FeedRecordView, channels: int, world: World)
    requires
        0 <= channels,
    ensures
        sound(idle(feed, channels)),
        reply(idle(feed, channels), world).1 == GateActionView::LookUpFeed,
        !ended(reply(idle(feed, channels), world).0),
        world.feed_known ==> {
            let g2 = reply(reply(idle(feed, channels), world).0, world);
            let base = GateView {
                queue: new_indices(item_hashes(feed), world.known, feed.items.len() as int),
                ..g2.0
            };
            &&& g2.1 == GateActionView::LookUpItems
            &&& !ended(g2.0)
            &&& sound(base)
            &&& !base.fresh
            &&& base.channels == channels
            &&& reply(g2.0, world) == turn(base, 0)
        },
        !world.feed_known ==> {
            let g1 = reply(idle(feed, channels), world).0;
            let base = GateView {
                fresh: true,
                queue: if feed.items.len() > 0 {
                    seq![0int]
                } else {
                    Seq::empty()
                },
                ..g1
            };
            &&& sound(base)
            &&& base.feed == feed
            &&& base.channels == channels
            &&& reply(g1, world) == turn(base, 0)
        },
{
    reveal(sound);
    reveal(reply);
    reveal(turn);
    lemma_new_indices(item_hashes(feed), world.known, feed.items.len() as int);
}

/// A whole cycle, from the first request to the last, in a world whose
/// store answers: what is recorded is exactly what is [`owed`], in that
/// order and each part once, and the last request is to finish.
pub proof fn lemma_cycle_records_what_is_owed(feed: FeedRecordView, channels: int, world: World)
    requires
        0 <= channels,
    ensures
        recorded(cycle(idle(feed, channels), world)) == owed(feed, channels, world),
        cycle(idle(feed, channels), world).last() == GateActionView::Finish,
{
    let g0 = idle(feed, channels);
    let g1 = reply(g0, world).0;
    let a1 = reply(g0, world).1;
    lemma_lookups(feed, channels, world);
    lemma_cycle_unfold(g0, world);
    lemma_cycle_unfold(g1, world);
    lemma_recorded_prepend(a1, cycle(g1, world));
    lemma_last_prepend(a1, cycle(g1, world));
    let g2 = reply(g1, world).0;
    let a2 = reply(g1, world).1;
    lemma_recorded_prepend(a2, cycle(g2, world));
    lemma_last_prepend(a2, cycle(g2, world));
    if world.feed_known {
        let queue = new_indices(item_hashes(feed), world.known, feed.items.len() as int);
        let base = GateView { queue, ..g2 };
        lemma_cycle_unfold(g2, world);
        lemma_rest_of_queue(base, 0, world);
        assert(queue.skip(0) =~= queue);
        assert(cycle(g2, world) == from_turn(base, 0, world));
    } else {
        let base = GateView {
            fresh: true,
            queue: if feed.items.len() > 0 {
                seq![0int]
            } else {
                Seq::empty()
            },
            ..g1
        };
        lemma_new_feed(base, world);
        assert(cycle(g1, world) == from_turn(base, 0, world));
    }
}

} // verus!

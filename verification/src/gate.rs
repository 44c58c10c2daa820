use crate::trigger::TriggerInfo;
use crate::trigger::TriggerInfoView;
use vstd::prelude::*;

verus! {

/// What the notification gate holds of one item: its content hash, and what is announced
/// and stored of it.
#[derive(Debug)]
pub struct ItemRecord {
    pub hash: String,
    pub info: TriggerInfo,
}

/// What the notification gate holds of a decoded feed: its content hash, its title, its
/// link or id, and its items in the order of the document.
#[derive(Debug)]
pub struct FeedRecord {
    pub hash: String,
    pub title: String,
    pub link: String,
    pub items: Vec<ItemRecord>,
}

/// The mathematical value of an [`ItemRecord`].
pub struct ItemRecordView {
    pub hash: Seq<char>,
    pub info: TriggerInfoView,
}

/// The mathematical value of a [`FeedRecord`].
pub struct FeedRecordView {
    pub hash: Seq<char>,
    pub title: Seq<char>,
    pub link: Seq<char>,
    pub items: Seq<ItemRecordView>,
}

impl View for ItemRecord {
    type V = ItemRecordView;

    open spec fn view(&self) -> ItemRecordView {
        ItemRecordView { hash: self.hash@, info: self.info@ }
    }
}

impl View for FeedRecord {
    type V = FeedRecordView;

    open spec fn view(&self) -> FeedRecordView {
        FeedRecordView {
            hash: self.hash@,
            title: self.title@,
            link: self.link@,
            items: self.items@.map_values(|item: ItemRecord| item@),
        }
    }
}

/// The hashes of a feed's items, in order.
pub open spec fn item_hashes(feed: FeedRecordView) -> Seq<Seq<char>> {
    feed.items.map_values(|item: ItemRecordView| item.hash)
}

/// The values of a list of strings.
pub open spec fn texts(list: Seq<String>) -> Seq<Seq<char>> {
    list.map_values(|s: String| s@)
}

/// The positions below `upto` of the hashes that `known` does not hold, in
/// rising order.
pub open spec fn new_indices(hashes: Seq<Seq<char>>, known: Seq<Seq<char>>, upto: int) -> Seq<int>
    decreases upto,
{
    if upto <= 0 {
        Seq::empty()
    } else if known.contains(hashes[upto - 1]) {
        new_indices(hashes, known, upto - 1)
    } else {
        new_indices(hashes, known, upto - 1).push(upto - 1)
    }
}

/// The positions that [`new_indices`] lists lie below `upto`, rise strictly,
/// and are exactly those whose hash `known` does not hold.
pub proof fn lemma_new_indices(hashes: Seq<Seq<char>>, known: Seq<Seq<char>>, upto: int)
    requires
        0 <= upto <= hashes.len(),
    ensures
        new_indices(hashes, known, upto).len() <= upto,
        forall|k: int|
            0 <= k < new_indices(hashes, known, upto).len() ==> 0 <= #[trigger] new_indices(
                hashes,
                known,
                upto,
            )[k] < upto,
        forall|k: int, l: int|
            0 <= k < l < new_indices(hashes, known, upto).len() ==> new_indices(
                hashes,
                known,
                upto,
            )[k] < new_indices(hashes, known, upto)[l],
        forall|j: int|
            0 <= j < upto ==> (new_indices(hashes, known, upto).contains(j) <==> !known.contains(
                #[trigger] hashes[j],
            )),
        forall|j: int| j < 0 || upto <= j ==> !new_indices(hashes, known, upto).contains(j),
    decreases upto,
{
    if upto > 0 {
        lemma_new_indices(hashes, known, upto - 1);
        let before = new_indices(hashes, known, upto - 1);
        let now = new_indices(hashes, known, upto);
        if !known.contains(hashes[upto - 1]) {
            assert(now == before.push(upto - 1));
            assert(now[before.len() as int] == upto - 1);
            assert forall|j: int| 0 <= j < upto implies (now.contains(j) <==> !known.contains(
                #[trigger] hashes[j],
            )) by {
                if j < upto - 1 {
                    if before.contains(j) {
                        let k = choose|k: int| 0 <= k < before.len() && before[k] == j;
                        assert(now[k] == j);
                    }
                    if now.contains(j) {
                        let k = choose|k: int| 0 <= k < now.len() && now[k] == j;
                        assert(before[k] == j);
                    }
                }
            }
            assert forall|j: int| j < 0 || upto <= j implies !now.contains(j) by {
                if now.contains(j) {
                    let k = choose|k: int| 0 <= k < now.len() && now[k] == j;
                    if k < before.len() {
                        assert(before[k] == j);
                    }
                }
            }
        } else {
            assert(now == before);
        }
    }
}

/// Where the notification gate stands in the handling of one feed.
#[derive(Debug, Clone, Copy, PartialEq, Eq, Structural)]
pub enum Phase {
    /// Nothing has been asked yet.
    Idle,
    /// The store is asked whether it knows the feed.
    FeedLookup,
    /// The store is asked which of the items it knows.
    ItemLookup,
    /// A channel is asked to deliver an item.
    Delivering,
    /// The store is asked to record a feed that is new, with all its items.
    StoringFeed,
    /// The store is asked to record one new item of a feed that it knows.
    StoringItem,
    /// The feed is dealt with.
    Done,
    /// The store failed, or an answer came that was not asked for.
    Aborted,
}

/// What happened outside since the notification gate's last request.
#[derive(Debug)]
pub enum GateEvent {
    /// Handling starts.
    Begin,
    /// The store knows the feed, or does not.
    FeedKnown(bool),
    /// The hashes, among those of the feed's items, that the store knows.
    ItemsKnown(Vec<String>),
    /// The channel delivered the item, or failed to.
    Delivered(bool),
    /// The store recorded what it was asked to.
    Stored,
    /// The store could not answer, or could not record.
    StoreFailed,
}

/// The mathematical value of a [`GateEvent`].
pub enum GateEventView {
    Begin,
    FeedKnown(bool),
    ItemsKnown(Seq<Seq<char>>),
    Delivered(bool),
    Stored,
    StoreFailed,
}

impl View for GateEvent {
    type V = GateEventView;

    open spec fn view(&self) -> GateEventView {
        match self {
            GateEvent::Begin => GateEventView::Begin,
            GateEvent::FeedKnown(known) => GateEventView::FeedKnown(*known),
            GateEvent::ItemsKnown(known) => GateEventView::ItemsKnown(texts(known@)),
            GateEvent::Delivered(ok) => GateEventView::Delivered(*ok),
            GateEvent::Stored => GateEventView::Stored,
            GateEvent::StoreFailed => GateEventView::StoreFailed,
        }
    }
}

/// What the notification gate asks to be done next. Items are named by their position in
/// the feed record.
#[derive(Debug, Clone, Copy, PartialEq, Eq)]
pub enum GateAction {
    /// Ask the store whether it knows the feed's hash.
    LookUpFeed,
    /// Ask the store which of the hashes of the feed's items it knows.
    LookUpItems,
    /// Hand the item to the channel.
    Deliver { channel: usize, item: usize },
    /// Record the feed, which is its hash, title and link, and with it all
    /// its items under the feed's hash, as one unit.
    StoreFeed,
    /// Record `count` items from position `first` on, as one unit, under
    /// the feed's hash.
    StoreItems { first: usize, count: usize },
    /// Nothing is left to do for this feed.
    Finish,
    /// Give up on this feed and report the failure.
    Abort,
}

/// The mathematical value of a [`GateAction`].
pub enum GateActionView {
    LookUpFeed,
    LookUpItems,
    Deliver { channel: int, item: int },
    StoreFeed,
    StoreItems { first: int, count: int },
    Finish,
    Abort,
}

impl View for GateAction {
    type V = GateActionView;

    open spec fn view(&self) -> GateActionView {
        match self {
            GateAction::LookUpFeed => GateActionView::LookUpFeed,
            GateAction::LookUpItems => GateActionView::LookUpItems,
            GateAction::Deliver { channel, item } => GateActionView::Deliver {
                channel: *channel as int,
                item: *item as int,
            },
            GateAction::StoreFeed => GateActionView::StoreFeed,
            GateAction::StoreItems { first, count } => GateActionView::StoreItems {
                first: *first as int,
                count: *count as int,
            },
            GateAction::Finish => GateActionView::Finish,
            GateAction::Abort => GateActionView::Abort,
        }
    }
}

/// The notification gate for one feed in one polling cycle.
///
/// It is driven from outside: each answer of the store or of a channel is
/// handed to [`Gate::step`], which says what to do next.
pub struct Gate {
    feed: FeedRecord,
    channels: usize,
    phase: Phase,
    fresh: bool,
    queue: Vec<usize>,
    at: usize,
    channel: usize,
}

/// The mathematical value of a [`Gate`].
pub struct GateView {
    /// The feed that is handled.
    pub feed: FeedRecordView,
    /// How many channels every item goes to.
    pub channels: int,
    pub phase: Phase,
    /// The store does not know the feed.
    pub fresh: bool,
    /// The positions of the items that are to be announced, in order.
    pub queue: Seq<int>,
    /// How far the queue has been worked off.
    pub at: int,
    /// The channel that the current item is with.
    pub channel: int,
}

/// A gate that has not been started.
pub open spec fn idle(feed: FeedRecordView, channels: int) -> GateView {
    GateView {
        feed,
        channels,
        phase: Phase::Idle,
        fresh: false,
        queue: Seq::empty(),
        at: 0,
        channel: 0,
    }
}

/// What holds of every gate: the queue names items of the feed, and while
/// an item is with a channel or with the store, it is one of the queue and
/// the channel is one of those configured.
pub open spec fn well_formed(g: GateView) -> bool {
    &&& 0 <= g.channels
    &&& 0 <= g.at <= g.queue.len()
    &&& forall|i: int| 0 <= i < g.queue.len() ==> 0 <= #[trigger] g.queue[i] < g.feed.items.len()
    &&& g.phase == Phase::Delivering ==> g.at < g.queue.len() && 0 <= g.channel < g.channels
    &&& g.phase == Phase::StoringItem ==> g.at < g.queue.len()
}

/// Every channel has delivered the current item, so it is recorded: as
/// part of the whole feed where the feed is new, alone where it is not.
pub open spec fn record(g: GateView) -> (GateView, GateActionView) {
    if g.fresh {
        (GateView { phase: Phase::StoringFeed, ..g }, GateActionView::StoreFeed)
    } else {
        (
            GateView { phase: Phase::StoringItem, ..g },
            GateActionView::StoreItems { first: g.queue[g.at], count: 1 },
        )
    }
}

/// The notification gate turns to place `at` of its queue: it finishes where the queue
/// ends there, and else hands the item to the first channel, or records it
/// at once where no channel is configured.
pub open spec fn turn_to(g: GateView, at: int) -> (GateView, GateActionView) {
    if at >= g.queue.len() {
        (GateView { phase: Phase::Done, at, channel: 0, ..g }, GateActionView::Finish)
    } else if g.channels <= 0 {
        record(GateView { at, channel: 0, ..g })
    } else {
        (
            GateView { phase: Phase::Delivering, at, channel: 0, ..g },
            GateActionView::Deliver { channel: 0, item: g.queue[at] },
        )
    }
}

/// The notification gate after an event, and what it asks for.
///
/// A feed that the store does not know is tried with its first item alone:
/// only if every channel delivers it are the feed and all its items
/// recorded, in one request. Of a feed that the store knows, each item with an unknown hash
/// goes to every channel in turn, and is recorded if and only if all of
/// them deliver it; a failure ends the turn of that item alone. A failure
/// of the store, or an answer that was not asked for, ends the handling.
pub open spec fn next(g: GateView, event: GateEventView) -> (GateView, GateActionView) {
    match (g.phase, event) {
        (Phase::Idle, GateEventView::Begin) => (
            GateView { phase: Phase::FeedLookup, ..g },
            GateActionView::LookUpFeed,
        ),
        (Phase::FeedLookup, GateEventView::FeedKnown(known)) => if known {
            (GateView { phase: Phase::ItemLookup, fresh: false, ..g }, GateActionView::LookUpItems)
        } else {
            turn_to(
                GateView {
                    fresh: true,
                    queue: if g.feed.items.len() > 0 {
                        seq![0int]
                    } else {
                        Seq::empty()
                    },
                    ..g
                },
                0,
            )
        },
        (Phase::ItemLookup, GateEventView::ItemsKnown(known)) => turn_to(
            GateView {
                queue: new_indices(item_hashes(g.feed), known, g.feed.items.len() as int),
                ..g
            },
            0,
        ),
        (Phase::Delivering, GateEventView::Delivered(ok)) => if ok {
            if g.channel + 1 < g.channels {
                (
                    GateView { channel: g.channel + 1, ..g },
                    GateActionView::Deliver { channel: g.channel + 1, item: g.queue[g.at] },
                )
            } else {
                record(g)
            }
        } else if g.fresh {
            (GateView { phase: Phase::Done, ..g }, GateActionView::Finish)
        } else {
            turn_to(g, g.at + 1)
        },
        (Phase::StoringFeed, GateEventView::Stored) => (
            GateView { phase: Phase::Done, ..g },
            GateActionView::Finish,
        ),
        (Phase::StoringItem, GateEventView::Stored) => turn_to(g, g.at + 1),
        (Phase::Done, _) => (g, GateActionView::Finish),
        _ => (GateView { phase: Phase::Aborted, ..g }, GateActionView::Abort),
    }
}

/// Whether `known` holds `hash`.
pub fn holds(known: &Vec<String>, hash: &String) -> (found: bool)
    ensures
        found == texts(known@).contains(hash@),
{
    let mut k: usize = 0;
    while k < known.len()
        invariant
            k <= known.len(),
            forall|j: int| 0 <= j < k ==> texts(known@)[j] != hash@,
        decreases known.len() - k,
    {
        if known[k] == *hash {
            assert(texts(known@)[k as int] == hash@);
            return true;
        }
        k = k + 1;
    }
    false
}

/// The positions of the items whose hash `known` does not hold, in the
/// order of the items.
pub fn select_new(items: &Vec<ItemRecord>, known: &Vec<String>) -> (queue: Vec<usize>)
    ensures
        queue@.map_values(|i: usize| i as int) == new_indices(
            items@.map_values(|item: ItemRecord| item@.hash),
            texts(known@),
            items.len() as int,
        ),
{
    let ghost hashes = items@.map_values(|item: ItemRecord| item@.hash);
    let mut queue: Vec<usize> = Vec::new();
    let mut i: usize = 0;
    assert(queue@.map_values(|i: usize| i as int) =~= new_indices(hashes, texts(known@), 0));
    while i < items.len()
        invariant
            i <= items.len(),
            hashes == items@.map_values(|item: ItemRecord| item@.hash),
            queue@.map_values(|i: usize| i as int) == new_indices(hashes, texts(known@), i as int),
        decreases items.len() - i,
    {
        let ghost before = queue@.map_values(|i: usize| i as int);
        if !holds(known, &items[i].hash) {
            queue.push(i);
            assert(queue@.map_values(|i: usize| i as int) =~= before.push(i as int));
        }
        i = i + 1;
    }
    queue
}

impl View for Gate {
    type V = GateView;

    closed spec fn view(&self) -> GateView {
        GateView {
            feed: self.feed@,
            channels: self.channels as int,
            phase: self.phase,
            fresh: self.fresh,
            queue: self.queue@.map_values(|i: usize| i as int),
            at: self.at as int,
            channel: self.channel as int,
        }
    }
}

impl Gate {
    #[verifier::type_invariant]
    spec fn inv(self) -> bool {
        well_formed(self@)
    }

    /// A gate for `feed` and `channels` notification channels, not started.
    pub fn new(feed: FeedRecord, channels: usize) -> (gate: Self)
        ensures
            gate@ == idle(feed@, channels as int),
            well_formed(gate@),
    {
        let gate = Gate {
            feed,
            channels,
            phase: Phase::Idle,
            fresh: false,
            queue: Vec::new(),
            at: 0,
            channel: 0,
        };
        assert(gate@.queue =~= Seq::empty());
        gate
    }

    /// The feed that the notification gate handles.
    pub fn feed(&self) -> (feed: &FeedRecord)
        ensures
            feed@ == self@.feed,
    {
        &self.feed
    }

    /// Where the notification gate stands.
    pub fn phase(&self) -> (phase: Phase)
        ensures
            phase == self@.phase,
    {
        self.phase
    }

    fn record(&mut self) -> (action: GateAction)
        requires
            old(self).at < old(self).queue.len(),
        ensures
            (final(self)@, action@) == record(old(self)@),
    {
        proof {
            use_type_invariant(&*self);
        }
        if self.fresh {
            self.phase = Phase::StoringFeed;
            GateAction::StoreFeed
        } else {
            self.phase = Phase::StoringItem;
            GateAction::StoreItems { first: self.queue[self.at], count: 1 }
        }
    }

    fn turn_to(&mut self, at: usize) -> (action: GateAction)
        requires
            at <= old(self).queue.len(),
        ensures
            (final(self)@, action@) == turn_to(old(self)@, at as int),
    {
        proof {
            use_type_invariant(&*self);
        }
        if at >= self.queue.len() {
            self.phase = Phase::Done;
            self.at = at;
            self.channel = 0;
            GateAction::Finish
        } else if self.channels == 0 {
            self.at = at;
            self.channel = 0;
            self.record()
        } else {
            self.at = at;
            self.channel = 0;
            self.phase = Phase::Delivering;
            GateAction::Deliver { channel: 0, item: self.queue[at] }
        }
    }

    /// Takes in what happened outside and says what to do next.
    pub fn step(&mut self, event: &GateEvent) -> (action: GateAction)
        ensures
            (final(self)@, action@) == next(old(self)@, event@),
            well_formed(old(self)@),
            well_formed(final(self)@),
    {
        proof {
            use_type_invariant(&*self);
        }
        match (self.phase, event) {
            (Phase::Idle, GateEvent::Begin) => {
                self.phase = Phase::FeedLookup;
                GateAction::LookUpFeed
            },
            (Phase::FeedLookup, GateEvent::FeedKnown(known)) => {
                if *known {
                    self.phase = Phase::ItemLookup;
                    self.fresh = false;
                    GateAction::LookUpItems
                } else {
                    self.fresh = true;
                    let mut queue: Vec<usize> = Vec::new();
                    if self.feed.items.len() > 0 {
                        queue.push(0);
                    }
                    self.at = 0;
                    self.queue = queue;
                    assert(self@.queue =~= if old(self)@.feed.items.len() > 0 {
                        seq![0int]
                    } else {
                        Seq::empty()
                    });
                    self.turn_to(0)
                }
            },
            (Phase::ItemLookup, GateEvent::ItemsKnown(known)) => {
                let queue = select_new(&self.feed.items, known);
                proof {
                    lemma_new_indices(
                        item_hashes(self@.feed),
                        texts(known@),
                        self.feed.items.len() as int,
                    );
                    assert(item_hashes(self@.feed) =~= self.feed.items@.map_values(
                        |item: ItemRecord| item@.hash,
                    ));
                }
                self.at = 0;
                self.queue = queue;
                self.turn_to(0)
            },
            (Phase::Delivering, GateEvent::Delivered(ok)) => {
                if *ok {
                    if self.channel + 1 < self.channels {
                        self.channel = self.channel + 1;
                        GateAction::Deliver { channel: self.channel, item: self.queue[self.at] }
                    } else {
                        self.record()
                    }
                } else if self.fresh {
                    self.phase = Phase::Done;
                    GateAction::Finish
                } else {
                    assert(self.at < self.queue.len());
                    self.turn_to(self.at + 1)
                }
            },
            (Phase::StoringFeed, GateEvent::Stored) => {
                self.phase = Phase::Done;
                GateAction::Finish
            },
            (Phase::StoringItem, GateEvent::Stored) => {
                assert(self.at < self.queue.len());
                self.turn_to(self.at + 1)
            },
            (Phase::Done, _) => GateAction::Finish,
            _ => {
                self.phase = Phase::Aborted;
                GateAction::Abort
            },
        }
    }
}

/// The hashes at the positions that [`new_indices`] lists are the hashes
/// that `known` does not hold, in the order in which the feed has them:
/// the new items are the feed's items less the known ones.
pub proof fn lemma_new_items_are_the_unknown(hashes: Seq<Seq<char>>, known: Seq<Seq<char>>)
    ensures
        new_indices(hashes, known, hashes.len() as int).map_values(|i: int| hashes[i])
            == hashes.filter(|hash: Seq<char>| !known.contains(hash)),
{
    lemma_new_items_up_to(hashes, known, hashes.len() as int);
    assert(hashes.take(hashes.len() as int) =~= hashes);
}

proof fn lemma_new_items_up_to(hashes: Seq<Seq<char>>, known: Seq<Seq<char>>, upto: int)
    requires
        0 <= upto <= hashes.len(),
    ensures
        new_indices(hashes, known, upto).map_values(|i: int| hashes[i]) == hashes.take(upto).filter(
            |hash: Seq<char>| !known.contains(hash),
        ),
    decreases upto,
{
    reveal(Seq::filter);
    let unknown = |hash: Seq<char>| !known.contains(hash);
    if upto == 0 {
        assert(new_indices(hashes, known, upto).map_values(|i: int| hashes[i]) =~= Seq::empty());
    } else {
        lemma_new_items_up_to(hashes, known, upto - 1);
        assert(hashes.take(upto).drop_last() =~= hashes.take(upto - 1));
        assert(hashes.take(upto).last() == hashes[upto - 1]);
        let before = new_indices(hashes, known, upto - 1);
        if !known.contains(hashes[upto - 1]) {
            assert(before.push(upto - 1).map_values(|i: int| hashes[i]) =~= before.map_values(
                |i: int| hashes[i],
            ).push(hashes[upto - 1]));
        }
    }
}

/// The events in which one channel after another reports as `outcomes`
/// says.
pub open spec fn deliveries(outcomes: Seq<bool>) -> Seq<GateEventView> {
    outcomes.map_values(|ok: bool| GateEventView::Delivered(ok))
}

/// The notification gate after a run of events.
pub open spec fn after(g: GateView, events: Seq<GateEventView>) -> GateView
    decreases events.len(),
{
    if events.len() == 0 {
        g
    } else {
        after(next(g, events[0]).0, events.drop_first())
    }
}

/// What the notification gate asks for, event by event, during a run of events.
pub open spec fn asked(g: GateView, events: Seq<GateEventView>) -> Seq<GateActionView>
    decreases events.len(),
{
    if events.len() == 0 {
        Seq::empty()
    } else {
        seq![next(g, events[0]).1] + asked(next(g, events[0]).0, events.drop_first())
    }
}

/// Whether an action records anything in the store.
pub open spec fn records(action: GateActionView) -> bool {
    action is StoreFeed || action is StoreItems
}

/// All or nothing, the first half: when every channel that is still to be
/// asked delivers the current item, the notification gate asks each of them in turn and
/// then, once, for the record: of the item alone where the store knows the
/// feed, of the feed where it does not. Nothing is recorded before that.
pub proof fn lemma_recorded_when_all_deliver(g: GateView, outcomes: Seq<bool>)
    requires
        well_formed(g),
        g.phase == Phase::Delivering,
        outcomes.len() == g.channels - g.channel,
        forall|k: int| 0 <= k < outcomes.len() ==> outcomes[k],
    ensures
        asked(g, deliveries(outcomes)).len() == outcomes.len(),
        forall|k: int|
            0 <= k < outcomes.len() - 1 ==> #[trigger] asked(g, deliveries(outcomes))[k] == (
            GateActionView::Deliver { channel: g.channel + k + 1, item: g.queue[g.at] }),
        asked(g, deliveries(outcomes)).last() == record(g).1,
        after(g, deliveries(outcomes)) == record(GateView { channel: g.channels - 1, ..g }).0,
    decreases outcomes.len(),
{
    let events = deliveries(outcomes);
    let g1 = next(g, events[0]).0;
    assert(events[0] == GateEventView::Delivered(outcomes[0]));
    assert(after(g, events) == after(g1, events.drop_first()));
    if outcomes.len() == 1 {
        assert(events.drop_first() =~= Seq::<GateEventView>::empty());
        assert(after(g1, events.drop_first()) == g1);
        assert(asked(g1, events.drop_first()) =~= Seq::<GateActionView>::empty());
        assert(asked(g, events) =~= seq![next(g, events[0]).1]);
        assert(g == GateView { channel: g.channels - 1, ..g });
    } else {
        let rest = outcomes.drop_first();
        assert(events.drop_first() =~= deliveries(rest));
        lemma_recorded_when_all_deliver(g1, rest);
        assert(record(g1).1 == record(g).1);
        assert(GateView { channel: g1.channels - 1, ..g1 } == GateView {
            channel: g.channels - 1,
            ..g
        });
        let tail = asked(g1, deliveries(rest));
        assert(asked(g, events) =~= seq![next(g, events[0]).1] + tail);
        assert forall|k: int| 0 <= k < outcomes.len() - 1 implies #[trigger] asked(g, events)[k]
            == (GateActionView::Deliver { channel: g.channel + k + 1, item: g.queue[g.at] }) by {
            if k > 0 {
                assert(asked(g, events)[k] == tail[k - 1]);
            }
        }
        assert(asked(g, events).last() == tail.last());
    }
}

/// All or nothing, the second half: when the channels deliver the current
/// item up to one that fails, the notification gate asks each of them in turn, records
/// nothing, and leaves the item: it finishes where the feed is new to the
/// store, and else turns to the next new item.
pub proof fn lemma_dropped_when_one_fails(g: GateView, outcomes: Seq<bool>)
    requires
        well_formed(g),
        g.phase == Phase::Delivering,
        1 <= outcomes.len() <= g.channels - g.channel,
        forall|k: int| 0 <= k < outcomes.len() - 1 ==> outcomes[k],
        !outcomes.last(),
    ensures
        asked(g, deliveries(outcomes)).len() == outcomes.len(),
        forall|k: int|
            0 <= k < outcomes.len() - 1 ==> #[trigger] asked(g, deliveries(outcomes))[k] == (
            GateActionView::Deliver { channel: g.channel + k + 1, item: g.queue[g.at] }),
        forall|k: int|
            0 <= k < outcomes.len() ==> !records(#[trigger] asked(g, deliveries(outcomes))[k]),
        g.fresh ==> after(g, deliveries(outcomes)).phase == Phase::Done && asked(
            g,
            deliveries(outcomes),
        ).last() == GateActionView::Finish,
        !g.fresh ==> (after(g, deliveries(outcomes)), asked(g, deliveries(outcomes)).last())
            == turn_to(g, g.at + 1),
    decreases outcomes.len(),
{
    let events = deliveries(outcomes);
    let g1 = next(g, events[0]).0;
    assert(events[0] == GateEventView::Delivered(outcomes[0]));
    assert(after(g, events) == after(g1, events.drop_first()));
    if outcomes.len() == 1 {
        assert(events.drop_first() =~= Seq::<GateEventView>::empty());
        assert(after(g1, events.drop_first()) == g1);
        assert(asked(g1, events.drop_first()) =~= Seq::<GateActionView>::empty());
        assert(asked(g, events) =~= seq![next(g, events[0]).1]);
    } else {
        let rest = outcomes.drop_first();
        assert(events.drop_first() =~= deliveries(rest));
        assert(outcomes[0]);
        assert(forall|k: int| 0 <= k < rest.len() - 1 ==> rest[k] == outcomes[k + 1]);
        assert(rest.last() == outcomes.last());
        lemma_dropped_when_one_fails(g1, rest);
        let tail = asked(g1, deliveries(rest));
        assert(asked(g, events) =~= seq![next(g, events[0]).1] + tail);
        assert forall|k: int| 0 <= k < outcomes.len() - 1 implies #[trigger] asked(g, events)[k]
            == (GateActionView::Deliver { channel: g.channel + k + 1, item: g.queue[g.at] }) by {
            if k > 0 {
                assert(asked(g, events)[k] == tail[k - 1]);
            }
        }
        assert forall|k: int| 0 <= k < outcomes.len() implies !records(
            #[trigger] asked(g, events)[k],
        ) by {
            if k > 0 {
                assert(asked(g, events)[k] == tail[k - 1]);
            }
        }
        assert(asked(g, events).last() == tail.last());
        assert(turn_to(g1, g1.at + 1) == turn_to(g, g.at + 1));
    }
}

/// A failure of the store ends the handling, whatever was being waited
/// for, and once it has ended that way, nothing more is asked for.
pub proof fn lemma_store_failure_ends_the_handling(g: GateView, event: GateEventView)
    ensures
        g.phase != Phase::Done ==> next(g, GateEventView::StoreFailed) == (
            GateView { phase: Phase::Aborted, ..g },
            GateActionView::Abort,
        ),
        g.phase == Phase::Aborted ==> next(g, event) == (g, GateActionView::Abort),
{
}

/// A step keeps a well-formed gate well formed.
pub proof fn lemma_next_well_formed(g: GateView, event: GateEventView)
    requires
        well_formed(g),
    ensures
        well_formed(next(g, event).0),
{
    match (g.phase, event) {
        (Phase::ItemLookup, GateEventView::ItemsKnown(known)) => {
            lemma_new_indices(item_hashes(g.feed), known, g.feed.items.len() as int);
        },
        _ => {},
    }
}

} // verus!

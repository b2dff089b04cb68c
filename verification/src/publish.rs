//! Planning the publication of events: the entry that the bus gets for each
//! event, the batches in which the entries are submitted, and the verdict
//! over what the submissions returned.

use crate::json::json_text;
use crate::model::{Event, EventView};
use crate::schema::event_json;
use vstd::prelude::*;

verus! {

/// The most entries that the bus takes in one request.
pub const BATCH_LIMIT: usize = 10;

/// Where the events go and under which source they are published.
#[derive(Clone, Debug)]
pub struct BusConfig {
    pub bus_name: String,
    pub source: String,
}

/// One entry of a request to the bus.
#[derive(Clone, Debug)]
pub struct BusEntry {
    pub bus_name: String,
    pub source: String,
    pub detail_type: String,
    pub resource_key: String,
    pub detail_json: String,
}

/// The mathematical value of a [`BusEntry`].
pub struct BusEntryView {
    pub bus_name: Seq<char>,
    pub source: Seq<char>,
    pub detail_type: Seq<char>,
    pub resource_key: Seq<char>,
    pub detail_json: Seq<char>,
}

impl View for BusEntry {
    type V = BusEntryView;

    open spec fn view(&self) -> BusEntryView {
        BusEntryView {
            bus_name: self.bus_name@,
            source: self.source@,
            detail_type: self.detail_type@,
            resource_key: self.resource_key@,
            detail_json: self.detail_json@,
        }
    }
}

/// The source under which events are published unless the configuration
/// names another.
pub open spec fn default_source() -> Seq<char> {
    "preprocess-test-runs"@
}

impl BusConfig {
    /// A configuration for the bus `bus_name`, with the default source.
    pub fn new(bus_name: String) -> (config: BusConfig)
        ensures
            config.bus_name@ == bus_name@,
            config.source@ == default_source(),
    {
        BusConfig { bus_name, source: "preprocess-test-runs".to_owned() }
    }
}

/// The type under which the bus routes an event.
pub open spec fn detail_type_of(event: EventView) -> Seq<char> {
    match event {
        EventView::Created { .. } => "TestRunCreated"@,
        EventView::Updated { .. } => "TestRunUpdated"@,
        EventView::Deleted { .. } => "TestRunDeleted"@,
    }
}

/// The entry that the bus gets for an event: the routing data of the
/// configuration, the type and the id of the event, and as detail the text
/// that `serde_json` writes for the event's document.
pub open spec fn entry_of(event: EventView, bus_name: Seq<char>, source: Seq<char>) -> BusEntryView {
    BusEntryView {
        bus_name,
        source,
        detail_type: detail_type_of(event),
        resource_key: event.id(),
        detail_json: json_text(event_json(event)),
    }
}

impl Event {
    /// The type under which the bus routes this event.
    pub fn detail_type(&self) -> (name: &'static str)
        ensures
            name@ == detail_type_of(self@),
    {
        match self {
            Event::Created { .. } => "TestRunCreated",
            Event::Updated { .. } => "TestRunUpdated",
            Event::Deleted { .. } => "TestRunDeleted",
        }
    }

    /// The entry that the bus gets for this event.
    pub fn to_eventbridge(&self, config: &BusConfig) -> (entry: BusEntry)
        ensures
            entry@ == entry_of(self@, config.bus_name@, config.source@),
    {
        BusEntry {
            bus_name: config.bus_name.clone(),
            source: config.source.clone(),
            detail_type: self.detail_type().to_owned(),
            resource_key: self.id().to_owned(),
            detail_json: self.to_json().to_text(),
        }
    }
}

/// The number of batches that `n` entries are submitted in.
pub open spec fn batch_count(n: nat) -> nat {
    (n + 9) / 10
}

/// Where the batch `b` of `n` entries ends.
pub open spec fn batch_end(n: nat, b: int) -> int {
    if 10 * b + 10 <= n {
        10 * b + 10
    } else {
        n as int
    }
}

/// The batch `b` of a sequence: ten consecutive items from `10 * b` on, or
/// what is left of the sequence.
pub open spec fn batch_of<A>(s: Seq<A>, b: int) -> Seq<A> {
    s.subrange(10 * b, batch_end(s.len(), b))
}

/// The batches of a sequence, in its order.
pub open spec fn batches_of<A>(s: Seq<A>) -> Seq<Seq<A>> {
    Seq::new(batch_count(s.len()), |b: int| batch_of(s, b))
}

/// The batches taken one after the other give a prefix of the sequence.
proof fn lemma_batches_prefix<A>(s: Seq<A>, k: int)
    requires
        0 <= k <= batch_count(s.len()),
    ensures
        batches_of(s).take(k).flatten() == s.take(if 10 * k <= s.len() {
            10 * k
        } else {
            s.len() as int
        }),
    decreases k,
{
    let batches = batches_of(s);
    if k == 0 {
        assert(batches.take(0) =~= Seq::<Seq<A>>::empty());
        assert(batches.take(0).flatten() =~= s.take(0));
    } else {
        lemma_batches_prefix(s, k - 1);
        let before = batches.take(k - 1);
        assert(batches.take(k) =~= before.push(batches[k - 1]));
        before.lemma_flatten_push(batches[k - 1]);
        assert(before.flatten() + batch_of(s, k - 1) =~= s.take(
            if 10 * k <= s.len() {
                10 * k
            } else {
                s.len() as int
            },
        ));
    }
}

/// Batching cuts a sequence of `n` items into `ceil(n / 10)` pieces of at
/// most ten items each, all but the last of exactly ten, none empty, which
/// put together in their order give the sequence again.
pub proof fn lemma_batches<A>(s: Seq<A>)
    ensures
        batches_of(s).len() == batch_count(s.len()),
        10 * (batch_count(s.len()) - 1) < s.len() <= 10 * batch_count(s.len()) || (s.len() == 0
            && batch_count(s.len()) == 0),
        forall|b: int|
            0 <= b < batches_of(s).len() ==> 1 <= (#[trigger] batches_of(s)[b]).len() <= 10,
        forall|b: int|
            0 <= b < batches_of(s).len() - 1 ==> (#[trigger] batches_of(s)[b]).len() == 10,
        batches_of(s).flatten() == s,
{
    let batches = batches_of(s);
    lemma_batches_prefix(s, batches.len() as int);
    assert(batches.take(batches.len() as int) =~= batches);
    assert(s.take(s.len() as int) =~= s);
}

/// The entries that the bus gets for a sequence of events.
pub open spec fn entries_of(events: Seq<Event>, bus_name: Seq<char>, source: Seq<char>) -> Seq<
    BusEntryView,
> {
    Seq::new(events.len(), |i: int| entry_of(events[i]@, bus_name, source))
}

/// The value of a list of batches.
pub open spec fn plan_view(plan: Seq<Vec<BusEntry>>) -> Seq<Seq<BusEntryView>> {
    Seq::new(plan.len(), |b: int| Seq::new(plan[b]@.len(), |k: int| plan[b]@[k]@))
}

/// Plans the publication of `events`: the entry of each event, cut into the
/// batches that are submitted to the bus, each in one request.
pub fn batches(events: &[Event], config: &BusConfig) -> (plan: Vec<Vec<BusEntry>>)
    ensures
        plan_view(plan@) == batches_of(entries_of(events@, config.bus_name@, config.source@)),
{
    let n = events.len();
    let ghost target = entries_of(events@, config.bus_name@, config.source@);
    let mut plan: Vec<Vec<BusEntry>> = Vec::new();
    let mut start: usize = 0;
    while start < n
        invariant
            n == events@.len(),
            target == entries_of(events@, config.bus_name@, config.source@),
            start <= n,
            start == 10 * plan@.len() || (start == n && plan@.len() == batch_count(n as nat)),
            plan@.len() <= batch_count(n as nat),
            forall|b: int|
                0 <= b < plan@.len() ==> (#[trigger] plan_view(plan@)[b]) == batch_of(target, b),
        decreases n - start,
    {
        let end: usize = if n - start > BATCH_LIMIT {
            start + BATCH_LIMIT
        } else {
            n
        };
        let ghost done = plan@;
        let mut batch: Vec<BusEntry> = Vec::new();
        let mut i: usize = start;
        while i < end
            invariant
                n == events@.len(),
                target == entries_of(events@, config.bus_name@, config.source@),
                start <= i <= end <= n,
                batch@.len() == i - start,
                forall|k: int| 0 <= k < batch@.len() ==> (#[trigger] batch@[k])@ == target[start + k],
            decreases end - i,
        {
            batch.push(events[i].to_eventbridge(config));
            i += 1;
        }
        plan.push(batch);
        proof {
            let b = done.len() as int;
            assert(plan_view(plan@)[b] =~= batch_of(target, b));
            assert forall|c: int| 0 <= c < plan@.len() implies (#[trigger] plan_view(plan@)[c])
                == batch_of(target, c) by {
                if c < b {
                    assert(plan_view(done)[c] == batch_of(target, c));
                    assert(plan_view(plan@)[c] =~= plan_view(done)[c]);
                }
            }
        }
        start = end;
    }
    proof {
        assert(plan_view(plan@) =~= batches_of(target));
    }
    plan
}

/// Plans the publication of a single event: one batch of one entry.
pub fn single_batch(event: &Event, config: &BusConfig) -> (plan: Vec<Vec<BusEntry>>)
    ensures
        plan_view(plan@) == batches_of(seq![entry_of(event@, config.bus_name@, config.source@)]),
{
    let mut batch: Vec<BusEntry> = Vec::new();
    batch.push(event.to_eventbridge(config));
    let mut plan: Vec<Vec<BusEntry>> = Vec::new();
    plan.push(batch);
    proof {
        let target = seq![entry_of(event@, config.bus_name@, config.source@)];
        assert(plan_view(plan@)[0] =~= batch_of(target, 0));
        assert(plan_view(plan@) =~= batches_of(target));
    }
    plan
}

/// Why a publication failed.
#[derive(Debug)]
pub enum PublishError<E> {
    /// Some batches were refused: the error of each of them, in the order of
    /// the batches.
    Partial(Vec<E>),
}

/// The errors among the outcomes, in their order, each as often as it
/// occurs.
pub open spec fn failures<E>(outcomes: Seq<Result<(), E>>) -> Seq<E>
    decreases outcomes.len(),
{
    if outcomes.len() == 0 {
        Seq::empty()
    } else {
        match outcomes.last() {
            Ok(_) => failures(outcomes.drop_last()),
            Err(e) => failures(outcomes.drop_last()).push(e),
        }
    }
}

/// There are as many failures as outcomes that are errors, and none where
/// every outcome is a success.
pub proof fn lemma_failures<E>(outcomes: Seq<Result<(), E>>)
    ensures
        failures(outcomes).len() <= outcomes.len(),
        failures(outcomes).len() == 0 <==> forall|i: int|
            0 <= i < outcomes.len() ==> (#[trigger] outcomes[i]) is Ok,
        failures(outcomes).len() == outcomes.filter(|o: Result<(), E>| o is Err).len(),
    decreases outcomes.len(),
{
    reveal(Seq::filter);
    if outcomes.len() > 0 {
        let rest = outcomes.drop_last();
        lemma_failures(rest);
        if failures(outcomes).len() == 0 {
            assert forall|i: int| 0 <= i < outcomes.len() implies (#[trigger] outcomes[i]) is Ok by {
                if i < rest.len() {
                    assert(rest[i] is Ok);
                }
            }
        }
        if forall|i: int| 0 <= i < outcomes.len() ==> (#[trigger] outcomes[i]) is Ok {
            assert(outcomes.last() is Ok);
            assert forall|i: int| 0 <= i < rest.len() implies (#[trigger] rest[i]) is Ok by {
                assert(outcomes[i] is Ok);
            }
        }
    }
}

/// The verdict over the outcomes of the submissions, one per batch in the
/// order of the batches: success where every batch was accepted, and
/// otherwise every error that a batch met.
pub fn aggregate<E>(outcomes: Vec<Result<(), E>>) -> (r: Result<(), PublishError<E>>)
    ensures
        match r {
            Ok(_) => failures(outcomes@).len() == 0,
            Err(PublishError::Partial(errors)) => errors@.len() > 0 && errors@ == failures(
                outcomes@,
            ),
        },
{
    let ghost all = outcomes@;
    let mut pending = outcomes;
    let mut reversed: Vec<E> = Vec::new();
    while pending.len() > 0
        invariant
            pending@.len() <= all.len(),
            pending@ == all.take(pending@.len() as int),
            failures(all) == failures(pending@) + reversed@.reverse(),
        decreases pending@.len(),
    {
        let ghost before = pending@;
        let ghost found = reversed@;
        let outcome = pending.pop();
        proof {
            assert(before.drop_last() =~= pending@);
            assert(pending@ =~= all.take(pending@.len() as int));
        }
        match outcome {
            Some(Err(e)) => {
                reversed.push(e);
                proof {
                    assert(reversed@.reverse() =~= seq![e] + found.reverse());
                    assert(failures(pending@).push(e) + found.reverse() =~= failures(pending@)
                        + reversed@.reverse());
                }
            },
            _ => {},
        }
    }
    proof {
        assert(failures(pending@) =~= Seq::<E>::empty());
        assert(failures(all) =~= reversed@.reverse());
    }
    if reversed.len() == 0 {
        return Ok(());
    }
    let mut errors: Vec<E> = Vec::new();
    let ghost source = reversed@;
    while reversed.len() > 0
        invariant
            reversed@.len() <= source.len(),
            reversed@ == source.take(reversed@.len() as int),
            errors@ == source.subrange(reversed@.len() as int, source.len() as int).reverse(),
        decreases reversed@.len(),
    {
        let ghost before = reversed@;
        let ghost found = errors@;
        match reversed.pop() {
            Some(e) => {
                errors.push(e);
                proof {
                    assert(reversed@ =~= source.take(reversed@.len() as int));
                    assert(errors@ =~= source.subrange(
                        reversed@.len() as int,
                        source.len() as int,
                    ).reverse());
                }
            },
            None => {},
        }
    }
    proof {
        assert(source.subrange(0, source.len() as int) =~= source);
    }
    Err(PublishError::Partial(errors))
}

} // verus!

//! The consensus service: when it starts a round of BFT agreement, and how it is shut down.
//!
//! The service reacts to two kinds of event: a block was imported, and the timer went off. A round
//! starts on every imported block that became the new best one. The timer is there for a chain that
//! stands still: when it goes off and the best block is still the one that was last read, a round
//! starts on that block.

use crate::primitives::H256;
use vstd::prelude::*;

verus! {

/// How long after the start the timer goes off for the first time, in milliseconds.
pub const TIMER_DELAY_MS: u64 = 5000;

/// The time between two ticks of the timer, in milliseconds.
pub const TIMER_INTERVAL_MS: u64 = 500;

/// A block header with its hash, as it was read from the chain.
#[derive(Debug)]
pub struct BestBlock<H> {
    pub header: H,
    pub hash: H256,
}

/// What the event loop reacts to.
#[derive(Debug)]
pub enum Event<H> {
    /// A block was imported.
    Imported { header: H, is_new_best: bool },
    /// The timer went off, and the best block was read: `None` if the reading failed.
    Tick(Option<BestBlock<H>>),
}

/// The memory of the event loop: the hash of the best block as it was last read.
pub struct EventLoop {
    pub prev_best: H256,
}

impl EventLoop {
    /// The hash that the loop remembers once it has reacted to `event`.
    pub open spec fn remembers<H>(self, event: Event<H>) -> H256 {
        match event {
            Event::Imported { .. } => self.prev_best,
            Event::Tick(None) => self.prev_best,
            Event::Tick(Some(best)) => best.hash,
        }
    }

    /// The header on which `event` starts a round, if it starts one.
    pub open spec fn starts<H>(self, event: Event<H>) -> Option<H> {
        match event {
            Event::Imported { header, is_new_best } => if is_new_best {
                Some(header)
            } else {
                None
            },
            Event::Tick(None) => None,
            Event::Tick(Some(best)) => if best.hash == self.prev_best {
                Some(best.header)
            } else {
                None
            },
        }
    }

    /// Start the loop from the first reading of the best block. If that reading failed, the service
    /// does not start, and there is no loop.
    pub fn start<E>(best_hash: Result<H256, E>) -> (started: Result<EventLoop, E>)
        ensures
            started is Ok <==> best_hash is Ok,
            best_hash matches Ok(hash) ==> started->Ok_0.prev_best == hash,
            best_hash matches Err(e) ==> started->Err_0 == e,
    {
        match best_hash {
            Ok(hash) => Ok(EventLoop { prev_best: hash }),
            Err(e) => Err(e),
        }
    }

    /// React to an event: the returned header, if any, is the one to start a round on.
    pub fn on_event<H>(&mut self, event: Event<H>) -> (round: Option<H>)
        ensures
            round == old(self).starts(event),
            final(self).prev_best == old(self).remembers(event),
            event matches Event::Imported { header, is_new_best: true } ==> round == Some(header),
            event matches Event::Imported { header: _, is_new_best: false } ==> round is None,
            event is Imported ==> final(self).prev_best.bytes@ == old(self).prev_best.bytes@,
            event matches Event::Tick(None) ==> round is None && final(self).prev_best.bytes@
                == old(self).prev_best.bytes@,
            event matches Event::Tick(Some(best)) ==> {
                &&& final(self).prev_best.bytes@ == best.hash.bytes@
                &&& best.hash.bytes@ == old(self).prev_best.bytes@ ==> round == Some(best.header)
                &&& best.hash.bytes@ != old(self).prev_best.bytes@ ==> round is None
            },
    {
        match event {
            Event::Imported { header, is_new_best } => {
                if is_new_best {
                    Some(header)
                } else {
                    None
                }
            },
            Event::Tick(None) => None,
            Event::Tick(Some(best)) => {
                proof {
                    crate::primitives::law_hashes_are_equal_byte_by_byte(best.hash, self.prev_best);
                }
                let unchanged: bool = best.hash == self.prev_best;
                self.prev_best = best.hash;
                if unchanged {
                    Some(best.header)
                } else {
                    None
                }
            },
        }
    }
}

/// What to do with an attempt to build upon a header.
#[derive(Debug)]
pub enum Start<B, E> {
    /// Run this instance of BFT agreement.
    Spawn(B),
    /// There is nothing to run.
    Nothing,
    /// The attempt failed; this is why.
    Failed(E),
}

/// Start a round, from what building upon its header gave: an instance of BFT agreement, or nothing
/// if there is none to take part in.
pub fn start_bft<B, E>(built: Result<Option<B>, E>) -> (start: Start<B, E>)
    ensures
        start == (match built {
            Ok(Some(bft)) => Start::Spawn(bft),
            Ok(None) => Start::Nothing,
            Err(e) => Start::Failed(e),
        }),
{
    match built {
        Ok(Some(bft)) => Start::Spawn(bft),
        Ok(None) => Start::Nothing,
        Err(e) => Start::Failed(e),
    }
}

/// One step of shutting the service down.
#[derive(Debug)]
pub enum Shutdown<T, S> {
    /// Fire the signal that ends the event loop.
    Fire(S),
    /// Wait for the thread to end.
    Join(T),
    /// The service is shut down.
    Done,
}

/// Consensus service: the thread that its event loop runs on, and the signal that ends the loop.
#[derive(Debug)]
pub struct Service<T, S> {
    pub thread: Option<T>,
    pub exit_signal: Option<S>,
}

impl<T, S> Service<T, S> {
    /// The next step of shutting down.
    pub open spec fn next_step(self) -> Shutdown<T, S> {
        match (self.exit_signal, self.thread) {
            (Some(signal), _) => Shutdown::Fire(signal),
            (None, Some(thread)) => Shutdown::Join(thread),
            (None, None) => Shutdown::Done,
        }
    }

    /// The service after the next step of shutting down.
    pub open spec fn after_step(self) -> Service<T, S> {
        if self.exit_signal is Some {
            Service { thread: self.thread, exit_signal: None }
        } else {
            Service { thread: None, exit_signal: None }
        }
    }

    /// The service whose event loop runs on `thread` until `exit_signal` is fired.
    pub fn new(thread: T, exit_signal: S) -> (service: Service<T, S>)
        ensures
            service.thread == Some(thread),
            service.exit_signal == Some(exit_signal),
    {
        Service { thread: Some(thread), exit_signal: Some(exit_signal) }
    }

    /// Take the next step of shutting down: the signal is fired, if that was not done yet, and then
    /// the thread is joined, if that was not done yet.
    pub fn shut_down(&mut self) -> (step: Shutdown<T, S>)
        ensures
            step == old(self).next_step(),
            *final(self) == old(self).after_step(),
            final(self).exit_signal is None,
            old(self).exit_signal matches Some(signal) ==> step == Shutdown::<T, S>::Fire(signal)
                && final(self).thread == old(self).thread,
            old(self).exit_signal is None ==> final(self).thread is None && (
            match old(self).thread {
                Some(thread) => step == Shutdown::<T, S>::Join(thread),
                None => step is Done,
            }),
    {
        if let Some(signal) = self.exit_signal.take() {
            return Shutdown::Fire(signal);
        }
        if let Some(thread) = self.thread.take() {
            return Shutdown::Join(thread);
        }
        Shutdown::Done
    }
}

/// The hash that a loop remembers which started with `first` and then reacted to `events`.
pub open spec fn remembered<H>(first: H256, events: Seq<Event<H>>) -> H256
    decreases events.len(),
{
    if events.len() == 0 {
        first
    } else {
        let before = EventLoop { prev_best: remembered(first, events.drop_last()) };
        before.remembers(events.last())
    }
}

/// The header on which the event at `i` starts a round, if it starts one, in a loop that started with
/// `first`.
pub open spec fn round_at<H>(first: H256, events: Seq<Event<H>>, i: int) -> Option<H> {
    EventLoop { prev_best: remembered(first, events.take(i)) }.starts(events[i])
}

/// The event is a tick at which the best block was read.
pub open spec fn is_reading<H>(event: Event<H>) -> bool {
    event matches Event::Tick(Some(_))
}

/// `i` is the last of `events` at which the best block was read.
pub open spec fn is_last_reading<H>(events: Seq<Event<H>>, i: int) -> bool {
    &&& 0 <= i < events.len()
    &&& is_reading(events[i])
    &&& forall|j: int| i < j < events.len() ==> !#[trigger] is_reading(events[j])
}

/// The loop remembers the best block as it was last read, whatever else happened since: blocks that
/// are imported and readings that fail change nothing. Before the first tick that is the reading with
/// which the loop started.
pub proof fn law_remembers_last_reading<H>(first: H256, events: Seq<Event<H>>)
    ensures
        forall|i: int| #[trigger]
            is_last_reading(events, i) ==> remembered(first, events)
                == events[i]->Tick_0->0.hash,
        (forall|j: int| 0 <= j < events.len() ==> !#[trigger] is_reading(events[j]))
            ==> remembered(first, events) == first,
    decreases events.len(),
{
    if events.len() > 0 {
        let rest = events.drop_last();
        law_remembers_last_reading(first, rest);
        assert forall|i: int| #[trigger] is_last_reading(events, i) implies remembered(
            first,
            events,
        ) == events[i]->Tick_0->0.hash by {
            if i < events.len() - 1 {
                assert(!is_reading(events[events.len() - 1]));
                assert forall|j: int| i < j < rest.len() implies !#[trigger] is_reading(
                    rest[j],
                ) by {
                    assert(!is_reading(events[j]));
                }
                assert(is_last_reading(rest, i));
            }
        }
        if forall|j: int| 0 <= j < events.len() ==> !#[trigger] is_reading(events[j]) {
            assert(!is_reading(events[events.len() - 1]));
            assert forall|j: int| 0 <= j < rest.len() implies !#[trigger] is_reading(rest[j]) by {
                assert(!is_reading(events[j]));
            }
        }
    }
}

/// A tick starts a round, on the block that it read, exactly if the block is the one that was last
/// read before: the chain stood still in between.
pub proof fn law_tick_starts_round_iff_chain_stood_still<H>(
    first: H256,
    events: Seq<Event<H>>,
    i: int,
    last: int,
)
    requires
        0 <= i < events.len(),
        is_reading(events[i]),
        is_last_reading(events.take(i), last),
    ensures
        round_at(first, events, i) == (if events[i]->Tick_0->0.hash
            == events[last]->Tick_0->0.hash {
            Some(events[i]->Tick_0->0.header)
        } else {
            None
        }),
{
    law_remembers_last_reading(first, events.take(i));
}

/// The first tick at which the best block is read starts a round exactly if the block is the one with
/// which the loop started.
pub proof fn law_first_tick_compares_with_start<H>(first: H256, events: Seq<Event<H>>, i: int)
    requires
        0 <= i < events.len(),
        is_reading(events[i]),
        forall|j: int| 0 <= j < i ==> !#[trigger] is_reading(events[j]),
    ensures
        round_at(first, events, i) == (if events[i]->Tick_0->0.hash == first {
            Some(events[i]->Tick_0->0.header)
        } else {
            None
        }),
{
    assert forall|j: int| 0 <= j < events.take(i).len() implies !#[trigger] is_reading(
        events.take(i)[j],
    ) by {
        assert(!is_reading(events[j]));
    }
    law_remembers_last_reading(first, events.take(i));
}

/// An imported block starts a round exactly if it is the new best one, whatever happened before.
pub proof fn law_import_starts_round_iff_new_best<H>(
    first: H256,
    events: Seq<Event<H>>,
    i: int,
    header: H,
    is_new_best: bool,
)
    requires
        0 <= i < events.len(),
        events[i] == (Event::Imported { header, is_new_best }),
    ensures
        round_at(first, events, i) == (if is_new_best {
            Some(header)
        } else {
            None
        }),
{
}

/// The service after `n` steps of shutting down.
pub open spec fn after_steps<T, S>(service: Service<T, S>, n: nat) -> Service<T, S>
    decreases n,
{
    if n == 0 {
        service
    } else {
        after_steps(service, (n - 1) as nat).after_step()
    }
}

/// A service is shut down in this order: the signal is fired, then the thread is joined, and each is
/// done once.
pub proof fn law_fires_once_then_joins_once<T, S>(service: Service<T, S>, thread: T, signal: S, n: nat)
    requires
        service.thread == Some(thread),
        service.exit_signal == Some(signal),
    ensures
        after_steps(service, n).next_step() == (if n == 0 {
            Shutdown::Fire(signal)
        } else if n == 1 {
            Shutdown::Join(thread)
        } else {
            Shutdown::Done
        }),
        after_steps(service, n).exit_signal is Some <==> n == 0,
        after_steps(service, n).thread is Some <==> n <= 1,
    decreases n,
{
    if n > 0 {
        law_fires_once_then_joins_once(service, thread, signal, (n - 1) as nat);
        if n == 1 {
            assert(after_steps(service, 0) == service);
        } else if n == 2 {
            assert(after_steps(service, 1).exit_signal is None);
        }
    }
}

/// The thread is never joined while the signal that ends its loop was not fired.
pub proof fn law_no_join_before_fire<T, S>(service: Service<T, S>)
    ensures
        service.next_step() is Join ==> service.exit_signal is None,
{
}

/// What two loops remember, and on what they start rounds, depends only on the readings that succeeded:
/// two loops that remember the same agree on every event, and agree on what to remember afterwards. A
/// reading that succeeds makes them agree whatever they remembered before.
pub proof fn law_only_the_last_reading_matters<H>(a: EventLoop, b: EventLoop, event: Event<H>)
    ensures
        a.prev_best == b.prev_best ==> a.starts(event) == b.starts(event) && a.remembers(event)
            == b.remembers(event),
        event matches Event::Tick(Some(best)) ==> a.remembers(event) == best.hash && b.remembers(
            event,
        ) == best.hash,
        !(event matches Event::Tick(Some(_))) ==> a.starts(event) == b.starts(event)
            && a.remembers(event) == a.prev_best,
{
}

/// A tick that reads the same block as the tick before it starts a round on that block, and one that
/// reads another block starts none, whatever the loop remembered before the two.
pub proof fn law_second_of_two_ticks<H>(
    before: EventLoop,
    first: BestBlock<H>,
    between: EventLoop,
    second: BestBlock<H>,
)
    requires
        between.prev_best == before.remembers(Event::Tick(Some(first))),
    ensures
        second.hash == first.hash ==> between.starts(Event::Tick(Some(second))) == Some(
            second.header,
        ),
        second.hash != first.hash ==> between.starts(Event::Tick(Some(second))) is None,
{
}

/// Whatever state a service is in, two steps of shutting down finish it: what had a signal fires it, and
/// what had a thread joins it, in this order, and nothing is left to do.
pub proof fn law_two_steps_finish<T, S>(service: Service<T, S>)
    ensures
        service.after_step().after_step().next_step() is Done,
        service.exit_signal matches Some(signal) ==> service.next_step() == Shutdown::<T, S>::Fire(
            signal,
        ),
        service.exit_signal is Some ==> (match service.thread {
            Some(thread) => service.after_step().next_step() == Shutdown::<T, S>::Join(thread),
            None => service.after_step().next_step() is Done,
        }),
        service.exit_signal is None ==> (match service.thread {
            Some(thread) => service.next_step() == Shutdown::<T, S>::Join(thread),
            None => service.next_step() is Done,
        }),
{
}

} // verus!

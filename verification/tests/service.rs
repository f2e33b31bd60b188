use polkadot_node::primitives::H256;
use polkadot_node::service::{
    start_bft, BestBlock, Event, EventLoop, Service, Shutdown, Start, TIMER_DELAY_MS,
    TIMER_INTERVAL_MS,
};

fn hash(byte: u8) -> H256 {
    let mut bytes = [0u8; 32];
    bytes[31] = byte;
    H256 { bytes }
}

fn tick(header: &'static str, byte: u8) -> Event<&'static str> {
    Event::Tick(Some(BestBlock { header, hash: hash(byte) }))
}

fn started(byte: u8) -> EventLoop {
    EventLoop::start::<()>(Ok(hash(byte))).unwrap()
}

#[test]
fn hashes_are_equal_byte_by_byte() {
    assert_eq!(hash(1), hash(1));
    assert_ne!(hash(1), hash(2));
    let mut first = hash(1);
    first.bytes[0] = 9;
    assert_ne!(first, hash(1));
    assert_eq!(H256::default().bytes, [0u8; 32]);
}

#[test]
fn timer_settings() {
    assert_eq!(TIMER_DELAY_MS, 5000);
    assert_eq!(TIMER_INTERVAL_MS, 500);
}

#[test]
fn loop_starts_only_with_a_best_block() {
    assert_eq!(started(3).prev_best, hash(3));
    assert_eq!(EventLoop::start(Err("no chain")).err(), Some("no chain"));
}

#[test]
fn import_starts_a_round_iff_new_best() {
    let mut event_loop = started(1);
    let best = Event::Imported { header: "best", is_new_best: true };
    assert_eq!(event_loop.on_event(best), Some("best"));
    let fork = Event::Imported { header: "fork", is_new_best: false };
    assert_eq!(event_loop.on_event(fork), None);
    assert_eq!(event_loop.prev_best, hash(1));
}

#[test]
fn tick_starts_a_round_iff_the_chain_stood_still() {
    let mut event_loop = started(1);
    assert_eq!(event_loop.on_event(tick("one", 1)), Some("one"));
    assert_eq!(event_loop.on_event(tick("one", 1)), Some("one"));
    assert_eq!(event_loop.on_event(tick("two", 2)), None);
    assert_eq!(event_loop.prev_best, hash(2));
    assert_eq!(event_loop.on_event(tick("two", 2)), Some("two"));
    // Back to a block that was best earlier.
    assert_eq!(event_loop.on_event(tick("one", 1)), None);
}

#[test]
fn first_tick_compares_with_the_start() {
    assert_eq!(started(1).on_event(tick("two", 2)), None);
    assert_eq!(started(2).on_event(tick("two", 2)), Some("two"));
}

#[test]
fn failed_readings_and_imports_are_not_remembered() {
    let mut event_loop = started(1);
    assert_eq!(event_loop.on_event(tick("two", 2)), None);
    assert_eq!(event_loop.on_event(Event::Tick(None::<BestBlock<&str>>)), None);
    let best = Event::Imported { header: "three", is_new_best: true };
    assert_eq!(event_loop.on_event(best), Some("three"));
    assert_eq!(event_loop.prev_best, hash(2));
    assert_eq!(event_loop.on_event(tick("two", 2)), Some("two"));
}

#[test]
fn round_is_spawned_if_there_is_one() {
    assert!(matches!(start_bft::<u8, &str>(Ok(Some(4))), Start::Spawn(4)));
    assert!(matches!(start_bft::<u8, &str>(Ok(None)), Start::Nothing));
    assert!(matches!(start_bft::<u8, &str>(Err("why")), Start::Failed("why")));
}

#[test]
fn shutdown_fires_then_joins() {
    let mut service = Service::new("thread", "signal");
    assert!(matches!(service.shut_down(), Shutdown::Fire("signal")));
    assert!(service.thread.is_some());
    assert!(matches!(service.shut_down(), Shutdown::Join("thread")));
    assert!(matches!(service.shut_down(), Shutdown::Done));
    assert!(matches!(service.shut_down(), Shutdown::Done));
}

#[test]
fn shutdown_of_a_part_of_a_service() {
    let mut no_signal: Service<&str, &str> = Service { thread: Some("thread"), exit_signal: None };
    assert!(matches!(no_signal.shut_down(), Shutdown::Join("thread")));
    assert!(matches!(no_signal.shut_down(), Shutdown::Done));
    let mut no_thread: Service<&str, &str> = Service { thread: None, exit_signal: Some("signal") };
    assert!(matches!(no_thread.shut_down(), Shutdown::Fire("signal")));
    assert!(matches!(no_thread.shut_down(), Shutdown::Done));
}

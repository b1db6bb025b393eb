use kwtypr::wayland::{
    bind_version, next_ready_step, BindingStatus, ReadyEvent, ReadyStep, Timeout, TimeoutElapsed,
    SUPPORTED_FAKE_INPUT_VERSION, SUPPORTED_SEAT_VERSION,
};
use kwtypr::{join_with_spaces, ChunkPacing, ConfigOptions, KwtyprConfig};

fn options() -> ConfigOptions {
    ConfigOptions {
        initial_delay_ms: 0,
        character_delay_ms: None,
        chunk_size: None,
        chunk_delay_ms: None,
        key_hold_ms: 0,
        unicode_fallback: false,
        ready_timeout_ms: 5000,
    }
}

#[test]
fn default_options_type_at_full_speed() {
    let config = KwtyprConfig::from_options(options());
    assert_eq!(
        config,
        KwtyprConfig {
            ready_timeout: Some(5000),
            initial_delay: 0,
            key_hold: 0,
            chunk_pacing: None,
            unicode_fallback: false,
        }
    );
}

#[test]
fn character_delay_is_a_chunk_of_one() {
    let mut o = options();
    o.character_delay_ms = Some(30);
    assert_eq!(KwtyprConfig::from_options(o).chunk_pacing, Some(ChunkPacing { size: 1, delay: 30 }));
}

#[test]
fn chunk_size_and_delay_make_chunks() {
    let mut o = options();
    o.chunk_size = Some(4);
    o.chunk_delay_ms = Some(12);
    o.key_hold_ms = 2;
    o.initial_delay_ms = 1;
    o.unicode_fallback = true;
    let config = KwtyprConfig::from_options(o);
    assert_eq!(config.chunk_pacing, Some(ChunkPacing { size: 4, delay: 12 }));
    assert_eq!(config.key_hold, 2);
    assert_eq!(config.initial_delay, 1);
    assert!(config.unicode_fallback);
}

#[test]
fn zero_ready_timeout_disables_the_limit() {
    let mut o = options();
    o.ready_timeout_ms = 0;
    assert_eq!(KwtyprConfig::from_options(o).ready_timeout, None);
}

#[test]
fn arguments_are_joined_with_spaces() {
    let words = vec!["hello".to_string(), "world".to_string()];
    assert_eq!(join_with_spaces(&words), "hello world");
    assert_eq!(join_with_spaces(&vec!["one".to_string()]), "one");
    assert_eq!(join_with_spaces(&vec![]), "");
    assert_eq!(join_with_spaces(&vec!["a b".to_string(), "".to_string(), "c".to_string()]), "a b  c");
}

#[test]
fn bound_version_is_capped_at_the_supported_one() {
    assert_eq!(bind_version(12, SUPPORTED_SEAT_VERSION), 10);
    assert_eq!(bind_version(5, SUPPORTED_SEAT_VERSION), 5);
    assert_eq!(bind_version(6, SUPPORTED_FAKE_INPUT_VERSION), 6);
    assert_eq!(bind_version(7, SUPPORTED_FAKE_INPUT_VERSION), 6);
}

#[test]
fn waiting_dispatches_and_reads_until_all_bound() {
    let mut status = BindingStatus::default();
    assert!(!status.all_bound());
    assert_eq!(next_ready_step(&status, ReadyEvent::Started), ReadyStep::DispatchPending);
    assert_eq!(next_ready_step(&status, ReadyEvent::Dispatched { count: 3 }), ReadyStep::DispatchPending);
    assert_eq!(next_ready_step(&status, ReadyEvent::Dispatched { count: 0 }), ReadyStep::FlushReadDispatch);
    assert_eq!(next_ready_step(&status, ReadyEvent::ReadAndDispatched), ReadyStep::DispatchPending);
    status.fake_input = true;
    status.seat = true;
    status.keyboard = true;
    assert_eq!(next_ready_step(&status, ReadyEvent::Dispatched { count: 0 }), ReadyStep::FlushReadDispatch);
    status.keymap = true;
    assert!(status.all_bound());
    assert_eq!(next_ready_step(&status, ReadyEvent::Dispatched { count: 0 }), ReadyStep::Ready);
    assert_eq!(next_ready_step(&status, ReadyEvent::Started), ReadyStep::Ready);
}

#[test]
fn remaining_time_runs_out() {
    assert_eq!(Timeout::remaining(5, 0), Ok(5_000_000));
    assert_eq!(Timeout::remaining(5, 1_000_000), Ok(4_000_000));
    assert_eq!(Timeout::remaining(5, 5_000_000), Err(TimeoutElapsed(5)));
    assert_eq!(Timeout::remaining(0, 0), Err(TimeoutElapsed(0)));
}

#[test]
fn fresh_timeout_has_time_left() {
    let timeout = Timeout::new(60_000);
    assert_eq!(timeout.duration(), 60_000);
    let left = timeout.poll_timeout().unwrap();
    assert!(left > 0 && left <= 60_000_000_000);
    assert_eq!(Timeout::new(0).poll_timeout(), Err(TimeoutElapsed(0)));
}

#[test]
fn character_delay_equals_chunks_of_one_with_that_delay() {
    let mut a = options();
    a.character_delay_ms = Some(9);
    let mut b = options();
    b.chunk_size = Some(1);
    b.chunk_delay_ms = Some(9);
    assert_eq!(KwtyprConfig::from_options(a), KwtyprConfig::from_options(b));
}

use tui_radar_sim_core::threadpool::{ThreadPoolBuilder, ThreadPoolError};

#[test]
fn builder_starts_from_defaults() {
    let b = ThreadPoolBuilder::new();
    assert_eq!(b.num_threads, 4);
    assert_eq!(b.thread_name_prefix, "worker");
    assert_eq!(b.stack_size, None);
}

#[test]
fn builder_setters_replace_each_field() {
    let b = ThreadPoolBuilder::new()
        .num_threads(8)
        .thread_name_prefix(String::from("io"))
        .stack_size(64 * 1024);
    assert_eq!(b.num_threads, 8);
    assert_eq!(b.thread_name_prefix, "io");
    assert_eq!(b.stack_size, Some(64 * 1024));
}

#[test]
fn zero_threads_is_an_invalid_configuration() {
    let b = ThreadPoolBuilder::new().num_threads(0);
    let r = b.validate();
    match r {
        Err(ThreadPoolError::InvalidConfiguration(msg)) => {
            assert_eq!(msg, "Thread pool size must be greater than 0");
        }
        _ => panic!("a zero-thread configuration must be rejected"),
    }
}

#[test]
fn positive_thread_count_validates() {
    assert!(ThreadPoolBuilder::new().num_threads(4).validate().is_ok());
    assert!(ThreadPoolBuilder::new().num_threads(1).validate().is_ok());
}

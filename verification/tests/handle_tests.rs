use utilities::handle::{ConfigSlot, PollOutcome, ResourceHandle};

#[test]
fn first_caller_runs_factory_exactly_once() {
    let mut handle: ResourceHandle<u32> = ResourceHandle::new();
    // The first arrival is told to run the factory; every caller that
    // arrives before completion awaits that one attempt.
    assert!(matches!(handle.poll_acquire(), PollOutcome::RunFactory));
    assert!(matches!(handle.poll_acquire(), PollOutcome::AwaitInFlight));
    assert!(matches!(handle.poll_acquire(), PollOutcome::AwaitInFlight));
    // The running caller reports success; every later arrival reads the
    // same value.
    assert!(handle.complete(Ok::<u32, String>(7)).is_ok());
    assert!(matches!(handle.poll_acquire(), PollOutcome::Ready));
    assert_eq!(*handle.value(), 7);
    assert!(matches!(handle.poll_acquire(), PollOutcome::Ready));
    assert_eq!(*handle.value(), 7);
}

#[test]
fn failed_attempt_does_not_poison_the_slot() {
    let mut handle: ResourceHandle<u32> = ResourceHandle::new();
    assert!(matches!(handle.poll_acquire(), PollOutcome::RunFactory));
    // The factory fails: the slot returns to uninitialized and a later
    // caller retries rather than being blocked.
    assert!(handle.complete(Err::<u32, String>(String::from("boom"))).is_err());
    assert!(matches!(handle.poll_acquire(), PollOutcome::RunFactory));
    assert!(handle.complete(Ok::<u32, String>(9)).is_ok());
    assert_eq!(*handle.value(), 9);
}

#[test]
fn config_is_set_at_most_once() {
    let mut slot: ConfigSlot<u16> = ConfigSlot::new();
    assert!(slot.get().is_none());
    assert!(slot.set(5432).is_ok());
    assert_eq!(slot.get(), Some(&5432));
    // A second set attempt is a defined error, not a silent overwrite.
    let err = slot.set(6000).err().unwrap();
    assert_eq!(
        err.display_string(),
        "[ err_code: 50000000 ] business error: configuration already set"
    );
    assert_eq!(slot.get(), Some(&5432));
}

#[test]
fn mail_config_init_is_set_once() {
    let mut slot = ConfigSlot::new();
    assert!(utilities::email::init(&mut slot, "a@b.c", "pw", "smtp.example", 587).is_ok());
    assert!(utilities::email::init(&mut slot, "x@y.z", "pw2", "smtp.other", 25).is_err());
    let cfg = slot.get().unwrap();
    assert_eq!(cfg.from, "a@b.c");
    assert_eq!(cfg.relay, "smtp.example");
    assert_eq!(cfg.port, 587);
}

#[test]
fn mailbox_lines_are_assembled() {
    assert_eq!(utilities::email::sender_mailbox("pub@x.y"), "evolve.publisher <pub@x.y>");
    assert_eq!(utilities::email::recipient_mailbox("to@x.y"), "reciver <to@x.y>");
}

use semvar::sem::acquire_step;
use semvar::sem::AcquireStep;
use semvar::sem::SemVar;

#[test]
fn acquire_step_decisions() {
    assert_eq!(acquire_step(0, 1), AcquireStep::Claim(1));
    assert_eq!(acquire_step(2, 5), AcquireStep::Claim(3));
    assert_eq!(acquire_step(5, 5), AcquireStep::Park);
    assert_eq!(acquire_step(7, 5), AcquireStep::Reload);
    assert_eq!(acquire_step(0, 0), AcquireStep::Park);
    assert_eq!(acquire_step(u32::MAX - 1, u32::MAX), AcquireStep::Claim(u32::MAX));
}

#[test]
fn sem_guard_reads_the_value() {
    let sem = SemVar::new(10, 5);
    let guard = sem.access().expect("acquire budget exhausted");
    assert_eq!(*guard.read(), 5);
    guard.release();
}

#[test]
fn sem_shares_value_among_live_guards() {
    let sem = SemVar::new(3, String::from("shared"));
    let first = sem.access().expect("acquire budget exhausted");
    let second = sem.access().expect("acquire budget exhausted");
    let third = sem.access().expect("acquire budget exhausted");
    assert_eq!(*first.read(), "shared");
    assert_eq!(*second.read(), "shared");
    assert_eq!(*third.read(), "shared");
    third.release();
    second.release();
    first.release();
}

#[test]
fn sem_sequential_cycles_never_park() {
    // A lone holder cycling on capacity one: every acquire must take the
    // fast path at once; a wrongly parked acquire would hang this test,
    // since no other thread exists to wake it.
    let sem = SemVar::new(1, 5);
    let mut cycle: u32 = 0;
    while cycle < 100 {
        let guard = sem.access().expect("acquire budget exhausted");
        assert_eq!(*guard.read(), 5);
        guard.release();
        cycle += 1;
    }
}

#[test]
fn sem_count_returns_to_zero_after_cycles() {
    // After any number of balanced acquire/release cycles the whole
    // capacity is free again: all of it can be claimed without parking.
    let sem = SemVar::new(2, 7u64);
    let mut cycle: u32 = 0;
    while cycle < 50 {
        let one = sem.access().expect("acquire budget exhausted");
        let two = sem.access().expect("acquire budget exhausted");
        one.release();
        two.release();
        cycle += 1;
    }
    let one = sem.access().expect("acquire budget exhausted");
    let two = sem.access().expect("acquire budget exhausted");
    assert_eq!(*one.read(), 7);
    assert_eq!(*two.read(), 7);
    two.release();
    one.release();
}

use semvar::mutex::Mutex;

#[test]
fn mutex_test_single_thread() {
    let m = Mutex::new(0);
    let mut pass: u32 = 0;
    while pass < 100 {
        let mut guard = m.lock().expect("acquire budget exhausted");
        let value: i32 = *guard.read();
        guard.write(value + 1);
        guard.unlock();
        pass += 1;
    }
    let guard = m.lock().expect("acquire budget exhausted");
    assert_eq!(*guard.read(), 100);
    guard.unlock();
}

#[test]
fn mutex_value_crosses_sessions() {
    // What a holder wrote is what the next holder finds: the value survives
    // the round trip through the store cell across unlock and lock.
    let m = Mutex::new(5);
    let mut guard = m.lock().expect("acquire budget exhausted");
    assert_eq!(*guard.read(), 5);
    guard.write(6);
    guard.unlock();
    let guard = m.lock().expect("acquire budget exhausted");
    assert_eq!(*guard.read(), 6);
    guard.unlock();
}

#[test]
fn mutex_guards_a_non_copy_value() {
    let m = Mutex::new(String::from("a"));
    let mut guard = m.lock().expect("acquire budget exhausted");
    let mut value = guard.read().clone();
    value.push('b');
    guard.write(value);
    guard.unlock();
    let guard = m.lock().expect("acquire budget exhausted");
    assert_eq!(guard.read().as_str(), "ab");
    guard.unlock();
}

#[test]
fn mutex_serial_rounds_lose_no_update() {
    // Four rounds of a hundred increments each, all serialized by the lock:
    // every update lands and the counter ends at four hundred.
    let m = Mutex::new(0);
    let mut round: u32 = 0;
    while round < 4 {
        let mut pass: u32 = 0;
        while pass < 100 {
            let mut guard = m.lock().expect("acquire budget exhausted");
            let value: i32 = *guard.read();
            guard.write(value + 1);
            guard.unlock();
            pass += 1;
        }
        round += 1;
    }
    let guard = m.lock().expect("acquire budget exhausted");
    assert_eq!(*guard.read(), 400);
    guard.unlock();
}

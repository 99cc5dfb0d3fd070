use bmw::error::ErrKind;
use bmw::lock::{LockBuilder, LockRegistry};

#[test]
fn test_locks() {
    let mut reg = LockRegistry::new();
    let lock = LockBuilder::build(1).unwrap();
    let lock2 = lock.clone();
    {
        let x = lock.rlock(&mut reg).unwrap().unwrap();
        println!("x={}", **x.guard());
    }
    reg.release(lock.id());
    {
        let mut y = lock.wlock(&mut reg).unwrap().unwrap();
        **(y.guard()) = 2;

        assert!(lock2.wlock(&mut reg).is_err());
    }
    reg.release(lock.id());

    {
        let mut z = lock.wlock(&mut reg).unwrap().unwrap();
        assert_eq!(**(z.guard()), 2);
    }
    reg.release(lock.id());
}

#[test]
fn test_read_deadlock() {
    let mut reg = LockRegistry::new();
    let lock = LockBuilder::build(1).unwrap();
    let lock2 = lock.clone();
    {
        let x = lock.rlock(&mut reg).unwrap().unwrap();
        println!("x={}", **x.guard());
    }
    reg.release(lock.id());
    {
        let mut y = lock.wlock(&mut reg).unwrap().unwrap();
        **(y.guard()) = 2;

        assert!(lock2.rlock(&mut reg).is_err());
    }
    reg.release(lock.id());

    {
        let mut z = lock.wlock(&mut reg).unwrap().unwrap();
        assert_eq!(**(z.guard()), 2);
    }
    reg.release(lock.id());
}

#[test]
fn second_lock_in_one_thread_would_deadlock() {
    let mut reg = LockRegistry::new();
    let lock = LockBuilder::build(5u32).unwrap();
    let g = lock.rlock(&mut reg).unwrap().unwrap();
    assert_eq!(g.id(), lock.id());
    assert!(reg.holds(lock.id()));
    let e = match lock.rlock(&mut reg) {
        Err(e) => e,
        Ok(_) => panic!("expected an error"),
    };
    assert_eq!(e.kind().kind_name(), ErrKind::Poison);
    assert_eq!(e.kind().message_string(), "would deadlock".to_string());
    drop(g);
    reg.release(lock.id());
    assert!(!reg.holds(lock.id()));
    assert!(lock.rlock(&mut reg).is_ok());
}

#[test]
fn registry_acquire_release() {
    let mut reg = LockRegistry::new();
    assert!(reg.acquire(7).is_ok());
    assert!(reg.acquire(7).is_err());
    reg.release(7);
    assert!(reg.acquire(7).is_ok());
    assert!(reg.acquire(8).is_ok());
}

#[test]
fn clones_share_value_and_id() {
    let mut reg = LockRegistry::new();
    let lock = LockBuilder::build(10).unwrap();
    let lock2 = lock.clone();
    assert_eq!(lock.id(), lock2.id());
    {
        let mut w = lock.wlock(&mut reg).unwrap().unwrap();
        **(w.guard()) = 11;
    }
    reg.release(lock.id());
    let r = lock2.rlock(&mut reg).unwrap().unwrap();
    assert_eq!(**r.guard(), 11);
}

#[test]
fn a_lock_held_elsewhere_is_busy_not_deadlocked() {
    let mut reg = LockRegistry::new();
    let mut other = LockRegistry::new();
    let lock = LockBuilder::build(3u8).unwrap();
    let w = lock.wlock(&mut reg).unwrap().unwrap();
    // a second registry does not see the first one's guard: the lock is busy, not blocked on
    assert!(lock.wlock(&mut other).unwrap().is_none());
    assert!(lock.rlock(&mut other).unwrap().is_none());
    assert!(!other.holds(lock.id()));
    drop(w);
    reg.release(lock.id());
    assert!(lock.rlock(&mut other).unwrap().is_some());
}

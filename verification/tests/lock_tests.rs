use paged_vfs::lock::{LockCoordinator, LockKind};

fn rank(l: LockKind) -> u8 {
    match l {
        LockKind::Unlocked => 0,
        LockKind::Shared => 1,
        LockKind::Reserved => 2,
        LockKind::Pending => 3,
        LockKind::Exclusive => 4,
    }
}

/// Drives one coordinator and a set of handle levels, asserting the
/// invariant after every step.
struct Harness {
    coord: LockCoordinator,
    levels: Vec<LockKind>,
}

impl Harness {
    fn new(handles: usize) -> Harness {
        Harness { coord: LockCoordinator::new(), levels: vec![LockKind::Unlocked; handles] }
    }

    fn request(&mut self, handle: usize, to: LockKind) -> bool {
        let cur = self.levels[handle];
        let (granted, level) = self.coord.request(cur, to);
        self.levels[handle] = level;
        if granted {
            assert_eq!(level, to);
        }
        self.check_invariant();
        granted
    }

    fn check_invariant(&self) {
        let shared = self.levels.iter().filter(|l| **l == LockKind::Shared).count();
        let reserved = self.levels.iter().filter(|l| **l == LockKind::Reserved).count();
        let pending = self.levels.iter().filter(|l| **l == LockKind::Pending).count();
        let exclusive = self.levels.iter().filter(|l| **l == LockKind::Exclusive).count();
        assert_eq!(self.coord.shared_count as usize, shared);
        match self.coord.write_intent {
            None => assert_eq!(reserved + pending + exclusive, 0),
            Some(false) => {
                assert_eq!(reserved, 1);
                assert_eq!(pending + exclusive, 0);
            }
            Some(true) => {
                assert_eq!(reserved, 0);
                assert_eq!(pending + exclusive, 1);
            }
        }
        if exclusive > 0 {
            assert_eq!(shared, 0);
        }
    }
}

#[test]
fn matrix_from_unlocked() {
    // a single fresh handle against an idle coordinator
    let mut h = Harness::new(1);
    assert!(h.request(0, LockKind::Unlocked)); // trivial: level already held
    assert_eq!(h.levels[0], LockKind::Unlocked);

    let mut h = Harness::new(1);
    assert!(h.request(0, LockKind::Shared));
    assert_eq!(h.coord.shared_count, 1);

    let mut h = Harness::new(1);
    assert!(!h.request(0, LockKind::Reserved)); // must hold Shared first
    assert_eq!(h.levels[0], LockKind::Unlocked);

    let mut h = Harness::new(1);
    assert!(!h.request(0, LockKind::Pending)); // never requested directly
    assert_eq!(h.levels[0], LockKind::Unlocked);

    let mut h = Harness::new(1);
    assert!(h.request(0, LockKind::Exclusive)); // no readers: granted at once
    assert_eq!(h.levels[0], LockKind::Exclusive);
    assert_eq!(h.coord.write_intent, Some(true));
}

#[test]
fn matrix_from_shared() {
    let mut h = Harness::new(1);
    assert!(h.request(0, LockKind::Shared));
    assert!(h.request(0, LockKind::Shared)); // trivial
    assert_eq!(h.coord.shared_count, 1); // no double count

    let mut h = Harness::new(1);
    assert!(h.request(0, LockKind::Shared));
    assert!(h.request(0, LockKind::Unlocked));
    assert_eq!(h.coord.shared_count, 0);

    let mut h = Harness::new(1);
    assert!(h.request(0, LockKind::Shared));
    assert!(h.request(0, LockKind::Reserved));
    assert_eq!(h.coord.shared_count, 0); // the reader became a writer
    assert_eq!(h.coord.write_intent, Some(false));

    let mut h = Harness::new(1);
    assert!(h.request(0, LockKind::Shared));
    assert!(!h.request(0, LockKind::Pending));
    assert_eq!(h.levels[0], LockKind::Shared);

    // sole reader escalates straight to Exclusive
    let mut h = Harness::new(1);
    assert!(h.request(0, LockKind::Shared));
    assert!(h.request(0, LockKind::Exclusive));
    assert_eq!(h.levels[0], LockKind::Exclusive);

    // with another reader present the escalation parks at Pending
    let mut h = Harness::new(2);
    assert!(h.request(0, LockKind::Shared));
    assert!(h.request(1, LockKind::Shared));
    assert!(!h.request(0, LockKind::Exclusive));
    assert_eq!(h.levels[0], LockKind::Pending);
    assert_eq!(h.coord.write_intent, Some(true)); // intent recorded though denied
}

#[test]
fn matrix_from_reserved() {
    let mut setup = || {
        let mut h = Harness::new(2);
        assert!(h.request(0, LockKind::Shared));
        assert!(h.request(0, LockKind::Reserved));
        h
    };

    let mut h = setup();
    assert!(h.request(0, LockKind::Unlocked));
    assert_eq!(h.coord.write_intent, None);

    let mut h = setup();
    assert!(h.request(0, LockKind::Shared)); // downgrade clears the intent
    assert_eq!(h.coord.write_intent, None);
    assert_eq!(h.coord.shared_count, 1);

    let mut h = setup();
    assert!(h.request(0, LockKind::Reserved)); // trivial
    assert_eq!(h.coord.write_intent, Some(false));

    let mut h = setup();
    assert!(!h.request(0, LockKind::Pending));
    assert_eq!(h.levels[0], LockKind::Reserved);

    let mut h = setup();
    assert!(h.request(0, LockKind::Exclusive)); // no readers left
    assert_eq!(h.levels[0], LockKind::Exclusive);

    // with a reader, the Reserved holder escalating parks at Pending
    let mut h = setup();
    assert!(h.request(1, LockKind::Shared));
    assert!(!h.request(0, LockKind::Exclusive));
    assert_eq!(h.levels[0], LockKind::Pending);
}

#[test]
fn matrix_from_pending() {
    let mut setup = || {
        // handle 1 reads; handle 0 tries Exclusive and parks at Pending
        let mut h = Harness::new(2);
        assert!(h.request(1, LockKind::Shared));
        assert!(h.request(0, LockKind::Shared));
        assert!(!h.request(0, LockKind::Exclusive));
        assert_eq!(h.levels[0], LockKind::Pending);
        h
    };

    let mut h = setup();
    assert!(h.request(0, LockKind::Unlocked));
    assert_eq!(h.coord.write_intent, None);

    let mut h = setup();
    assert!(h.request(0, LockKind::Shared)); // gives up the intent
    assert_eq!(h.coord.write_intent, None);
    assert_eq!(h.coord.shared_count, 2);

    let mut h = setup();
    assert!(!h.request(0, LockKind::Reserved));
    assert_eq!(h.levels[0], LockKind::Pending);

    let mut h = setup();
    assert!(h.request(0, LockKind::Pending)); // trivial: level already held
    assert_eq!(h.levels[0], LockKind::Pending);

    // retry while the reader remains: still denied
    let mut h = setup();
    assert!(!h.request(0, LockKind::Exclusive));
    assert_eq!(h.levels[0], LockKind::Pending);

    // once the reader drains, the retry succeeds
    let mut h = setup();
    assert!(h.request(1, LockKind::Unlocked));
    assert!(h.request(0, LockKind::Exclusive));
    assert_eq!(h.levels[0], LockKind::Exclusive);
}

#[test]
fn matrix_from_exclusive() {
    let mut setup = || {
        let mut h = Harness::new(1);
        assert!(h.request(0, LockKind::Exclusive));
        h
    };

    let mut h = setup();
    assert!(h.request(0, LockKind::Unlocked));
    assert_eq!(h.coord.write_intent, None);

    let mut h = setup();
    assert!(h.request(0, LockKind::Shared)); // downgrade to reading
    assert_eq!(h.coord.write_intent, None);
    assert_eq!(h.coord.shared_count, 1);

    let mut h = setup();
    assert!(!h.request(0, LockKind::Reserved)); // sideways move is refused
    assert_eq!(h.levels[0], LockKind::Exclusive);

    let mut h = setup();
    assert!(!h.request(0, LockKind::Pending));
    assert_eq!(h.levels[0], LockKind::Exclusive);

    let mut h = setup();
    assert!(h.request(0, LockKind::Exclusive)); // trivial
    assert_eq!(h.levels[0], LockKind::Exclusive);
}

#[test]
fn exclusive_holder_blocks_new_shared() {
    let mut h = Harness::new(2);
    assert!(h.request(0, LockKind::Exclusive));
    assert!(!h.request(1, LockKind::Shared));
    assert_eq!(h.levels[1], LockKind::Unlocked);
    // after the writer downgrades, readers come back
    assert!(h.request(0, LockKind::Unlocked));
    assert!(h.request(1, LockKind::Shared));
}

#[test]
fn shared_holders_block_exclusive_until_drained() {
    let mut h = Harness::new(3);
    assert!(h.request(0, LockKind::Shared));
    assert!(h.request(1, LockKind::Shared));
    assert_eq!(h.coord.shared_count, 2);
    assert!(!h.request(2, LockKind::Exclusive));
    assert!(h.request(0, LockKind::Unlocked));
    assert!(!h.request(2, LockKind::Exclusive));
    assert!(h.request(1, LockKind::Unlocked));
    assert!(h.request(2, LockKind::Exclusive));
    assert_eq!(h.levels[2], LockKind::Exclusive);
}

#[test]
fn reserved_admits_shared_but_blocks_writers() {
    let mut h = Harness::new(3);
    assert!(h.request(0, LockKind::Shared));
    assert!(h.request(0, LockKind::Reserved));
    // a new reader is admitted
    assert!(h.request(1, LockKind::Shared));
    assert_eq!(h.levels[1], LockKind::Shared);
    // another handle's Reserved or Exclusive is refused
    assert!(!h.request(1, LockKind::Reserved));
    assert!(!h.request(1, LockKind::Exclusive));
    assert!(!h.request(2, LockKind::Exclusive));
}

#[test]
fn random_interleavings_keep_invariant() {
    // property run: random handles request random levels; the harness
    // asserts the coordinator invariant after every step.
    let targets = [
        LockKind::Unlocked,
        LockKind::Shared,
        LockKind::Reserved,
        LockKind::Pending,
        LockKind::Exclusive,
    ];
    for _round in 0..50 {
        let mut h = Harness::new(5);
        for _step in 0..200 {
            let handle = rand::random_range(0..5usize);
            let to = targets[rand::random_range(0..5usize)];
            let cur = h.levels[handle];
            let granted = h.request(handle, to);
            // a request for the level already held is a trivial success
            if cur == to {
                assert!(granted);
            }
            // a granted request always lands on the target level
            if granted {
                assert_eq!(h.levels[handle], to);
            } else {
                // denied requests leave the level alone, except the blocked
                // Exclusive that parks at Pending
                assert!(h.levels[handle] == cur || h.levels[handle] == LockKind::Pending);
            }
            assert!(rank(h.levels[handle]) <= 4);
        }
    }
}

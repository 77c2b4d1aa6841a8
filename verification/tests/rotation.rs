use turn_tracker::turn_tracker::TurnTracker;
use turn_tracker::user::User;

const BLUE: u32 = 0x0000_ffff;

fn make_player(name: &str) -> User {
    User { name: name.to_string(), color: BLUE }
}

#[test]
fn construct_and_loop() {
    let p1 = make_player("p1");
    let p2 = make_player("p2");
    let p3 = make_player("p3");
    let mut t = TurnTracker::new(vec![p1.clone(), p2.clone(), p3.clone()]);

    for _ in 1..50 {
        assert_eq!(t.advance_player(), Some(p1.clone()));
        assert_eq!(t.advance_player(), Some(p2.clone()));
        assert_eq!(t.advance_player(), Some(p3.clone()));
    }
}

#[test]
fn add_one() {
    let p1 = make_player("p1");
    let p2 = make_player("p2");
    let mut t = TurnTracker::new(vec![p1.clone(), p2.clone()]);

    assert_eq!(t.advance_player(), Some(p1.clone()));
    let p3 = make_player("p3");
    t.add_player(p3.clone()).unwrap();
    for _ in 1..10 {
        assert_eq!(t.advance_player(), Some(p2.clone()));
        assert_eq!(t.advance_player(), Some(p3.clone()));
        assert_eq!(t.advance_player(), Some(p1.clone()));
    }
}

#[test]
fn add_two() {
    let p1 = make_player("p1");
    let mut t = TurnTracker::new(vec![p1.clone()]);

    assert_eq!(t.advance_player(), Some(p1.clone()));
    let p2 = make_player("p2");
    let p3 = make_player("p3");
    t.add_player(p2.clone()).unwrap();
    t.add_player(p3.clone()).unwrap();
    for _ in 1..10 {
        assert_eq!(t.advance_player(), Some(p2.clone()));
        assert_eq!(t.advance_player(), Some(p3.clone()));
        assert_eq!(t.advance_player(), Some(p1.clone()));
    }
}

#[test]
fn remove_last() {
    let p1 = make_player("p1");
    let p2 = make_player("p2");
    let mut t = TurnTracker::new(vec![p1.clone(), p2.clone()]);

    assert_eq!(t.advance_player(), Some(p1.clone()));
    t.remove_player("p1").unwrap();
    for _ in 1..10 {
        assert_eq!(t.advance_player(), Some(p2.clone()));
    }
}

#[test]
fn remove_next() {
    let p1 = make_player("p1");
    let p2 = make_player("p2");
    let mut t = TurnTracker::new(vec![p1.clone(), p2.clone()]);

    assert_eq!(t.advance_player(), Some(p1.clone()));
    t.remove_player("p2").unwrap();
    for _ in 1..10 {
        assert_eq!(t.advance_player(), Some(p1.clone()));
    }
}

#[test]
fn remove_all() {
    let p1 = make_player("p1");
    let p2 = make_player("p2");
    let mut t = TurnTracker::new(vec![p1.clone(), p2.clone()]);

    assert_eq!(t.advance_player(), Some(p1.clone()));
    t.remove_player("p2").unwrap();
    t.remove_player("p1").unwrap();
    for _ in 1..10 {
        assert_eq!(t.advance_player(), None);
    }
}

#[test]
fn start_empty() {
    let p1 = make_player("p1");
    let p2 = make_player("p2");
    let mut t = TurnTracker::new(vec![]);

    assert_eq!(t.advance_player(), None);
    t.add_player(p1.clone()).unwrap();
    t.add_player(p2.clone()).unwrap();
    for _ in 1..10 {
        assert_eq!(t.advance_player(), Some(p1.clone()));
        assert_eq!(t.advance_player(), Some(p2.clone()));
    }
}

#[test]
fn add_one_advance_add_one_then_rinse_repeat() {
    let p1 = make_player("p1");
    let p2 = make_player("p2");
    let mut t = TurnTracker::new(vec![]);

    assert_eq!(t.advance_player(), None);
    t.add_player(p1.clone()).unwrap();
    assert_eq!(t.advance_player(), Some(p1.clone()));
    t.add_player(p2.clone()).unwrap();
    assert_eq!(t.advance_player(), Some(p2.clone()));

    t.remove_player("p1").unwrap();
    t.remove_player("p2").unwrap();

    assert_eq!(t.advance_player(), None);
    t.add_player(p1.clone()).unwrap();
    assert_eq!(t.advance_player(), Some(p1.clone()));
    t.add_player(p2.clone()).unwrap();
    assert_eq!(t.advance_player(), Some(p2.clone()));
}

#[test]
fn single_player() {
    let p1 = make_player("p1");
    let mut t = TurnTracker::new(vec![p1.clone()]);
    for _ in 1..10 {
        assert_eq!(t.advance_player(), Some(p1.clone()));
    }
}

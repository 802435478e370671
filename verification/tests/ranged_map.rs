use libscroll::interpolate::Event;
use libscroll::ranged_map::RangedMap;
use libscroll::ranged_map::ToKey;

fn ev(time: i64, value: i64) -> Event {
    Event { time, value }
}

#[test]
fn event_key_is_its_time() {
    assert_eq!(ev(25, 1).to_key(), 25);
    assert_eq!(ev(-3, 1).to_key(), 0);
}

#[test]
fn neighbors_bracket_the_point() {
    let mut m: RangedMap<Event> = RangedMap::new();
    m.insert(ev(10, 100));
    m.insert(ev(20, 200));
    m.insert(ev(30, 300));
    let (before, after) = m.get_neighbors_to(15);
    assert_eq!(before, ev(10, 100));
    assert_eq!(after, ev(20, 200));
    let (before, after) = m.get_neighbors_to(20);
    assert_eq!(before, ev(20, 200));
    assert_eq!(after, ev(30, 300));
}

#[test]
fn second_neighbors_extend_one_outward() {
    let mut m: RangedMap<Event> = RangedMap::new();
    m.insert(ev(10, 100));
    m.insert(ev(20, 200));
    m.insert(ev(30, 300));
    m.insert(ev(40, 400));
    let (outer1, inner1, inner2, outer2) = m.get_2nd_neighbors_to(25);
    assert_eq!(outer1, ev(10, 100));
    assert_eq!(inner1, ev(20, 200));
    assert_eq!(inner2, ev(30, 300));
    assert_eq!(outer2, ev(40, 400));
}

#[test]
fn insert_replaces_equal_keys() {
    let mut m: RangedMap<Event> = RangedMap::new();
    m.insert(ev(10, 100));
    m.insert(ev(30, 300));
    m.insert(ev(10, 111));
    let (before, after) = m.get_neighbors_to(10);
    assert_eq!(before, ev(10, 111));
    assert_eq!(after, ev(30, 300));
    assert_eq!(m.entries.len(), 2);
}

#[test]
fn insert_keeps_key_order() {
    let mut m: RangedMap<Event> = RangedMap::new();
    m.insert(ev(30, 3));
    m.insert(ev(10, 1));
    m.insert(ev(20, 2));
    let keys: Vec<u64> = m.entries.iter().map(|e| e.to_key()).collect();
    assert_eq!(keys, vec![10, 20, 30]);
}

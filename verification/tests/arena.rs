use ease::arena::{Arena, Handle};
use std::cell::Cell;

#[test]
fn arena_add_then_get() {
    let mut a: Arena<u32, 4> = Arena::new();
    let h = a.add(7).expect("empty arena must accept an entry");
    assert_eq!(a.get(h), Some(&7));
    assert_eq!(a.get_mut(h), Some(&mut 7));
}

#[test]
fn arena_full_at_exactly_n() {
    let mut a: Arena<u32, 3> = Arena::new();
    let hs: Vec<Handle> = (0..3).map(|i| a.add(i as u32).unwrap()).collect();
    assert!(a.add(99).is_none(), "fourth add into N=3 must be refused");
    for (i, h) in hs.iter().enumerate() {
        assert_eq!(a.get(*h), Some(&(i as u32)));
    }
}

#[test]
fn arena_handles_are_distinct() {
    let mut a: Arena<u32, 4> = Arena::new();
    let h0 = a.add(0).unwrap();
    let h1 = a.add(1).unwrap();
    assert_ne!(h0, h1);
    assert_eq!(a.get(h0), Some(&0));
    assert_eq!(a.get(h1), Some(&1));
}

#[test]
fn arena_take_returns_value_and_empties_slot() {
    let mut a: Arena<u32, 2> = Arena::new();
    let h = a.add(42).unwrap();
    assert_eq!(a.take(h), Some(42));
    assert_eq!(a.get(h), None, "handle must be stale after take");
    assert_eq!(a.take(h), None, "second take must find nothing");
}

#[test]
fn arena_stale_handle_after_reuse() {
    let mut a: Arena<u32, 1> = Arena::new();
    let old = a.add(1).unwrap();
    assert_eq!(a.take(old), Some(1));
    let new = a.add(2).unwrap();
    assert_ne!(old, new, "reuse must hand out a different generation");
    assert_eq!(a.get(old), None);
    assert_eq!(a.get_mut(old), None);
    assert_eq!(a.take(old), None, "stale take must not disturb the live entry");
    assert_eq!(a.get(new), Some(&2));
}

#[test]
fn arena_stale_take_does_not_bump_generation() {
    let mut a: Arena<u32, 1> = Arena::new();
    let old = a.add(1).unwrap();
    a.take(old);
    let new = a.add(2).unwrap();
    for _ in 0..3 {
        assert_eq!(a.take(old), None);
    }
    assert_eq!(a.get(new), Some(&2), "live handle must survive stale takes");
}

#[test]
fn arena_add_reuses_lowest_free_slot() {
    let mut a: Arena<u32, 3> = Arena::new();
    let h0 = a.add(0).unwrap();
    let h1 = a.add(1).unwrap();
    let _h2 = a.add(2).unwrap();
    a.take(h0);
    let h3 = a.add(3).unwrap();
    assert_eq!(h3.index, h0.index);
    assert_ne!(h3, h0);
    assert_eq!(a.get(h1), Some(&1), "neighbouring slot untouched");
}

#[test]
fn arena_foreign_handle_out_of_range() {
    let mut big: Arena<u32, 4> = Arena::new();
    let mut small: Arena<u32, 2> = Arena::new();
    for i in 0..3 {
        big.add(i).unwrap();
    }
    let h3 = big.add(3).unwrap();
    assert_eq!(small.get(h3), None);
    assert_eq!(small.get_mut(h3), None);
    assert_eq!(small.take(h3), None);
    let h0 = small.add(0).unwrap();
    assert!(small.get_disjoint_mut(h0, h3).is_none());
}

#[test]
fn arena_get_mut_writes_through() {
    let mut a: Arena<u32, 2> = Arena::new();
    let h = a.add(1).unwrap();
    *a.get_mut(h).unwrap() += 10;
    assert_eq!(a.get(h), Some(&11));
}

#[test]
fn arena_disjoint_two_live_entries() {
    let mut a: Arena<u32, 4> = Arena::new();
    let ha = a.add(10).unwrap();
    let hb = a.add(20).unwrap();
    let (ea, eb) = a.get_disjoint_mut(ha, hb).expect("two live handles");
    core::mem::swap(ea, eb);
    assert_eq!(a.get(ha), Some(&20));
    assert_eq!(a.get(hb), Some(&10));
}

#[test]
fn arena_disjoint_refuses_same_slot() {
    let mut a: Arena<u32, 4> = Arena::new();
    let h = a.add(1).unwrap();
    assert!(a.get_disjoint_mut(h, h).is_none());
    a.take(h);
    let h2 = a.add(2).unwrap();
    assert_eq!(h.index, h2.index);
    assert!(a.get_disjoint_mut(h, h2).is_none());
    assert!(a.get_disjoint_mut(h2, h).is_none());
}

#[test]
fn arena_disjoint_refuses_stale_or_empty() {
    let mut a: Arena<u32, 4> = Arena::new();
    let ha = a.add(1).unwrap();
    let hb = a.add(2).unwrap();
    a.take(hb);
    assert!(a.get_disjoint_mut(ha, hb).is_none(), "stale second handle");
    assert!(a.get_disjoint_mut(hb, ha).is_none(), "stale first handle");
    let hc = a.add(3).unwrap();
    assert_ne!(hb, hc);
    assert!(a.get_disjoint_mut(ha, hb).is_none(), "old handle to reused slot");
    assert!(a.get_disjoint_mut(ha, hc).is_some(), "new handle to reused slot");
}

#[test]
fn arena_generation_wraps_without_panic() {
    let mut a: Arena<u32, 1> = Arena::new();
    a.set_slot_generation(0, u32::MAX);
    let h = a.add(1).unwrap();
    assert_eq!(h.generation, u32::MAX);
    assert_eq!(a.take(h), Some(1));
    assert_eq!(a.slot_generation(0), 0);
    assert_eq!(a.get(h), None);
}

struct Counted<'a>(&'a Cell<u32>);
impl Drop for Counted<'_> {
    fn drop(&mut self) {
        self.0.set(self.0.get() + 1);
    }
}

#[test]
fn arena_take_moves_out_without_dropping() {
    let drops = Cell::new(0);
    let mut a: Arena<Counted<'_>, 2> = Arena::new();
    let h = a.add(Counted(&drops)).unwrap();
    let v = a.take(h).expect("live handle");
    assert_eq!(drops.get(), 0, "take must not drop inside the arena");
    drop(v);
    assert_eq!(drops.get(), 1);
}

#[test]
fn arena_drop_releases_held_entries() {
    let drops = Cell::new(0);
    {
        let mut a: Arena<Counted<'_>, 3> = Arena::new();
        a.add(Counted(&drops)).unwrap();
        let h = a.add(Counted(&drops)).unwrap();
        a.add(Counted(&drops)).unwrap();
        drop(a.take(h));
        assert_eq!(drops.get(), 1);
    }
    assert_eq!(drops.get(), 3, "remaining entries dropped with the arena");
}

#[test]
fn arena_const_new_in_static_context() {
    let a: Arena<u32, 4> = Arena::new();
    assert!(a.get(Handle { index: 0, generation: 0 }).is_none());
}

#[test]
fn arena_iter_yields_live_entries_in_slot_order() {
    let mut a: Arena<u32, 4> = Arena::new();
    let h0 = a.add(5).unwrap();
    a.add(6).unwrap();
    a.add(7).unwrap();
    a.take(h0);
    let v: Vec<u32> = a.iter().into_iter().copied().collect();
    assert_eq!(v, vec![6, 7]);
}

//! The sparse-set instance store: handles, partition, removal.

use render_core::model::{InvalidHandle, Model};

fn store_of(records: &[u32]) -> Model<u32, u32> {
    let mut m: Model<u32, u32> = Model::new(Vec::new(), Vec::new());
    for r in records {
        m.insert(*r);
    }
    m
}

#[test]
fn insert_issues_consecutive_handles() {
    let mut m: Model<u32, u32> = Model::new(Vec::new(), Vec::new());
    assert_eq!(m.insert(10), 0);
    assert_eq!(m.insert(20), 1);
    assert_eq!(m.insert(30), 2);
    assert_eq!(m.instance_count(), 3);
    assert_eq!(m.visible_count(), 0);
}

#[test]
fn new_instances_are_invisible() {
    let m = store_of(&[10, 20]);
    assert_eq!(m.is_visible(0), Ok(false));
    assert_eq!(m.is_visible(1), Ok(false));
    assert_eq!(m.visible_count(), 0);
}

#[test]
fn get_returns_the_inserted_record() {
    let m = store_of(&[10, 20, 30]);
    assert_eq!(m.get(0), Some(&10));
    assert_eq!(m.get(1), Some(&20));
    assert_eq!(m.get(2), Some(&30));
    assert_eq!(m.get(3), None);
}

#[test]
fn get_mut_rewrites_the_record() {
    let mut m = store_of(&[10, 20]);
    if let Some(r) = m.get_mut(1) {
        *r = 99;
    } else {
        panic!("handle 1 should be live");
    }
    assert_eq!(m.get(1), Some(&99));
    assert_eq!(m.get(0), Some(&10));
    assert!(m.get_mut(7).is_none());
}

#[test]
fn visibility_scenario_three_instances_one_visible() {
    // Insert 3 instances (handles 0, 1, 2), make only handle 1 visible.
    let mut m = store_of(&[10, 11, 12]);
    m.make_visible(1).unwrap();
    assert_eq!(m.visible_count(), 1);
    // Dense order: handle 1 first, then 0 and 2 in either order.
    assert_eq!(m.handle_at(0), 1);
    let rest = [m.handle_at(1), m.handle_at(2)];
    assert!(rest == [0, 2] || rest == [2, 0]);
    // The partition is exact.
    assert_eq!(m.is_visible(1), Ok(true));
    assert_eq!(m.is_visible(0), Ok(false));
    assert_eq!(m.is_visible(2), Ok(false));
}

#[test]
fn partition_invariant_after_each_call() {
    let mut m = store_of(&[0, 10, 20, 30, 40]);
    m.make_visible(1).unwrap();
    m.make_visible(3).unwrap();
    m.make_visible(0).unwrap();
    m.make_invisible(1).unwrap();
    m.remove(3).unwrap();
    m.insert_visibly(50);
    // After every call: entries below the cursor visible, the rest not.
    for i in 0..m.instance_count() {
        let h = m.handle_at(i);
        assert_eq!(m.is_visible(h), Ok(i < m.visible_count()));
    }
}

#[test]
fn make_visible_is_idempotent() {
    let mut m = store_of(&[10, 20]);
    m.make_visible(0).unwrap();
    assert_eq!(m.visible_count(), 1);
    m.make_visible(0).unwrap();
    assert_eq!(m.visible_count(), 1);
    m.make_invisible(0).unwrap();
    assert_eq!(m.visible_count(), 0);
    m.make_invisible(0).unwrap();
    assert_eq!(m.visible_count(), 0);
}

#[test]
fn removal_scenario_two_visible_one_invisible() {
    // A store of 2 visible + 1 invisible; remove a visible handle.
    let mut m: Model<u32, u32> = Model::new(Vec::new(), Vec::new());
    let a = m.insert_visibly(100);
    let b = m.insert_visibly(200);
    let c = m.insert(300);
    assert_eq!(m.visible_count(), 2);

    let removed = m.remove(a).unwrap();
    assert_eq!(removed, 100);
    // The cursor decrements to 1.
    assert_eq!(m.visible_count(), 1);
    // The remaining visible handle's data is unchanged.
    assert_eq!(m.get(b), Some(&200));
    assert_eq!(m.is_visible(b), Ok(true));
    assert_eq!(m.get(c), Some(&300));
    assert_eq!(m.is_visible(c), Ok(false));
    // The removed handle yields InvalidHandle (or a miss) on any operation.
    assert_eq!(m.get(a), None);
    assert_eq!(m.is_visible(a), Err(InvalidHandle));
    assert_eq!(m.make_visible(a), Err(InvalidHandle));
    assert_eq!(m.make_invisible(a), Err(InvalidHandle));
    assert_eq!(m.remove(a), Err(InvalidHandle));
    assert_eq!(m.swap_by_handle(a, b), Err(InvalidHandle));
}

#[test]
fn removed_handles_are_never_reissued() {
    let mut m = store_of(&[10, 20, 30]);
    m.remove(1).unwrap();
    // The next insert gets a fresh handle, not the removed 1.
    let h = m.insert(40);
    assert_eq!(h, 3);
    assert_eq!(m.get(1), None);
    // All live handles are pairwise distinct.
    let handles: Vec<usize> = (0..m.instance_count()).map(|i| m.handle_at(i)).collect();
    for i in 0..handles.len() {
        for j in 0..handles.len() {
            if i != j {
                assert_ne!(handles[i], handles[j]);
            }
        }
    }
}

#[test]
fn map_stays_consistent_with_dense_order() {
    let mut m = store_of(&[10, 20, 30, 40]);
    m.make_visible(2).unwrap();
    m.make_visible(0).unwrap();
    m.remove(3).unwrap();
    m.make_invisible(2).unwrap();
    // For every dense index, the handle there still addresses that record.
    for i in 0..m.instance_count() {
        let h = m.handle_at(i);
        assert_eq!(m.get(h), Some(m.record_at(i)));
    }
}

#[test]
fn swap_by_handle_swaps_positions_and_visibility() {
    let mut m = store_of(&[10, 20]);
    m.make_visible(0).unwrap();
    assert_eq!(m.is_visible(0), Ok(true));
    assert_eq!(m.is_visible(1), Ok(false));
    m.swap_by_handle(0, 1).unwrap();
    // Visibility trades places; records stay with their handles.
    assert_eq!(m.is_visible(0), Ok(false));
    assert_eq!(m.is_visible(1), Ok(true));
    assert_eq!(m.get(0), Some(&10));
    assert_eq!(m.get(1), Some(&20));
}

#[test]
fn swap_by_handle_equal_handles_is_a_no_op() {
    let mut m = store_of(&[10]);
    assert_eq!(m.swap_by_handle(0, 0), Ok(()));
    // Even for a handle that was never issued.
    assert_eq!(m.swap_by_handle(9, 9), Ok(()));
    assert_eq!(m.swap_by_handle(0, 9), Err(InvalidHandle));
}

#[test]
fn remove_invisible_handle_keeps_cursor() {
    let mut m: Model<u32, u32> = Model::new(Vec::new(), Vec::new());
    let a = m.insert_visibly(1);
    let b = m.insert(2);
    let c = m.insert(3);
    assert_eq!(m.visible_count(), 1);
    assert_eq!(m.remove(b), Ok(2));
    assert_eq!(m.visible_count(), 1);
    assert_eq!(m.get(a), Some(&1));
    assert_eq!(m.get(c), Some(&3));
    assert_eq!(m.instance_count(), 2);
}

#[test]
fn swap_by_index_exchanges_dense_entries() {
    let mut m = store_of(&[10, 20, 30]);
    m.swap_by_index(0, 2);
    assert_eq!(*m.record_at(0), 30);
    assert_eq!(*m.record_at(2), 10);
    // The handle map follows the move.
    assert_eq!(m.handle_at(0), 2);
    assert_eq!(m.handle_at(2), 0);
    assert_eq!(m.get(0), Some(&10));
    assert_eq!(m.get(2), Some(&30));
}

#[test]
fn handles_stay_valid_across_other_operations() {
    let mut m = store_of(&[10, 20, 30]);
    m.remove(0).unwrap();
    let d = m.insert(40);
    m.make_visible(2).unwrap();
    // Handle 1 was never touched: it still addresses its record.
    assert_eq!(m.get(1), Some(&20));
    assert_eq!(m.get(d), Some(&40));
}

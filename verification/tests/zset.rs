use dbsp::algebra::{GroupValue, MonoidValue};
use dbsp::trace::description::Description;
use dbsp::trace::layers::ordered_leaf::OrderedLeaf;
use dbsp::trace::ord::zset_batch::{zset, OrdZSet, OrdZSetBuilder, OrdZSetMerger};
use std::rc::Rc;

fn pairs(batch: &OrdZSet<i64, i64>) -> Vec<(i64, i64)> {
    let mut out = vec![];
    let mut cursor = batch.cursor();
    while cursor.key_valid(batch) {
        out.push((*cursor.key(batch), *cursor.weight(batch)));
        cursor.step_key(batch);
    }
    out
}

#[test]
fn tuples_are_sorted_and_added_up() {
    let batch = zset(vec![(3, 1), (1, 2), (3, 4), (2, 5), (2, -5), (1, 0)]);
    assert_eq!(vec![(1, 2), (3, 5)], pairs(&batch));
    assert_eq!(2, batch.len());
    assert_eq!(2, batch.num_entries_shallow());
    assert_eq!(2, batch.num_entries_deep());
    assert_eq!(None, OrdZSet::<i64, i64>::const_num_entries());
    assert!(!batch.is_empty());
    assert!(!batch.is_zero());
}

#[test]
fn the_order_of_tuples_does_not_matter() {
    let a = zset(vec![(1, 2), (5, 1), (3, 4), (5, 1)]);
    let b = zset(vec![(5, 2), (3, 3), (1, 2), (3, 1)]);
    assert!(a.equals(&b));
    assert!(a.same(&b));
    assert_eq!(pairs(&a), pairs(&b));
    assert!(!a.equals(&zset(vec![(1, 2)])));
    assert!(!a.equals(&zset(vec![(1, 2), (3, 4), (5, 3)])));
    assert!(!a.equals(&zset(vec![(1, 2), (3, 4), (6, 2)])));
}

#[test]
fn builders_take_tuples_in_any_order() {
    let mut builder = OrdZSetBuilder::<i64, i64>::new(());
    builder.push((9, (), 1));
    builder.push((4, (), -1));
    builder.push((9, (), 1));
    assert_eq!(vec![(4, -1), (9, 2)], pairs(&builder.done()));
    let mut builder = OrdZSetBuilder::<i64, i64>::with_capacity((), 2);
    builder.push((1, (), 1));
    builder.push((1, (), -1));
    assert!(builder.done().is_empty());
}

#[test]
fn sums_keep_no_zeros() {
    let a = zset(vec![(1, 1), (2, 2), (3, 3)]);
    let b = zset(vec![(0, 7), (2, -2), (3, 1), (4, 4)]);
    let expected = vec![(0, 7), (1, 1), (3, 4), (4, 4)];
    assert_eq!(expected, pairs(&a.add_by_ref(&b)));
    assert_eq!(expected, pairs(&b.add_by_ref(&a)));
    assert_eq!(expected, pairs(&a.duplicate().add(b.duplicate())));
    let mut c = a.duplicate();
    c.add_assign_by_ref(&b);
    assert_eq!(expected, pairs(&c));
    let mut c = a.duplicate();
    c.add_assign(b);
    assert_eq!(expected, pairs(&c));
}

#[test]
fn adding_nothing_changes_nothing() {
    let a = zset(vec![(1, 1), (2, 2)]);
    let nothing = OrdZSet::<i64, i64>::empty(());
    assert_eq!(pairs(&a), pairs(&a.add_by_ref(&nothing)));
    assert_eq!(pairs(&a), pairs(&nothing.add_by_ref(&a)));
    assert_eq!(pairs(&a), pairs(&OrdZSet::zero().add(a.duplicate())));
    assert_eq!(pairs(&a), pairs(&a.duplicate().add(OrdZSet::zero())));
}

#[test]
fn a_batch_and_its_inverse_cancel_out() {
    let a = zset(vec![(1, 1), (2, -2)]);
    assert_eq!(vec![(1, -1), (2, 2)], pairs(&a.neg_by_ref()));
    assert!(a.add_by_ref(&a.neg_by_ref()).is_zero());
    assert!(a.neg_by_ref().neg().equals(&a));
    let b = zset(vec![(2, 9)]);
    assert!(b.add_by_ref(&a).add(a.neg()).equals(&b));
}

#[test]
fn merging_takes_pairs_off_the_fuel() {
    let a = zset(vec![(1, 1), (2, 2), (3, 3)]);
    let b = zset(vec![(3, -3), (4, 4)]);
    let mut merger = a.begin_merge(&b);
    let mut fuel: isize = 10;
    merger.work(&a, &b, &mut fuel);
    assert_eq!(7, fuel);
    let merged = merger.done();
    assert_eq!(vec![(1, 1), (2, 2), (4, 4)], pairs(&merged));
    assert!(merged.same(&a.add_by_ref(&b)));

    let mut merger = OrdZSetMerger::new(&a, &b);
    let mut fuel: isize = 2;
    merger.work(&a, &b, &mut fuel);
    assert_eq!(1, fuel);
}

#[test]
fn distinct_keeps_positive_keys() {
    let a = zset(vec![(1, 5), (2, -5), (3, 1)]);
    let d = a.distinct();
    assert_eq!(vec![(1, 1), (3, 1)], pairs(&d));
    assert!(d.distinct().equals(&d));
    assert!(d.neg_by_ref().distinct().is_empty());
    assert_eq!(vec![(1, 1), (3, 1)], pairs(&a.distinct_owned()));
    assert!(zset(vec![(1i64, -1i64)]).distinct().is_empty());
}

#[test]
fn cursors_step_seek_and_rewind() {
    let a = zset(vec![(10, 1), (20, 2), (30, 3)]);
    let mut cursor = a.cursor();
    assert!(cursor.key_valid(&a) && cursor.val_valid(&a));
    assert_eq!(&(), cursor.val(&a));
    cursor.seek_key(&a, &15);
    assert_eq!(20, *cursor.key(&a));
    cursor.seek_key(&a, &5);
    assert_eq!(20, *cursor.key(&a));
    cursor.step_val(&a);
    assert!(!cursor.val_valid(&a));
    assert!(cursor.key_valid(&a));
    cursor.rewind_vals(&a);
    assert!(cursor.val_valid(&a));
    cursor.seek_val(&a, &());
    let mut seen = 0;
    cursor.map_times(&a, |_t: &(), w: &i64| seen = *w);
    assert_eq!(2, seen);
    cursor.step_key(&a);
    cursor.step_key(&a);
    assert!(!cursor.key_valid(&a));
    cursor.step_key(&a);
    let mut called = false;
    cursor.map_times(&a, |_t: &(), _w: &i64| called = true);
    assert!(!called);
    cursor.rewind_keys(&a);
    assert_eq!(10, *cursor.key(&a));
    cursor.seek_key(&a, &31);
    assert!(!cursor.key_valid(&a));
}

#[test]
fn batches_cover_all_times() {
    let a = zset(vec![(1i64, 1i64)]);
    assert!(a.description().equals(&Description::total()));
    assert_eq!(&[()], a.description().lower().elements());
    assert!(a.description().upper().elements().is_empty());
    let sum = a.add_by_ref(&a);
    assert!(sum.description().equals(&Description::total()));
    let narrow = Description::new(
        timely::progress::Antichain::new(),
        timely::progress::Antichain::from_elem(()),
    );
    assert!(!narrow.equals(&Description::total()));
    let both = narrow.combine(&Description::total());
    assert_eq!(1, both.lower().elements().len());
    assert_eq!(0, both.upper().elements().len());
    let twice = narrow.combine(&narrow.clone());
    assert_eq!(0, twice.lower().elements().len());
    assert_eq!(1, twice.upper().elements().len());
}

#[test]
fn shared_batches_are_taken_out_when_alone() {
    let shared = OrdZSet::shared_from_layer(OrderedLeaf { vals: vec![(1i64, 1i64)] });
    let other = Rc::clone(&shared);
    let shared = match OrdZSet::try_from(shared) {
        Ok(_) => panic!("still shared"),
        Err(shared) => shared,
    };
    drop(other);
    match OrdZSet::try_from(shared) {
        Ok(owned) => assert_eq!(vec![(1, 1)], pairs(&owned)),
        Err(_) => panic!("no longer shared"),
    }
    let mut owned = zset(vec![(1i64, 2i64)]).try_into_owned().unwrap();
    owned.recede_to(&());
    assert_eq!(vec![(1, 2)], pairs(&owned));
}

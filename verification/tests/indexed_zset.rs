use dbsp::algebra::{GroupValue, MonoidValue};
use dbsp::trace::layers::ordered::OrderedLayer;
use dbsp::trace::layers::ordered_values::OrderedLayerValues;
use dbsp::trace::ord::indexed_zset_batch::{
    indexed_zset, layer_text, OrdIndexedZSet, OrdIndexedZSetBuilder, OrdIndexedZSetMerger,
    OrdIndexedZSetValueConsumer,
};

type Batch = OrdIndexedZSet<i64, i64, i64, usize>;

fn triples(batch: &Batch) -> Vec<(i64, i64, i64)> {
    let mut out = vec![];
    let mut cursor = batch.cursor();
    while cursor.key_valid() {
        while cursor.val_valid() {
            let weight = cursor.weight();
            out.push((*cursor.key(), *cursor.val(), weight));
            cursor.step_val();
        }
        cursor.step_key();
    }
    out
}

fn example() -> Batch {
    indexed_zset(vec![
        ((2, 20), 1),
        ((1, 11), 5),
        ((1, 10), 2),
        ((2, 20), 3),
        ((3, 30), 1),
        ((3, 30), -1),
    ])
}

#[test]
fn tuples_are_grouped_by_key() {
    let batch = example();
    assert_eq!(vec![(1, 10, 2), (1, 11, 5), (2, 20, 4)], triples(&batch));
    assert_eq!(2, batch.key_count());
    assert_eq!(3, batch.len());
    assert_eq!(2, batch.num_entries_shallow());
    assert_eq!(3, batch.num_entries_deep());
    assert!(!batch.is_empty());
    assert_eq!(vec![()], batch.lower());
    assert!(batch.upper().is_empty());
    assert_eq!((1, 2), Batch::item_from(1, 2));
    assert_eq!(vec![1, 2], batch.layer.keys);
    assert_eq!(vec![0, 2, 3], batch.layer.offs);
}

#[test]
fn empty_batches_are_zero() {
    let batch = Batch::default();
    assert!(batch.is_empty());
    assert!(batch.is_zero());
    assert_eq!(batch, Batch::zero());
    assert_eq!(batch, Batch::empty(()));
    let mut cursor = batch.cursor();
    assert!(!cursor.key_valid() && !cursor.val_valid());
    assert_eq!(None, cursor.last_key());
}

#[test]
fn builders_group_tuples() {
    let mut builder = OrdIndexedZSetBuilder::<i64, i64, i64, u32>::with_capacity((), 4);
    builder.reserve(10);
    builder.push(((5, 1), 1));
    builder.push(((4, 1), 1));
    builder.push(((5, 0), 2));
    let batch = builder.done();
    assert_eq!(vec![0u32, 1, 3], batch.layer.offs);
    assert_eq!(vec![4, 5], batch.layer.keys);
    assert_eq!(vec![(1, 1), (0, 2), (1, 1)], batch.layer.vals);
    assert!(OrdIndexedZSetBuilder::<i64, i64, i64, u32>::new_builder(()).done().is_empty());
}

#[test]
fn keys_alone_get_the_unit_value() {
    let batch = OrdIndexedZSet::<i64, (), i64, usize>::from_keys((), vec![(2, 1), (1, 3), (2, 1)]);
    assert_eq!(vec![1, 2], batch.layer.keys);
    assert_eq!(vec![((), 3), ((), 2)], batch.layer.vals);
}

#[test]
fn indexed_sums_keep_no_zeros() {
    let a = example();
    let b = indexed_zset(vec![((1, 10), -2), ((1, 12), 1), ((2, 20), -4), ((4, 40), 4)]);
    let expected = vec![(1, 11, 5), (1, 12, 1), (4, 40, 4)];
    assert_eq!(expected, triples(&a.add_by_ref(&b)));
    assert_eq!(expected, triples(&b.add_by_ref(&a)));
    assert_eq!(expected, triples(&a.duplicate().add(b.duplicate())));
    let mut c = a.duplicate();
    c.add_assign_by_ref(&b);
    assert_eq!(expected, triples(&c));
    let mut c = a.duplicate();
    c.add_assign(b);
    assert_eq!(expected, triples(&c));
}

#[test]
fn an_indexed_batch_and_its_inverse_cancel_out() {
    let a = example();
    assert_eq!(vec![(1, 10, -2), (1, 11, -5), (2, 20, -4)], triples(&a.neg_by_ref()));
    assert!(a.add_by_ref(&a.neg_by_ref()).is_zero());
    assert!(a.duplicate().neg().neg().equals(&a));
    let b = indexed_zset(vec![((9, 9), 9)]);
    assert!(!a.equals(&b));
    assert!(b.add_by_ref(&a).add(a.neg()).equals(&b));
}

#[test]
fn equal_weights_give_equal_rows() {
    let a = indexed_zset(vec![((1, 1), 1), ((2, 2), 2), ((1, 3), 3)]);
    let b = indexed_zset(vec![((1, 3), 1), ((1, 3), 2), ((2, 2), 2), ((1, 1), 1)]);
    assert!(a.equals(&b));
    assert_eq!(a, b);
    assert!(!a.equals(&indexed_zset(vec![((1, 1), 1), ((2, 2), 2)])));
    assert!(!a.equals(&indexed_zset(vec![((1, 1), 1), ((2, 2), 2), ((1, 3), 4)])));
    assert!(!a.equals(&indexed_zset(vec![((1, 1), 1), ((2, 2), 2), ((1, 4), 3)])));
}

#[test]
fn indexed_merging_takes_pairs_off_the_fuel() {
    let a = example();
    let b = indexed_zset(vec![((2, 20), -4), ((2, 21), 1)]);
    let mut merger = a.begin_merge(&b);
    let mut fuel: isize = 10;
    merger.work(&a, &b, &mut fuel);
    assert_eq!(7, fuel);
    assert_eq!(vec![(1, 10, 2), (1, 11, 5), (2, 21, 1)], triples(&merger.done()));
    let mut merger = OrdIndexedZSetMerger::new_merger(&a, &b);
    let mut fuel: isize = -5;
    merger.work(&a, &b, &mut fuel);
    assert_eq!(1, fuel);
    assert!(OrdIndexedZSetMerger::new_merger(&a, &b).done().is_empty());
}

#[test]
fn indexed_cursors_move_over_keys_and_values() {
    let batch = indexed_zset(vec![
        ((10, 1), 1),
        ((10, 5), 2),
        ((10, 9), 3),
        ((20, 2), 4),
        ((30, 3), 5),
    ]);
    let mut cursor = batch.cursor();
    cursor.seek_val(&4);
    assert_eq!(5, *cursor.val());
    cursor.rewind_vals();
    assert_eq!(1, *cursor.val());
    cursor.seek_val_with(|v: &i64| *v > 5);
    assert_eq!(9, *cursor.val());
    let mut seen = vec![];
    cursor.map_times(|_t: &(), w: &i64| seen.push(*w));
    cursor.map_times_through(|_t: &(), w: &i64| seen.push(*w), &());
    assert_eq!(vec![3, 3], seen);
    cursor.step_val();
    assert!(!cursor.val_valid() && cursor.key_valid());
    cursor.step_val();
    cursor.map_times(|_t: &(), _w: &i64| panic!("no value"));
    cursor.seek_key(&15);
    assert_eq!((20, 2), (*cursor.key(), *cursor.val()));
    cursor.seek_val_with(|v: &i64| *v > 5);
    assert!(!cursor.val_valid());
    assert_eq!(Some(&30), cursor.last_key());
    assert_eq!(3, *cursor.val());
    cursor.step_key();
    cursor.step_key();
    assert!(!cursor.key_valid() && !cursor.val_valid());
    cursor.rewind_keys();
    assert_eq!((10, 1), (*cursor.key(), *cursor.val()));
    cursor.seek_key(&31);
    assert!(!cursor.key_valid());
}

#[test]
fn consumers_hand_out_keys_and_values() {
    let batch = indexed_zset(vec![((1, 10), 1), ((1, 11), 2), ((2, 20), 3), ((3, 30), 4)]);
    let mut consumer = batch.consumer();
    assert!(consumer.key_valid());
    assert_eq!(1, *consumer.peek_key());
    {
        let (key, mut values) = consumer.next_key();
        assert_eq!(1, key);
        assert_eq!(2, values.remaining_values());
        assert_eq!((10, 1, ()), values.next_value());
        assert_eq!((11, 2, ()), values.next_value());
        assert!(!values.value_valid());
    }
    consumer.seek_key(&3);
    assert_eq!(3, *consumer.peek_key());
    {
        let (key, values) = consumer.next_key();
        assert_eq!(3, key);
        assert!(values.value_valid());
    }
    assert!(!consumer.key_valid());
    consumer.seek_key(&9);
    assert!(!consumer.key_valid());
}

#[test]
fn value_consumers_hand_out_values_in_order() {
    let values = OrderedLayerValues::new(vec![("a", 1i64), ("b", 2)]);
    let mut consumer = OrdIndexedZSetValueConsumer::<i64, &str, i64, usize>::new(values);
    assert_eq!(("a", 1, ()), consumer.next_value());
    assert_eq!(1, consumer.remaining_values());
    assert_eq!(("b", 2, ()), consumer.next_value());
    assert_eq!(0, consumer.remaining_values());
}

#[test]
fn batches_are_shown_indented() {
    let batch = indexed_zset(vec![((1i64, 10i64), 2i64), ((1, 11), -5)]);
    assert_eq!(
        "layer:\n    1:\n        10 -> 2\n        11 -> -5\n\n\n",
        batch.to_text()
    );
    assert_eq!("layer:\nx\n", layer_text("x"));
    assert_eq!("layer:\n\n", Batch::default().to_text());
}

#[test]
fn layers_become_batches() {
    let layer = OrderedLayer { keys: vec![1i64], offs: vec![0usize, 1], vals: vec![(2i64, 3i64)] };
    let batch = OrdIndexedZSet::from_layer(layer.clone());
    assert_eq!(vec![(1, 2, 3)], triples(&batch));
    let mut shared = OrdIndexedZSet::shared_from_layer(layer);
    assert_eq!(batch, *shared);
    std::rc::Rc::get_mut(&mut shared).unwrap().recede_to(&());
    assert_eq!(batch, *shared);
}

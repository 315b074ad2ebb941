use dbsp::algebra::finite_map::{FiniteHashMap, FiniteMap};
use dbsp::algebra::{GroupValue, MonoidValue, ZRingValue};

#[test]
fn hashmap_tests() {
    let mut z = FiniteHashMap::<i64, i64>::with_capacity(5);
    assert_eq!(0, z.support_size());
    assert_eq!("{}", z.to_text());
    assert_eq!(0, z.lookup(&0)); // not present -> 0
    assert_eq!(z, FiniteHashMap::<i64, i64>::zero());
    assert!(z.is_zero());
    let z2 = FiniteHashMap::<i64, i64>::new();
    assert_eq!(z, z2);

    let z3 = FiniteHashMap::<i64, i64>::singleton(3, 4);
    assert_eq!("{3=>4}", z3.to_text());

    z.increment(&0, 1);
    assert_eq!(1, z.support_size());
    assert_eq!("{0=>1}", z.to_text());
    assert_eq!(1, z.lookup(&0));
    assert_eq!(0, z.lookup(&1));
    assert_ne!(z, FiniteHashMap::<i64, i64>::zero());
    assert!(!z.is_zero());

    z.increment(&2, 0);
    assert_eq!(1, z.support_size());
    assert_eq!("{0=>1}", z.to_text());

    z.increment(&1, -1);
    assert_eq!(2, z.support_size());
    assert_eq!("{0=>1,1=>-1}", z.to_text());

    z.increment(&-1, 1);
    assert_eq!(3, z.support_size());
    assert_eq!("{-1=>1,0=>1,1=>-1}", z.to_text());

    let d = z.neg_by_ref();
    assert_eq!(3, d.support_size());
    assert_eq!("{-1=>-1,0=>-1,1=>1}", d.to_text());
    assert_ne!(d, z);

    let d = z.clone().neg();
    assert_eq!(3, d.support_size());
    assert_eq!("{-1=>-1,0=>-1,1=>1}", d.to_text());
    assert_ne!(d, z);

    let i = FiniteHashMap::<i64, i64>::from_iter(d.clone().into_iter());
    assert_eq!(i, d);

    z.increment(&1, 1);
    assert_eq!(2, z.support_size());
    assert_eq!("{-1=>1,0=>1}", z.to_text());

    let mut z2 = z.add_by_ref(&z);
    assert_eq!(2, z2.support_size());
    assert_eq!("{-1=>2,0=>2}", z2.to_text());

    let z2_owned = z.clone().add(z.clone());
    assert_eq!(2, z2_owned.support_size());
    assert_eq!("{-1=>2,0=>2}", z2_owned.to_text());

    z2.add_assign_by_ref(&z);
    assert_eq!(2, z2.support_size());
    assert_eq!("{-1=>3,0=>3}", z2.to_text());

    let z3 = z2.map(&|_x: &i64| 0i64);
    assert_eq!(1, z3.support_size());
    assert_eq!("{0=>6}", z3.to_text());

    let z4 = z2.filter(&|x: &i64| *x >= 0);
    assert_eq!(1, z4.support_size());
    assert_eq!("{0=>3}", z4.to_text());

    z2.increment(&4, 2);
    let z5 = z2.flat_map(&|x: &i64| vec![*x]);
    assert_eq!(&z5, &z2);
    let z5 = z2.flat_map(&|x: &i64| {
        if *x > 0 {
            (0..*x).into_iter().collect::<Vec<i64>>()
        } else {
            std::iter::once(*x).collect::<Vec<i64>>()
        }
    });
    assert_eq!("{-1=>3,0=>3,4=>2}", z2.to_text());
    assert_eq!("{-1=>3,0=>5,1=>2,2=>2,3=>2}", z5.to_text());

    let z6 = z2.match_keys(&z5, &|w: &i64, w2: &i64| w + w2);
    assert_eq!("{-1=>6,0=>8}", z6.to_text());
}

#[test]
fn updates_drop_keys_that_become_zero() {
    let mut z = FiniteHashMap::<i64, i64>::new();
    z.update(&7, |v: &mut i64| *v += 3);
    assert_eq!("{7=>3}", z.to_text());
    z.update(&7, |v: &mut i64| *v -= 3);
    assert_eq!(0, z.support_size());
    assert!(z.is_zero());
    z.update(&8, |_v: &mut i64| {});
    assert_eq!(0, z.support_size());
    z.update_owned(9, |v: &mut i64| *v = 5);
    assert_eq!(Some(&5), z.get_in_support(&9));
    assert_eq!(None, z.get_in_support(&8));
    z.increment_owned(9, -5);
    assert_eq!("{}", z.to_text());
}

#[test]
fn zero_singletons_are_empty() {
    let z = FiniteHashMap::<i64, i64>::singleton(3, 0);
    assert_eq!(0, z.support_size());
    assert!(z.is_zero());
    assert_eq!(z, FiniteHashMap::<i64, i64>::default());
}

#[test]
fn repeated_keys_are_added_up() {
    let z = FiniteHashMap::<i64, i64>::from_iter(vec![(1, 2), (2, 5), (1, -2), (3, 1)]);
    assert_eq!("{2=>5,3=>1}", z.to_text());
    let mut keys: Vec<i64> = z.support().into_iter().copied().collect();
    keys.sort();
    assert_eq!(vec![2, 3], keys);
}

#[test]
fn a_map_and_its_inverse_cancel_out() {
    let z = FiniteHashMap::<i64, i64>::from_iter(vec![(1, 2), (2, -5)]);
    let sum = z.add_by_ref(&z.neg_by_ref());
    assert!(sum.is_zero());
    let mut w = FiniteHashMap::<i64, i64>::singleton(1, -2);
    w.add_assign(z.clone());
    assert_eq!("{2=>-5}", w.to_text());
    assert!(z.equals(&z.duplicate()));
    assert!(!z.equals(&w));
}

#[test]
fn maps_of_maps_are_added_inside() {
    let mut z = FiniteHashMap::<i64, FiniteHashMap<i64, i64>>::new();
    z.increment(&1, FiniteHashMap::singleton(10, 1));
    z.increment(&1, FiniteHashMap::singleton(11, 2));
    z.increment(&2, FiniteHashMap::singleton(10, 4));
    assert_eq!(2, z.support_size());
    assert_eq!("{10=>1,11=>2}", z.lookup(&1).to_text());
    z.increment(&2, FiniteHashMap::singleton(10, -4));
    assert_eq!(1, z.support_size());
}

#[test]
fn weights_of_each_integer_type() {
    assert_eq!(0i64, i64::zero());
    assert_eq!(1i32, i32::one());
    assert_eq!(-3isize, 3isize.neg_by_ref());
    assert_eq!(5i32, 2i32.add_by_ref(&3));
    let mut n = 4isize;
    n.add_assign_by_ref(&-6);
    assert_eq!(-2, n);
    assert!(!n.ge0());
    assert!(0i64.ge0() && 0i64.is_zero());
}

use ds_rs::iter::{IntoIter, Iter};

#[test]
fn iter_yields_in_order() {
    let items = [1, 2, 3];
    let mut iter = Iter::new(items.iter().collect());
    assert_eq!(iter.next(), Some(&1));
    assert_eq!(iter.next(), Some(&2));
    assert_eq!(iter.next(), Some(&3));
    assert_eq!(iter.next(), None);
    assert_eq!(iter.next(), None);
    let mut empty: Iter<'_, u8> = Iter::new(Vec::new());
    assert_eq!(empty.next(), None);
}

#[test]
fn into_iter_new_yields_from_the_last_back() {
    let mut iter = IntoIter::new(vec!['c', 'b', 'a']);
    assert_eq!(iter.next(), Some('a'));
    assert_eq!(iter.next(), Some('b'));
    assert_eq!(iter.next(), Some('c'));
    assert_eq!(iter.next(), None);
}

#[test]
fn into_iter_from_vec_yields_from_the_first_on() {
    let mut iter = IntoIter::from_vec(vec!['a', 'b', 'c']);
    assert_eq!(iter.next(), Some('a'));
    assert_eq!(iter.next(), Some('b'));
    assert_eq!(iter.next(), Some('c'));
    assert_eq!(iter.next(), None);
    let mut empty: IntoIter<u8> = IntoIter::from_vec(Vec::new());
    assert_eq!(empty.next(), None);
}

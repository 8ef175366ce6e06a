use v11::joincore::{Join, JoinCore};

#[test]
fn empty_l() {
    // testing {empty_r, empty_both} makes no sense
    let l: Vec<usize> = Vec::new();
    let r: Vec<usize> = vec![1, 2, 3, 4];
    let mut jc = JoinCore::new(l);
    for right in r.iter() {
        let right: &usize = right;
        match jc.join(right, |l: &usize, r: &usize| l.cmp(r)) {
            Join::Stop => continue,
            _ => panic!("expected Stop"),
        }
    }
}

#[test]
fn odd_primes() {
    // The documented usage: which primes are odd numbers of the right side?
    let left = vec![2, 3, 5, 7, 11];
    let mut right = JoinCore::new(vec![1, 3, 4, 5, 7, 9]);
    let mut found = Vec::new();
    for prime in left.iter() {
        match right.join(prime, |l: &i32, r: &i32| l.cmp(r)) {
            Join::Next => continue,
            Join::Stop => break,
            Join::Match(odd) => found.push(odd),
        }
    }
    assert_eq!(found, vec![3, 5, 7]);
}

#[test]
fn cmp_skips_smaller_and_stops_before_greater() {
    let mut jc = JoinCore::new(vec![1u32, 2, 4, 4, 8]);
    assert!(matches!(jc.cmp(&3), Join::Next));
    assert!(matches!(jc.cmp(&4), Join::Match(4)));
    assert!(matches!(jc.cmp(&4), Join::Match(4)));
    assert!(matches!(jc.cmp(&5), Join::Next));
    assert!(matches!(jc.cmp(&9), Join::Stop));
    assert!(matches!(jc.cmp(&1), Join::Stop));
}

#[test]
fn cmp_and_join_by_cmp_agree() {
    let items = vec![1u32, 2, 4, 4, 8, 9];
    let mut by_cmp = JoinCore::new(items.clone());
    let mut by_join = JoinCore::new(items);
    for left in [0u32, 3, 4, 4, 4, 8, 10, 11] {
        let a = by_cmp.cmp(&left);
        let b = by_join.join(&left, |l: &u32, r: &u32| l.cmp(r));
        match (a, b) {
            (Join::Next, Join::Next) | (Join::Stop, Join::Stop) => {}
            (Join::Match(x), Join::Match(y)) => assert_eq!(x, y),
            _ => panic!("the two steps differ at {}", left),
        }
    }
}

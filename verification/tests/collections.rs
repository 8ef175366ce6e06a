use v11::avec::ArrayVec;
use v11::bimap::BiMap;
use v11::columns::{Col, EditA, MutA, RefA, TCol};
use v11::index::GenericRowId;
use v11::storage::{BoolCol, VecCol};

fn bools(bc: &BoolCol) -> Vec<bool> {
    (0..bc.len()).map(|i| *bc.unchecked_index(i)).collect()
}

#[test]
fn bool_col_unit() {
    let mut bc = BoolCol::new();
    for i in &[true, false, true] {
        bc.push(*i);
    }
    assert_eq!(bools(&bc), vec![true, false, true]);
    bc.clear();
    assert_eq!(bc.len(), 0);
    bc.clear();
    assert!(bools(&bc).is_empty());
    bc.push(true);
    bc.push(false);
    assert_eq!(bc.unchecked_index(0), &true);
    assert_eq!(bc.unchecked_index(1), &false);
}

#[test]
fn simple() {
    let mut bc = BoolCol::new();
    bc.push(true);
    assert_eq!(bc.unchecked_index(0), &true);
    let mut bc = BoolCol::new();
    bc.push(false);
    assert_eq!(bc.unchecked_index(0), &false);
}

#[test]
fn bool_col_editing() {
    let mut bc = BoolCol::default();
    for i in 0..70 {
        bc.push(i % 3 == 0);
    }
    *bc.unchecked_index_mut(1) = true;
    assert_eq!(bc.unchecked_index(1), &true);
    assert_eq!(bc.unchecked_index(2), &false);
    let mut x = false;
    bc.unchecked_swap_out(0, &mut x);
    assert!(x);
    assert_eq!(bc.checked_index(0), &false);
    bc.unchecked_swap(1, 2);
    assert_eq!(bools(&bc)[..4].to_vec(), vec![false, false, true, true]);
    bc.truncate(3);
    assert_eq!(bools(&bc), vec![false, false, true]);
    bc.reserve(5);
    bc.deleted(0);
    assert_eq!(bc.len(), 3);
}

#[test]
fn vec_col() {
    let mut c: VecCol<u32> = VecCol::new();
    c.push(5);
    c.push(6);
    c.push(7);
    c.unchecked_swap(0, 2);
    assert_eq!(*c.unchecked_index(0), 7);
    *c.unchecked_index_mut(1) = 60;
    assert_eq!(*c.checked_index(1), 60);
    c.truncate(10);
    assert_eq!(c.len(), 3);
    c.truncate(1);
    assert_eq!(c.len(), 1);
}

struct Ships;

#[test]
fn columns_by_row_id() {
    let mut col: Col<VecCol<&'static str>, Ships> = Col::new();
    col.inner_mut().push("Titanic");
    col.inner_mut().push("Lusitania");
    assert_eq!(*col.index(GenericRowId::new(1)), "Lusitania");
    *col.index_mut(GenericRowId::new(0)) = "Boaty";
    assert_eq!(*col.index(GenericRowId::new(0)), "Boaty");
    assert_eq!(col.inner().len(), 2);
    let r = RefA::new(&col);
    assert_eq!(r.deref().inner().len(), 2);
    let mut m = MutA::new(&mut col);
    m.deref_mut().inner_mut().push("Mont-Blanc");
    let mut e = EditA::new(&mut col);
    assert_eq!(e.deref().inner().len(), 3);
    e.deref_mut().inner_mut().clear();
    assert_eq!(col.inner().len(), 0);
}

#[test]
fn array_vec() {
    let mut v: ArrayVec<u32> = ArrayVec::new(2);
    for i in 0..10 {
        v.push(i * 10);
    }
    assert_eq!(v.len(), 10);
    assert_eq!(v.index(5), (1, 1));
    assert_eq!(v.index(9), (2, 1));
    assert_eq!(*v.get(7), 70);
    v.set(7, 77);
    assert_eq!(*v.get(7), 77);
    *v.get_mut(0) = 1;
    let mut it = v.iter();
    let mut seen = Vec::new();
    while let Some(x) = it.next() {
        seen.push(*x);
    }
    assert_eq!(seen, vec![1, 10, 20, 30, 40, 50, 60, 77, 80, 90]);
}

#[test]
fn bimap() {
    let mut m: BiMap<u32, char> = BiMap::new();
    m.insert(1, 'a');
    m.insert(2, 'b');
    assert_eq!(m.get_forward(&1), Some(&'a'));
    assert_eq!(m.get_reverse(&'b'), Some(&2));
    assert_eq!(m.get_forward(&3), None);
    let mut keys: Vec<u32> = m.keys().cloned().collect();
    keys.sort();
    assert_eq!(keys, vec![1, 2]);
    assert_eq!(m.iter().count(), 2);
    m.insert(1, 'c');
    assert_eq!(m.get_forward(&1), Some(&'c'));
    assert_eq!(m.get_reverse(&'a'), Some(&1));
    m.clear();
    assert_eq!(m.get_forward(&2), None);
    let d: BiMap<u8, u8> = BiMap::default();
    assert_eq!(d.get_forward(&0), None);
}

use v11::columns::TCol;
use v11::map_index::BTreeIndex;
use v11::storage::VecCol;

#[derive(Debug, Copy, Clone, PartialOrd, Ord, PartialEq, Eq, Hash)]
pub enum TreeType {
    Apple,
    Orange,
    Melon,
}

struct Orchard;

fn rows(found: Vec<v11::index::GenericRowId<Orchard>>) -> Vec<usize> {
    found.iter().map(|r| r.i).collect()
}

fn orchard() -> BTreeIndex<VecCol<TreeType>, Orchard> {
    let mut col: BTreeIndex<VecCol<TreeType>, Orchard> = TCol::new();
    col.push(TreeType::Orange);
    col.push(TreeType::Apple);
    col.push(TreeType::Apple);
    col
}

#[test]
fn indexing() {
    let col = orchard();
    assert_eq!(col.len(), 3);
    assert_eq!(rows(col.find(TreeType::Orange)), vec![0]);
    assert_eq!(rows(col.find(TreeType::Apple)), vec![1, 2]);
    assert_eq!(rows(col.find(TreeType::Melon)), Vec::<usize>::new());
}

#[test]
fn swapping_keeps_the_index() {
    let mut col = orchard();
    col.unchecked_swap(0, 2);
    assert_eq!(*col.unchecked_index(0), TreeType::Apple);
    assert_eq!(rows(col.find(TreeType::Orange)), vec![2]);
    assert_eq!(rows(col.find(TreeType::Apple)), vec![0, 1]);
    let mut melon = TreeType::Melon;
    col.unchecked_swap_out(1, &mut melon);
    assert_eq!(melon, TreeType::Apple);
    assert_eq!(rows(col.find(TreeType::Melon)), vec![1]);
    assert_eq!(rows(col.find(TreeType::Apple)), vec![0]);
}

#[test]
fn deleted_and_truncated_rows_are_not_found() {
    let mut col = orchard();
    col.deleted(1);
    assert_eq!(col.len(), 3);
    assert_eq!(rows(col.find(TreeType::Apple)), vec![2]);
    col.push(TreeType::Apple);
    col.truncate(3);
    assert_eq!(col.len(), 3);
    assert_eq!(rows(col.find(TreeType::Apple)), vec![2]);
    col.truncate(1);
    assert_eq!(rows(col.find(TreeType::Apple)), Vec::<usize>::new());
    assert_eq!(rows(col.find(TreeType::Orange)), vec![0]);
    col.clear();
    assert_eq!(col.len(), 0);
    assert_eq!(rows(col.find(TreeType::Orange)), Vec::<usize>::new());
}

#[test]
fn reading_an_indexed_column() {
    let mut col = orchard();
    col.reserve(10);
    assert_eq!(*col.checked_index(1), TreeType::Apple);
    assert_eq!(*col.unchecked_index(0), TreeType::Orange);
}

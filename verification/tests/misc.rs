use std::sync::{LockResult, PoisonError, TryLockError, TryLockResult};

use v11::any_slice::AnySliceRef;
use v11::assert_sorted::AssertSorted;
use v11::de_help::{next, FieldError, Hole};
use v11::event::{self, EventHandlers, FallbackHandler, NullHandler, PanickingHandler, MAX_EVENT_TYPES};
use v11::index::GenericRowId;
use v11::intern::{check_name, name_error, map_result, map_try_result, BiRef, MaybeBorrow, NameError, VoidIter};
use v11::macro_table::{Table, TableKind};
use v11::tables::Guarantee;

#[test]
fn names() {
    assert_eq!(name_error("ships"), None);
    assert_eq!(name_error("Ship_2"), None);
    check_name("ships");
    check_name("Ship_2");
    assert_eq!(name_error(""), Some(NameError::Empty));
    assert_eq!(name_error("_ships"), Some(NameError::Reserved));
    assert_eq!(name_error("123"), Some(NameError::Invalid));
    assert_eq!(name_error("a-b"), Some(NameError::Invalid));
    assert_eq!(name_error("caf\u{e9}"), Some(NameError::Invalid));
}

#[test]
fn events_and_default_handlers() {
    assert_eq!(event::create().name(), Some("CREATE"));
    assert_eq!(event::delete().name(), Some("DELETE"));
    assert_eq!(event::clone().name(), Some("CLONE"));
    assert_eq!(event::event_list().len(), 18);
    let h: EventHandlers<()> = EventHandlers::new();
    assert_eq!(h.fallbacks.len(), MAX_EVENT_TYPES);
    assert!(matches!(h.get(event::delete()), FallbackHandler::Null(_)));
    assert!(matches!(h.get(event::create()), FallbackHandler::Null(_)));
    assert!(matches!(h.get(event::update()), FallbackHandler::Null(_)));
    let mut h: EventHandlers<()> = EventHandlers::default();
    let old = h.add(event::update(), FallbackHandler::Panicking(PanickingHandler));
    assert!(matches!(old, FallbackHandler::Null(_)));
    assert!(matches!(h.get(event::update()), FallbackHandler::Panicking(_)));
    let old = h.add(event::update(), FallbackHandler::Null(NullHandler));
    assert!(matches!(old, FallbackHandler::Panicking(_)));
    assert!(matches!(h.get(event::update()), FallbackHandler::Null(_)));
    assert!(!PanickingHandler.needs_sort(Guarantee::default()));
}

#[test]
fn holes() {
    let mut h: Hole<u32> = Hole::new("count");
    assert_eq!(h.fill::<()>(Ok(3)).is_ok(), true);
    assert!(matches!(h.fill::<()>(Ok(4)), Err(FieldError::Duplicate("count"))));
    assert!(matches!(h.fill(Err("bad")), Err(FieldError::Read("bad"))));
    assert_eq!(Hole::<u32>::new("count").take::<()>().err().map(|e| matches!(e, FieldError::Missing("count"))), Some(true));
    let h2 = Hole::val("count", 9u32);
    assert_eq!(h2.take::<()>().ok(), Some(9));
    let mut h3: Hole<u32> = Hole::new("x");
    assert!(h3.from::<()>(Ok(Some(5))).is_ok());
    assert_eq!(h3.val, Some(5));
    let expected = h3.expect_start::<()>().ok().unwrap();
    assert!(Hole::<u32>::expect_finish::<()>(expected, Ok(5)).is_ok());
    assert!(matches!(Hole::<u32>::expect_finish::<()>(expected, Ok(6)), Err(FieldError::WrongValue)));
    assert!(matches!(h3.expect_start::<()>(), Err(FieldError::Duplicate("x"))));
    assert!(Hole::<u32>::new("y").expected::<()>().is_ok());
    assert!(matches!(Hole::val("y", 1u32).expected::<()>(), Err(FieldError::Missing("y"))));
    assert!(matches!(next::<u32, ()>(Ok(None), "z"), Err(FieldError::Missing("z"))));
    assert_eq!(next::<u32, ()>(Ok(Some(2)), "z").ok(), Some(2));
}

#[test]
fn lock_results() {
    let ok: LockResult<u32> = Ok(2);
    assert_eq!(map_result(ok, |x| x * 10).ok(), Some(20));
    let poisoned: LockResult<u32> = Err(PoisonError::new(3));
    match map_result(poisoned, |x| x + 1) {
        Err(p) => assert_eq!(p.into_inner(), 4),
        Ok(_) => panic!("should stay poisoned"),
    }
    let blocked: TryLockResult<u32> = Err(TryLockError::WouldBlock);
    assert!(matches!(map_try_result(blocked, |x| x + 1), Err(TryLockError::WouldBlock)));
    let poisoned: TryLockResult<u32> = Err(TryLockError::Poisoned(PoisonError::new(1)));
    match map_try_result(poisoned, |x| x + 1) {
        Err(TryLockError::Poisoned(p)) => assert_eq!(p.into_inner(), 2),
        _ => panic!("should stay poisoned"),
    }
    let fine: TryLockResult<u32> = Ok(5);
    assert_eq!(map_try_result(fine, |x| x + 1).ok(), Some(6));
}

#[test]
fn small_wrappers() {
    let mut owned = MaybeBorrow::Owned(4u8);
    assert!(owned.is_owned());
    assert_eq!(*owned.deref(), 4);
    let mut x = 7u8;
    let b = MaybeBorrow::Borrow(&mut x);
    assert!(!b.is_owned() && !b.is_missing());
    assert_eq!(*b.deref(), 7);
    let n: MaybeBorrow<u8> = MaybeBorrow::Nothing;
    assert!(n.is_missing());
    owned = MaybeBorrow::Nothing;
    assert!(owned.is_missing());
    let mut v = VoidIter::<u8>(0);
    assert!(v.next().is_none());
    let s = [1u16, 2, 3];
    let a = AnySliceRef::from(&s[..]);
    assert_eq!(a.len(), 3);
    assert!(!a.is_empty());
    assert_eq!(a.element_typeid(), std::any::TypeId::of::<u16>());
    struct R;
    let sorted = AssertSorted::from(vec![GenericRowId::<R>::new(3), GenericRowId::new(1), GenericRowId::new(2)]);
    let v: Vec<usize> = sorted.into_iter().iter().map(|r| r.i).collect();
    assert_eq!(v, vec![1, 2, 3]);
}

#[test]
fn table_descriptions() {
    let mut t = Table::new();
    assert_eq!(t.row_id, b"usize".to_vec());
    assert_eq!(t.validate(), Some("No domain"));
    t.domain = b"D".to_vec();
    assert_eq!(t.validate(), Some("No name"));
    t.name = b"t".to_vec();
    assert_eq!(t.validate(), Some("No columns"));
    t.set_kind(TableKind::Consistent);
    assert!(t.consistent && !t.secret);
    assert!(t.check_guarantees());
    t.save = true;
    assert!(!t.check_guarantees());
    t.derive.clone = true;
    assert!(t.check_guarantees());
    let mut l = Table::new();
    l.set_kind(TableKind::List);
    assert!(l.secret);
    let mut s = Table::new();
    s.set_kind(TableKind::Sorted);
    assert!(s.sorted);
}

#[test]
fn two_kinds_of_reference() {
    let l: BiRef<Box<u8>, std::rc::Rc<u8>> = BiRef::Left(Box::new(3));
    let r: BiRef<Box<u8>, std::rc::Rc<u8>> = BiRef::Right(std::rc::Rc::new(4));
    assert_eq!(*l.deref(), 3);
    assert_eq!(*r.deref(), 4);
}

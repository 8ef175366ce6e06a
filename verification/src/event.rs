//! Events: the verbs that table changes are announced with, and the fallback
//! handlers that act on an event when no tracker does.

use vstd::prelude::*;
use crate::tables::Guarantee;
use crate::tracking::{SelectAny, SelectOwned};
use crate::{Schema, Universe};

verus! {

/// A kind of table event.
#[derive(Debug, Clone, Copy, PartialEq, Eq, Structural)]
pub struct Event {
    /// A unique id. Used as an index for fallback handlers.
    pub id: u16,
    pub is_removal: bool,
    pub is_creation: bool,
}

/// Makes an event value.
pub open spec fn mk_event(id: u16, is_removal: bool, is_creation: bool) -> Event {
    Event { id, is_removal, is_creation }
}

pub fn invalid_event() -> (e: Event)
    ensures
        e == spec_event_list(0),
{
    Event { id: 0, is_removal: false, is_creation: false }
}

pub fn create() -> (e: Event)
    ensures
        e == spec_event_list(1),
{
    Event { id: 1, is_removal: false, is_creation: true }
}

pub fn delete() -> (e: Event)
    ensures
        e == spec_event_list(2),
{
    Event { id: 2, is_removal: true, is_creation: false }
}

pub fn serialize() -> (e: Event)
    ensures
        e == spec_event_list(3),
{
    Event { id: 3, is_removal: false, is_creation: false }
}

pub fn deserialize() -> (e: Event)
    ensures
        e == spec_event_list(4),
{
    Event { id: 4, is_removal: false, is_creation: true }
}

pub fn save() -> (e: Event)
    ensures
        e == spec_event_list(5),
{
    Event { id: 5, is_removal: false, is_creation: false }
}

pub fn unload() -> (e: Event)
    ensures
        e == spec_event_list(6),
{
    Event { id: 6, is_removal: true, is_creation: false }
}

pub fn synced() -> (e: Event)
    ensures
        e == spec_event_list(7),
{
    Event { id: 7, is_removal: false, is_creation: true }
}

pub fn unsynced() -> (e: Event)
    ensures
        e == spec_event_list(8),
{
    Event { id: 8, is_removal: true, is_creation: false }
}

pub fn move_in() -> (e: Event)
    ensures
        e == spec_event_list(9),
{
    Event { id: 9, is_removal: false, is_creation: true }
}

pub fn move_out() -> (e: Event)
    ensures
        e == spec_event_list(10),
{
    Event { id: 10, is_removal: true, is_creation: false }
}

pub fn update() -> (e: Event)
    ensures
        e == spec_event_list(11),
{
    Event { id: 11, is_removal: false, is_creation: false }
}

pub fn modify() -> (e: Event)
    ensures
        e == spec_event_list(12),
{
    Event { id: 12, is_removal: false, is_creation: false }
}

pub fn dirty() -> (e: Event)
    ensures
        e == spec_event_list(13),
{
    Event { id: 13, is_removal: false, is_creation: false }
}

pub fn reset() -> (e: Event)
    ensures
        e == spec_event_list(14),
{
    Event { id: 14, is_removal: false, is_creation: false }
}

pub fn view() -> (e: Event)
    ensures
        e == spec_event_list(15),
{
    Event { id: 15, is_removal: false, is_creation: false }
}

pub fn debug() -> (e: Event)
    ensures
        e == spec_event_list(16),
{
    Event { id: 16, is_removal: false, is_creation: false }
}

pub fn clone() -> (e: Event)
    ensures
        e == spec_event_list(17),
{
    Event { id: 17, is_removal: false, is_creation: false }
}


/// The number of predefined events (`INVALID_EVENT` through `CLONE`).
pub const EVENT_COUNT: usize = 18;

/// Maximum number of event kinds.
pub const MAX_EVENT_TYPES: usize = 32;

/// The predefined event with the given id.
pub open spec fn spec_event_list(i: int) -> Event {
    if i == 1 {
        mk_event(1, false, true)
    } else if i == 2 {
        mk_event(2, true, false)
    } else if i == 3 {
        mk_event(3, false, false)
    } else if i == 4 {
        mk_event(4, false, true)
    } else if i == 5 {
        mk_event(5, false, false)
    } else if i == 6 {
        mk_event(6, true, false)
    } else if i == 7 {
        mk_event(7, false, true)
    } else if i == 8 {
        mk_event(8, true, false)
    } else if i == 9 {
        mk_event(9, false, true)
    } else if i == 10 {
        mk_event(10, true, false)
    } else if i == 11 {
        mk_event(11, false, false)
    } else if i == 12 {
        mk_event(12, false, false)
    } else if i == 13 {
        mk_event(13, false, false)
    } else if i == 14 {
        mk_event(14, false, false)
    } else if i == 15 {
        mk_event(15, false, false)
    } else if i == 16 {
        mk_event(16, false, false)
    } else if i == 17 {
        mk_event(17, false, false)
    } else {
        mk_event(0, false, false)
    }
}

/// The predefined events, in order of id.
pub fn event_list() -> (r: Vec<Event>)
    ensures
        r@.len() == EVENT_COUNT,
        forall|i: int| 0 <= i < EVENT_COUNT ==> #[trigger] r@[i] == spec_event_list(i),
{
    vec![
        invalid_event(),
        create(),
        delete(),
        serialize(),
        deserialize(),
        save(),
        unload(),
        synced(),
        unsynced(),
        move_in(),
        move_out(),
        update(),
        modify(),
        dirty(),
        reset(),
        view(),
        debug(),
        clone(),
    ]
}

/// The name of the predefined event with id `id`.
pub open spec fn event_name(id: u16) -> Option<&'static str> {
    match id {
        0 => Some("INVALID_EVENT"),
        1 => Some("CREATE"),
        2 => Some("DELETE"),
        3 => Some("SERIALIZE"),
        4 => Some("DESERIALIZE"),
        5 => Some("SAVE"),
        6 => Some("UNLOAD"),
        7 => Some("SYNCED"),
        8 => Some("UNSYNCED"),
        9 => Some("MOVE_IN"),
        10 => Some("MOVE_OUT"),
        11 => Some("UPDATE"),
        12 => Some("MODIFY"),
        13 => Some("DIRTY"),
        14 => Some("RESET"),
        15 => Some("VIEW"),
        16 => Some("DEBUG"),
        17 => Some("CLONE"),
        _ => None,
    }
}

impl Event {
    /// The name of a predefined event, or `None` for a custom one.
    pub fn name(&self) -> (r: Option<&'static str>)
        ensures
            r == event_name(self.id),
            r is Some <==> self.id < EVENT_COUNT,
    {
        match self.id {
            0 => Some("INVALID_EVENT"),
            1 => Some("CREATE"),
            2 => Some("DELETE"),
            3 => Some("SERIALIZE"),
            4 => Some("DESERIALIZE"),
            5 => Some("SAVE"),
            6 => Some("UNLOAD"),
            7 => Some("SYNCED"),
            8 => Some("UNSYNCED"),
            9 => Some("MOVE_IN"),
            10 => Some("MOVE_OUT"),
            11 => Some("UPDATE"),
            12 => Some("MODIFY"),
            13 => Some("DIRTY"),
            14 => Some("RESET"),
            15 => Some("VIEW"),
            16 => Some("DEBUG"),
            17 => Some("CLONE"),
            _ => None,
        }
    }
}

/// Acts on the rows named by an event that no tracker handled. Implemented by
/// custom handlers.
pub trait Function {
    /// Whether the rows must be sorted before they are handed over, given the
    /// guarantees of their table.
    spec fn sorting_needed(&self, guarantee: Guarantee) -> bool;

    /// Whether the rows must be sorted before being handed to this function,
    /// given the guarantees of their table.
    fn needs_sort(&self, guarantee: Guarantee) -> (r: bool)
        ensures
            r == self.sorting_needed(guarantee),
    ;

    /// Acts on the rows.
    fn handle<S: Schema>(&self, universe: &Universe<S>, event: Event, rows: SelectAny);
}

/// Removes rows from a table: implemented by the tables.
pub trait RowRemover {
    /// Removes the rows.
    fn remove_rows<S: Schema>(&self, universe: &Universe<S>, event: Event, rows: SelectAny);
}

/// Does nothing.
pub struct NullHandler;

/// Deletes the rows.
pub struct DeleteHandler;

/// Refuses the event: no handler was specified for it.
pub struct PanickingHandler;

impl NullHandler {
    pub fn needs_sort(&self, guarantee: Guarantee) -> (r: bool)
        ensures
            !r,
    {
        false
    }
}

impl DeleteHandler {
    /// Deletion wants sorted rows when the table keeps its rows sorted.
    pub fn needs_sort(&self, guarantee: Guarantee) -> (r: bool)
        ensures
            r == guarantee.sorted,
    {
        guarantee.sorted
    }
}

impl PanickingHandler {
    pub fn needs_sort(&self, guarantee: Guarantee) -> (r: bool)
        ensures
            !r,
    {
        false
    }
}

/// A fallback handler: one of the built-in ones or a custom one.
pub enum FallbackHandler<F> {
    Null(NullHandler),
    Delete(DeleteHandler),
    Panicking(PanickingHandler),
    Custom(F),
}

/// The kind of a handler: 0 null, 1 delete, 2 panicking, 3 custom.
pub open spec fn handler_kind<F>(h: FallbackHandler<F>) -> int {
    match h {
        FallbackHandler::Null(_) => 0,
        FallbackHandler::Delete(_) => 1,
        FallbackHandler::Panicking(_) => 2,
        FallbackHandler::Custom(_) => 3,
    }
}

/// The fallback handler of each event kind, by event id.
pub struct EventHandlers<F> {
    pub fallbacks: Vec<FallbackHandler<F>>,
}

impl<F> Default for EventHandlers<F> {
    /// The default handlers (see `new`).
    fn default() -> (r: Self)
        ensures
            r.wf(),
            forall|i: int| 0 <= i < MAX_EVENT_TYPES ==> handler_kind(#[trigger] r.fallbacks@[i]) == 0,
    {
        Self::new()
    }
}

impl<F> EventHandlers<F> {
    /// The handlers' invariant: one per event kind.
    pub open spec fn wf(&self) -> bool {
        self.fallbacks@.len() == MAX_EVENT_TYPES
    }

    /// The default handlers: no event has a registered handler yet, so each of the
    /// `MAX_EVENT_TYPES` ids gets the null handler, which does nothing.
    pub fn new() -> (r: Self)
        ensures
            r.wf(),
            forall|i: int| 0 <= i < MAX_EVENT_TYPES ==> handler_kind(#[trigger] r.fallbacks@[i]) == 0,
    {
        let mut fallbacks: Vec<FallbackHandler<F>> = Vec::new();
        let mut i: usize = 0;
        while i < MAX_EVENT_TYPES
            invariant
                0 <= i <= MAX_EVENT_TYPES,
                fallbacks@.len() == i,
                forall|k: int| 0 <= k < i ==> handler_kind(#[trigger] fallbacks@[k]) == 0,
            decreases MAX_EVENT_TYPES - i,
        {
            fallbacks.push(FallbackHandler::Null(NullHandler));
            i = i + 1;
        }
        EventHandlers { fallbacks }
    }

    /// Replaces the handler of `event`, returning the one it had.
    pub fn add(&mut self, event: Event, handler: FallbackHandler<F>) -> (r: FallbackHandler<F>)
        requires
            old(self).wf(),
            event != spec_event_list(0),
            (event.id as int) < MAX_EVENT_TYPES,
        ensures
            final(self).wf(),
            r == old(self).fallbacks@[event.id as int],
            final(self).fallbacks@ == old(self).fallbacks@.update(event.id as int, handler),
    {
        let i = event.id as usize;
        let old_h = self.fallbacks.remove(i);
        self.fallbacks.insert(i, handler);
        proof {
            assert(self.fallbacks@ =~= old(self).fallbacks@.update(event.id as int, handler));
        }
        old_h
    }

    /// The handler of `event`: the one last registered for it with `add`, or the null
    /// handler where none was.
    pub fn get(&self, event: Event) -> (r: &FallbackHandler<F>)
        requires
            self.wf(),
            (event.id as int) < MAX_EVENT_TYPES,
        ensures
            *r == self.fallbacks@[event.id as int],
    {
        &self.fallbacks[event.id as usize]
    }
}

/// Whether the handler `h` wants the rows of a table with guarantee `g` sorted.
pub open spec fn handler_needs_sort<F: Function>(h: FallbackHandler<F>, g: Guarantee) -> bool {
    match h {
        FallbackHandler::Null(_) => false,
        FallbackHandler::Delete(_) => g.sorted,
        FallbackHandler::Panicking(_) => false,
        FallbackHandler::Custom(f) => f.sorting_needed(g),
    }
}

impl<F: Function> FallbackHandler<F> {
    /// Whether the handler needs sorted rows.
    pub fn needs_sort(&self, guarantee: Guarantee) -> (r: bool)
        ensures
            r == handler_needs_sort(*self, guarantee),
    {
        match self {
            FallbackHandler::Null(h) => h.needs_sort(guarantee),
            FallbackHandler::Delete(h) => h.needs_sort(guarantee),
            FallbackHandler::Panicking(h) => h.needs_sort(guarantee),
            FallbackHandler::Custom(f) => f.needs_sort(guarantee),
        }
    }

    /// Acts on the rows: nothing for the null handler, deletion through `table`
    /// for the delete handler, the custom function for a custom one. The
    /// panicking handler refuses every event, so it is not to be run.
    pub fn handle<S: Schema, R: RowRemover>(&self, universe: &Universe<S>, table: &R, event: Event, rows: SelectAny)
        requires
            handler_kind(*self) != 2,
    {
        match self {
            FallbackHandler::Null(_) => {},
            FallbackHandler::Delete(_) => table.remove_rows(universe, event, rows),
            FallbackHandler::Panicking(_) => vstd::pervasive::unreached(),
            FallbackHandler::Custom(f) => f.handle(universe, event, rows),
        }
    }
}

impl<F: Function> FallbackHandler<F> {
    /// Hands `rows` to the handler, sorted first if the handler needs it for a
    /// table with guarantee `guarantee`.
    pub fn run<S: Schema, R: RowRemover, T: 'static>(
        &self,
        universe: &Universe<S>,
        table: &R,
        guarantee: Guarantee,
        event: Event,
        rows: SelectOwned<T>,
    )
        requires
            handler_kind(*self) != 2,
    {
        let mut rows = rows;
        if self.needs_sort(guarantee) {
            rows.sort();
        }
        self.handle(universe, table, event, rows.as_slice().as_any());
    }
}

} // verus!

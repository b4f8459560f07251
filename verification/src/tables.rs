//! The mathematical model of the storage: three tables of rows, and what each
//! statement does to them.
//!
//! A table is a sequence of rows in the order of their keys, which is also the
//! order in which they were inserted: a new row gets the key after the last
//! one and goes to the end. Nothing here is executable; `crate::store` holds
//! the tables in memory and is proved against this model.

use vstd::prelude::*;
use crate::models::{DeviceView, HouseView, Keyed, RoomView};
use crate::statement::{
    device_changed, except, house_named, room_named, DeviceChangeView, DeviceFilterView,
    HouseFilterView, OutcomeView, RoomFilterView, StatementView, StorageError,
};

verus! {

/// The rows stand in strictly ascending order of their keys; so no key occurs twice.
pub open spec fn ascending<R: Keyed>(rows: Seq<R>) -> bool {
    forall|i: int, j: int|
        0 <= i < j < rows.len() ==> (#[trigger] rows[i]).key() < (#[trigger] rows[j]).key()
}

/// The key that the next inserted row gets: 1 in an empty table, else the
/// successor of the last key.
pub open spec fn next_key<R: Keyed>(rows: Seq<R>) -> int {
    if rows.len() == 0 {
        1
    } else {
        rows.last().key() + 1
    }
}

/// Whether some row has this key.
pub open spec fn has_key<R: Keyed>(rows: Seq<R>, key: int) -> bool {
    exists|i: int| 0 <= i < rows.len() && (#[trigger] rows[i]).key() == key
}

/// The first of some rows, if there is any.
pub open spec fn first<R>(rows: Seq<R>) -> Option<R> {
    if rows.len() == 0 {
        None
    } else {
        Some(rows[0])
    }
}

/// The rows changed where a predicate holds of them, else as they are.
pub open spec fn updated<V>(admits: spec_fn(V) -> bool, change: spec_fn(V) -> V) -> spec_fn(
    V,
) -> V {
    |row: V|
        if admits(row) {
            change(row)
        } else {
            row
        }
}

/// The three tables.
pub struct Tables {
    pub houses: Seq<HouseView>,
    pub rooms: Seq<RoomView>,
    pub devices: Seq<DeviceView>,
}

/// The tables after a statement, and the statement's answer.
pub type Effect = (Tables, Result<OutcomeView, StorageError>);

impl Tables {
    /// Three tables without rows.
    pub open spec fn empty() -> Tables {
        Tables { houses: Seq::empty(), rooms: Seq::empty(), devices: Seq::empty() }
    }

    /// The invariant of the storage: each table is in ascending order of its keys.
    pub open spec fn wf(self) -> bool {
        &&& ascending(self.houses)
        &&& ascending(self.rooms)
        &&& ascending(self.devices)
    }

    /// Whether the device with this key is stored in this room.
    pub open spec fn has_device_at(self, room: i32, id: i32) -> bool {
        exists|i: int|
            0 <= i < self.devices.len() && (#[trigger] self.devices[i]).id == id
                && self.devices[i].room == room
    }

    /// The houses that a filter admits, in the order of the table.
    pub open spec fn houses_where(self, filter: HouseFilterView) -> Seq<HouseView> {
        self.houses.filter(filter.pred())
    }

    /// The rooms that a filter admits, in the order of the table.
    pub open spec fn rooms_where(self, filter: RoomFilterView) -> Seq<RoomView> {
        self.rooms.filter(filter.pred())
    }

    /// The devices that a filter admits, in the order of the table.
    pub open spec fn devices_where(self, filter: DeviceFilterView) -> Seq<DeviceView> {
        self.devices.filter(filter.pred())
    }

    /// The house that is stored next under this name: its key is the one
    /// after the last.
    pub open spec fn new_house(self, name: Seq<char>) -> HouseView {
        HouseView { id: next_key(self.houses) as i32, name }
    }

    /// The room that is stored next under this name in this house.
    pub open spec fn new_room(self, house: i32, name: Seq<char>) -> RoomView {
        RoomView { id: next_key(self.rooms) as i32, house, name }
    }

    /// The device that is stored next in this room.
    pub open spec fn new_device(
        self,
        room: i32,
        name: Seq<char>,
        device_type: Seq<char>,
        state: bool,
    ) -> DeviceView {
        DeviceView { id: next_key(self.devices) as i32, room, name, device_type, state }
    }

    /// The tables with one more house of this name.
    pub open spec fn with_house(self, name: Seq<char>) -> Tables {
        Tables { houses: self.houses.push(self.new_house(name)), ..self }
    }

    /// The tables with one more room of this name in this house.
    pub open spec fn with_room(self, house: i32, name: Seq<char>) -> Tables {
        Tables { rooms: self.rooms.push(self.new_room(house, name)), ..self }
    }

    /// The tables with one more device in this room.
    pub open spec fn with_device(
        self,
        room: i32,
        name: Seq<char>,
        device_type: Seq<char>,
        state: bool,
    ) -> Tables {
        Tables {
            devices: self.devices.push(self.new_device(room, name, device_type, state)),
            ..self
        }
    }

    /// The tables with a new name for the houses that the filter admits.
    pub open spec fn with_houses_renamed(self, filter: HouseFilterView, name: Seq<char>) -> Tables {
        Tables { houses: self.houses.map_values(updated(filter.pred(), house_named(name))), ..self }
    }

    /// The tables with a new name for the rooms that the filter admits.
    pub open spec fn with_rooms_renamed(self, filter: RoomFilterView, name: Seq<char>) -> Tables {
        Tables { rooms: self.rooms.map_values(updated(filter.pred(), room_named(name))), ..self }
    }

    /// The tables with the changed columns in the devices that the filter admits.
    pub open spec fn with_devices_updated(
        self,
        filter: DeviceFilterView,
        change: DeviceChangeView,
    ) -> Tables {
        Tables {
            devices: self.devices.map_values(updated(filter.pred(), device_changed(change))),
            ..self
        }
    }

    /// The tables without the houses that the filter admits.
    pub open spec fn without_houses(self, filter: HouseFilterView) -> Tables {
        Tables { houses: self.houses.filter(except(filter.pred())), ..self }
    }

    /// The tables without the rooms that the filter admits.
    pub open spec fn without_rooms(self, filter: RoomFilterView) -> Tables {
        Tables { rooms: self.rooms.filter(except(filter.pred())), ..self }
    }

    /// The tables without the devices that the filter admits.
    pub open spec fn without_devices(self, filter: DeviceFilterView) -> Tables {
        Tables { devices: self.devices.filter(except(filter.pred())), ..self }
    }

    /// What a statement does to the tables and what it answers.
    ///
    /// A load answers with the admitted rows and a fetch with the first of
    /// them, or `NotFound`. An insert fails with `KeysExhausted` when the key
    /// after the last one does not fit; else it appends the row under the
    /// next key and answers with that row. It does not ask whether the parent
    /// that the row names is stored. An update or a delete answers with the
    /// number of rows that its filter admits. A statement that fails leaves
    /// the tables as they were.
    pub open spec fn apply(self, statement: StatementView) -> Effect {
        match statement {
            StatementView::LoadHouses(filter) => (
                self,
                Ok(OutcomeView::Houses(self.houses_where(filter))),
            ),
            StatementView::FirstHouse(filter) => (
                self,
                match first(self.houses_where(filter)) {
                    Some(row) => Ok(OutcomeView::House(row)),
                    None => Err(StorageError::NotFound),
                },
            ),
            StatementView::InsertHouse { name } => {
                if next_key(self.houses) > i32::MAX {
                    (self, Err(StorageError::KeysExhausted))
                } else {
                    (self.with_house(name), Ok(OutcomeView::House(self.new_house(name))))
                }
            },
            StatementView::RenameHouses(filter, name) => (
                self.with_houses_renamed(filter, name),
                Ok(OutcomeView::Changed(self.houses_where(filter).len())),
            ),
            StatementView::DeleteHouses(filter) => (
                self.without_houses(filter),
                Ok(OutcomeView::Changed(self.houses_where(filter).len())),
            ),
            StatementView::LoadRooms(filter) => (
                self,
                Ok(OutcomeView::Rooms(self.rooms_where(filter))),
            ),
            StatementView::FirstRoom(filter) => (
                self,
                match first(self.rooms_where(filter)) {
                    Some(row) => Ok(OutcomeView::Room(row)),
                    None => Err(StorageError::NotFound),
                },
            ),
            StatementView::InsertRoom { house, name } => {
                if next_key(self.rooms) > i32::MAX {
                    (self, Err(StorageError::KeysExhausted))
                } else {
                    (
                        self.with_room(house, name),
                        Ok(OutcomeView::Room(self.new_room(house, name))),
                    )
                }
            },
            StatementView::RenameRooms(filter, name) => (
                self.with_rooms_renamed(filter, name),
                Ok(OutcomeView::Changed(self.rooms_where(filter).len())),
            ),
            StatementView::DeleteRooms(filter) => (
                self.without_rooms(filter),
                Ok(OutcomeView::Changed(self.rooms_where(filter).len())),
            ),
            StatementView::LoadDevices(filter) => (
                self,
                Ok(OutcomeView::Devices(self.devices_where(filter))),
            ),
            StatementView::FirstDevice(filter) => (
                self,
                match first(self.devices_where(filter)) {
                    Some(row) => Ok(OutcomeView::Device(row)),
                    None => Err(StorageError::NotFound),
                },
            ),
            StatementView::InsertDevice { room, name, device_type, state } => {
                if next_key(self.devices) > i32::MAX {
                    (self, Err(StorageError::KeysExhausted))
                } else {
                    (
                        self.with_device(room, name, device_type, state),
                        Ok(OutcomeView::Device(self.new_device(room, name, device_type, state))),
                    )
                }
            },
            StatementView::UpdateDevices(filter, change) => (
                self.with_devices_updated(filter, change),
                Ok(OutcomeView::Changed(self.devices_where(filter).len())),
            ),
            StatementView::DeleteDevices(filter) => (
                self.without_devices(filter),
                Ok(OutcomeView::Changed(self.devices_where(filter).len())),
            ),
        }
    }
}

/// Filtering a sequence with one more element at its end.
pub proof fn lemma_filter_push<A>(rows: Seq<A>, pred: spec_fn(A) -> bool, row: A)
    ensures
        rows.push(row).filter(pred) == if pred(row) {
            rows.filter(pred).push(row)
        } else {
            rows.filter(pred)
        },
{
    reveal(Seq::filter);
    assert(rows.push(row).drop_last() =~= rows);
}

/// Filtering a prefix that is one element longer.
pub proof fn lemma_filter_take<A>(rows: Seq<A>, pred: spec_fn(A) -> bool, upto: int)
    requires
        0 <= upto < rows.len(),
    ensures
        rows.take(upto + 1).filter(pred) == if pred(rows[upto]) {
            rows.take(upto).filter(pred).push(rows[upto])
        } else {
            rows.take(upto).filter(pred)
        },
{
    assert(rows.take(upto + 1) =~= rows.take(upto).push(rows[upto]));
    lemma_filter_push(rows.take(upto), pred, rows[upto]);
}

/// Where no element before a position passes and the one at it does, that
/// element is the first that the filter lets through.
pub proof fn lemma_filter_first<A>(rows: Seq<A>, pred: spec_fn(A) -> bool, at: int)
    requires
        0 <= at < rows.len(),
        pred(rows[at]),
        forall|i: int| 0 <= i < at ==> !pred(#[trigger] rows[i]),
    ensures
        first(rows.filter(pred)) == Some(rows[at]),
    decreases rows.len(),
{
    reveal(Seq::filter);
    let front = rows.drop_last();
    if at == rows.len() - 1 {
        front.lemma_all_neg_filter_empty(pred);
    } else {
        lemma_filter_first(front, pred, at);
    }
}

/// Where every element passes, the filter lets everything through.
pub proof fn lemma_filter_all<A>(rows: Seq<A>, pred: spec_fn(A) -> bool)
    requires
        forall|i: int| 0 <= i < rows.len() ==> pred(#[trigger] rows[i]),
    ensures
        rows.filter(pred) == rows,
    decreases rows.len(),
{
    reveal(Seq::filter);
    if rows.len() > 0 {
        lemma_filter_all(rows.drop_last(), pred);
        assert(rows.drop_last().push(rows.last()) =~= rows);
    } else {
        assert(rows.filter(pred) =~= rows);
    }
}

/// Where no element passes, the filter yields the empty sequence.
pub proof fn lemma_filter_nothing_passes<A>(rows: Seq<A>, pred: spec_fn(A) -> bool)
    requires
        forall|i: int| 0 <= i < rows.len() ==> !pred(#[trigger] rows[i]),
    ensures
        rows.filter(pred) == Seq::<A>::empty(),
{
    rows.lemma_all_neg_filter_empty(pred);
    assert(rows.filter(pred) =~= Seq::<A>::empty());
}

/// A filter lets something through exactly where some element passes.
pub proof fn lemma_filter_some<A>(rows: Seq<A>, pred: spec_fn(A) -> bool)
    ensures
        rows.filter(pred).len() > 0 <==> exists|i: int|
            0 <= i < rows.len() && pred(#[trigger] rows[i]),
{
    if exists|i: int| 0 <= i < rows.len() && pred(#[trigger] rows[i]) {
        let at = choose|i: int| 0 <= i < rows.len() && pred(#[trigger] rows[i]);
        rows.lemma_filter_contains(pred, at);
    } else {
        lemma_filter_nothing_passes(rows, pred);
    }
}

/// Where a change keeps what the filter admits admitted, filtering the
/// updated rows gives the filtered rows, changed.
pub proof fn lemma_filter_updated<A>(
    rows: Seq<A>,
    pred: spec_fn(A) -> bool,
    change: spec_fn(A) -> A,
)
    requires
        forall|row: A| #[trigger] pred(row) ==> pred(change(row)),
    ensures
        rows.map_values(updated(pred, change)).filter(pred) == rows.filter(pred).map_values(change),
    decreases rows.len(),
{
    let after = rows.map_values(updated(pred, change));
    if rows.len() == 0 {
        lemma_filter_nothing_passes(rows, pred);
        lemma_filter_nothing_passes(after, pred);
        assert(after.filter(pred) =~= rows.filter(pred).map_values(change));
    } else {
        let front = rows.drop_last();
        lemma_filter_updated(front, pred, change);
        let front_after = front.map_values(updated(pred, change));
        assert(after =~= front_after.push(updated(pred, change)(rows.last())));
        assert(rows =~= front.push(rows.last()));
        lemma_filter_push(front_after, pred, updated(pred, change)(rows.last()));
        lemma_filter_push(front, pred, rows.last());
        if pred(rows.last()) {
            assert(front.filter(pred).push(rows.last()).map_values(change) =~= front.filter(
                pred,
            ).map_values(change).push(change(rows.last())));
        }
    }
}

/// Where the filter admits no row, an update changes nothing.
pub proof fn lemma_nothing_updated<A>(
    rows: Seq<A>,
    pred: spec_fn(A) -> bool,
    change: spec_fn(A) -> A,
)
    requires
        forall|i: int| 0 <= i < rows.len() ==> !pred(#[trigger] rows[i]),
    ensures
        rows.map_values(updated(pred, change)) == rows,
{
    assert(rows.map_values(updated(pred, change)) =~= rows);
}

/// A filter keeps the ascending order of the keys.
pub proof fn lemma_filter_ascending<R: Keyed>(rows: Seq<R>, pred: spec_fn(R) -> bool)
    requires
        ascending(rows),
    ensures
        ascending(rows.filter(pred)),
    decreases rows.len(),
{
    reveal(Seq::filter);
    if rows.len() > 0 {
        let front = rows.drop_last();
        let kept = front.filter(pred);
        lemma_filter_ascending(front, pred);
        if pred(rows.last()) {
            assert forall|i: int, j: int| 0 <= i < j < kept.push(rows.last()).len() implies (
            #[trigger] kept.push(rows.last())[i]).key() < (#[trigger] kept.push(
                rows.last(),
            )[j]).key() by {
                if j == kept.len() {
                    front.lemma_filter_contains_rev(pred, kept[i]);
                    let k = choose|k: int| 0 <= k < front.len() && front[k] == kept[i];
                    assert(rows[k].key() < rows[rows.len() - 1].key());
                } else {
                    assert(kept[i].key() < kept[j].key());
                }
            }
        }
    }
}

/// Every statement keeps the invariant of the storage.
pub proof fn lemma_apply_wf(tables: Tables, statement: StatementView)
    requires
        tables.wf(),
    ensures
        tables.apply(statement).0.wf(),
{
    match statement {
        StatementView::DeleteHouses(filter) => {
            lemma_filter_ascending(tables.houses, except(filter.pred()));
        },
        StatementView::DeleteRooms(filter) => {
            lemma_filter_ascending(tables.rooms, except(filter.pred()));
        },
        StatementView::DeleteDevices(filter) => {
            lemma_filter_ascending(tables.devices, except(filter.pred()));
        },
        _ => {},
    }
}

} // verus!

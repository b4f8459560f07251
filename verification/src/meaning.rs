//! What each operation means: the tables afterwards, and the reply.
//!
//! The meaning is said twice. `meant` says it directly, operation by
//! operation. `served` says it as an exchange goes about it: statement after
//! statement, each on the model of the tables, until one fails or the last is
//! answered. `law_served_as_meant` proves that the two agree.

use vstd::prelude::*;
use crate::decimal::decimal;
use crate::exchange::{
    BodyView, Operation, ReplyView, STATUS_INTERNAL_SERVER_ERROR, STATUS_OK,
};
use crate::models::{DeviceView, HouseView, Keyed, RoomView};
use crate::statement::{
    device_changed, except, house_named, room_named, DeviceChangeView, DeviceFilterView,
    HouseFilterView, RoomFilterView, StorageError,
};
use crate::tables::{
    first, has_key, lemma_filter_all, lemma_filter_nothing_passes, lemma_filter_some,
    lemma_filter_updated, lemma_nothing_updated, next_key, Tables,
};

verus! {

/// What an error reply stands for in contracts: its status and its text.
pub type Failure = (u16, Seq<char>);

/// The error reply for a failure of the storage: status 500 and the error's message.
pub open spec fn refused(error: StorageError) -> Failure {
    (STATUS_INTERNAL_SERVER_ERROR, error.text())
}

/// The reply that hands on a fetched row, or reports that there was none.
pub open spec fn found<V>(row: Option<V>) -> Result<V, Failure> {
    match row {
        Some(row) => Ok(row),
        None => Err(refused(StorageError::NotFound)),
    }
}

/// What adding a house does: the tables afterwards, and the reply.
///
/// The house is appended under the key after the last one, and the reply is
/// that house, whether or not the name was in use. Without a key left,
/// nothing changes and the reply is the error.
pub open spec fn added_house(tables: Tables, name: Seq<char>) -> (
    Tables,
    Result<HouseView, Failure>,
) {
    if next_key(tables.houses) > i32::MAX {
        (tables, Err(refused(StorageError::KeysExhausted)))
    } else {
        (tables.with_house(name), Ok(tables.new_house(name)))
    }
}

/// What renaming a house does: the tables afterwards, and the reply.
///
/// The house with the key gets the name, and the reply is that house. Where
/// no house has the key, nothing changes and the reply is the error that no
/// row was found.
pub open spec fn updated_house(tables: Tables, house_id: i32, name: Seq<char>) -> (
    Tables,
    Result<HouseView, Failure>,
) {
    if has_key(tables.houses, house_id as int) {
        (
            tables.with_houses_renamed(HouseFilterView::WithId(house_id), name),
            Ok(HouseView { id: house_id, name }),
        )
    } else {
        (tables, Err(refused(StorageError::NotFound)))
    }
}

/// What adding a room does: the tables afterwards, and the reply.
///
/// The room is appended under the key after the last one, and the reply is
/// that room, whether or not the name was in use. Where no house has the
/// given key the reply is the error that no row was found, and without a key
/// left it is that error; either way nothing changes.
pub open spec fn added_room(tables: Tables, house_id: i32, name: Seq<char>) -> (
    Tables,
    Result<RoomView, Failure>,
) {
    if !has_key(tables.houses, house_id as int) {
        (tables, Err(refused(StorageError::NotFound)))
    } else if next_key(tables.rooms) > i32::MAX {
        (tables, Err(refused(StorageError::KeysExhausted)))
    } else {
        (tables.with_room(house_id, name), Ok(tables.new_room(house_id, name)))
    }
}

/// What renaming a room does: the tables afterwards, and the reply.
///
/// The room with the key gets the name, and the reply is that room, with its
/// key and its house. Where no room has the key, nothing changes and the
/// reply is the error that no row was found.
pub open spec fn updated_room(tables: Tables, room_id: i32, name: Seq<char>) -> (
    Tables,
    Result<RoomView, Failure>,
) {
    let filter = RoomFilterView::WithId(room_id);
    if has_key(tables.rooms, room_id as int) {
        (
            tables.with_rooms_renamed(filter, name),
            Ok(RoomView { id: room_id, house: tables.rooms_where(filter)[0].house, name }),
        )
    } else {
        (tables, Err(refused(StorageError::NotFound)))
    }
}

/// What adding a device does: the tables afterwards, and the reply.
///
/// The device is appended under the key after the last one and switched off,
/// and the reply is that device, whether or not the name was in use. Where no
/// room has the given key the reply is the error that no row was found, and
/// without a key left it is that error; either way nothing changes.
pub open spec fn added_device(
    tables: Tables,
    room_id: i32,
    name: Seq<char>,
    device_type: Seq<char>,
) -> (Tables, Result<DeviceView, Failure>) {
    if !has_key(tables.rooms, room_id as int) {
        (tables, Err(refused(StorageError::NotFound)))
    } else if next_key(tables.devices) > i32::MAX {
        (tables, Err(refused(StorageError::KeysExhausted)))
    } else {
        (
            tables.with_device(room_id, name, device_type, false),
            Ok(tables.new_device(room_id, name, device_type, false)),
        )
    }
}

/// What updating a device does: the tables afterwards, and the reply.
///
/// The device with the key, if it is in the room, gets the name, the state
/// and the category, and the reply is that device. Where the room holds no
/// device with the key, nothing changes and the reply is the error that no
/// row was found.
pub open spec fn updated_device(
    tables: Tables,
    room_id: i32,
    device_id: i32,
    change: DeviceChangeView,
) -> (Tables, Result<DeviceView, Failure>) {
    if tables.has_device_at(room_id, device_id) {
        (
            tables.with_devices_updated(
                DeviceFilterView::At { id: device_id, room: room_id },
                change,
            ),
            Ok(
                DeviceView {
                    id: device_id,
                    room: room_id,
                    name: change.name,
                    device_type: change.device_type,
                    state: change.state,
                },
            ),
        )
    } else {
        (tables, Err(refused(StorageError::NotFound)))
    }
}

/// The reply to a request that was carried out: status 200 and the body.
pub open spec fn done(body: BodyView) -> ReplyView {
    ReplyView { status: STATUS_OK, body }
}

/// The reply that hands on a handler's result: status 200 with the row as
/// its body, or the status of the failure with its message.
pub open spec fn handed_on<V>(
    result: Result<V, Failure>,
    body: spec_fn(V) -> BodyView,
) -> ReplyView {
    match result {
        Ok(row) => done(body(row)),
        Err(failure) => ReplyView { status: failure.0, body: BodyView::Text(failure.1) },
    }
}

/// What an operation does, said directly: the tables afterwards, and the reply.
pub open spec fn meant(tables: Tables, operation: Operation) -> (Tables, ReplyView) {
    match operation {
        Operation::ListHouses => (tables, done(BodyView::Houses(tables.houses))),
        Operation::AddHouse { house_form } => {
            let (after, result) = added_house(tables, house_form.name@);
            (after, handed_on(result, |row: HouseView| BodyView::House(row)))
        },
        Operation::UpdHouse { house_id, house_form } => {
            let (after, result) = updated_house(tables, house_id, house_form.name@);
            (after, handed_on(result, |row: HouseView| BodyView::House(row)))
        },
        Operation::DelHouse { house_id } => {
            let filter = HouseFilterView::WithId(house_id);
            (
                tables.without_houses(filter),
                done(BodyView::Count(decimal(tables.houses_where(filter).len()))),
            )
        },
        Operation::DropAll => (Tables::empty(), done(BodyView::Flag(true))),
        Operation::GetRooms { house_id } => (
            tables,
            done(BodyView::Rooms(tables.rooms_where(RoomFilterView::InHouse(house_id)))),
        ),
        Operation::AddRoom { house_id, room_form } => {
            let (after, result) = added_room(tables, house_id, room_form.name@);
            (after, handed_on(result, |row: RoomView| BodyView::Room(row)))
        },
        Operation::UpdRoom { room_id, room_form } => {
            let (after, result) = updated_room(tables, room_id, room_form.name@);
            (after, handed_on(result, |row: RoomView| BodyView::Room(row)))
        },
        Operation::DelRoom { room_id } => {
            let filter = RoomFilterView::WithId(room_id);
            (
                tables.without_rooms(filter),
                done(BodyView::Count(decimal(tables.rooms_where(filter).len()))),
            )
        },
        Operation::GetDevices { room_id } => (
            tables,
            done(BodyView::Devices(tables.devices_where(DeviceFilterView::InRoom(room_id)))),
        ),
        Operation::AddDevice { room_id, device_form } => {
            let (after, result) = added_device(
                tables,
                room_id,
                device_form.name@,
                device_form.device@,
            );
            (after, handed_on(result, |row: DeviceView| BodyView::Device(row)))
        },
        Operation::UpdDevice { room_id, device_id, device_form } => {
            let (after, result) = updated_device(
                tables,
                room_id,
                device_id,
                DeviceChangeView {
                    name: device_form.name@,
                    state: device_form.state,
                    device_type: device_form.device@,
                },
            );
            (after, handed_on(result, |row: DeviceView| BodyView::Device(row)))
        },
        Operation::DelDevice { room_id, device_id } => {
            let filter = DeviceFilterView::At { id: device_id, room: room_id };
            (
                tables.without_devices(filter),
                done(BodyView::Count(decimal(tables.devices_where(filter).len()))),
            )
        },
    }
}

/// What is left of an operation from a position of its list of statements:
/// the tables after the remaining statements, and the reply. The first
/// statement that fails ends the operation with the error reply.
pub open spec fn run(tables: Tables, operation: Operation, position: nat) -> (Tables, ReplyView)
    recommends
        position < operation.statements().len(),
    decreases operation.statements().len() - position,
{
    let statements = operation.statements();
    let (after, answer) = tables.apply(statements[position as int]);
    match answer {
        Err(error) => (after, ReplyView::failure(error.text())),
        Ok(outcome) => if position + 1 < statements.len() {
            run(after, operation, position + 1)
        } else {
            (after, operation.concluded(outcome))
        },
    }
}

/// The tables after an operation, and its reply.
pub open spec fn served(tables: Tables, operation: Operation) -> (Tables, ReplyView) {
    run(tables, operation, 0)
}

/// What a fetch by key finds after the houses with the key were renamed: the
/// house with the key and the new name where a house has the key, else
/// nothing, and then nothing was renamed.
proof fn lemma_renamed_house_is_fetched(tables: Tables, house_id: i32, name: Seq<char>)
    ensures
        ({
            let filter = HouseFilterView::WithId(house_id);
            let after = tables.with_houses_renamed(filter, name);
            &&& has_key(tables.houses, house_id as int) ==> first(after.houses_where(filter))
                == Some(HouseView { id: house_id, name })
            &&& !has_key(tables.houses, house_id as int) ==> after == tables && first(
                after.houses_where(filter),
            ) is None
        }),
{
    let pred = HouseFilterView::WithId(house_id).pred();
    let rows = tables.houses;
    lemma_filter_some(rows, pred);
    lemma_filter_updated(rows, pred, house_named(name));
    if has_key(rows, house_id as int) {
        let at = choose|i: int| 0 <= i < rows.len() && (#[trigger] rows[i]).key() == house_id;
        assert(pred(rows[at]));
        rows.lemma_filter_pred(pred, 0);
    } else {
        assert forall|i: int| 0 <= i < rows.len() implies !pred(#[trigger] rows[i]) by {
            assert(rows[i].key() != house_id);
        }
        lemma_nothing_updated(rows, pred, house_named(name));
    }
}

/// What a fetch by key finds after the rooms with the key were renamed.
proof fn lemma_renamed_room_is_fetched(tables: Tables, room_id: i32, name: Seq<char>)
    ensures
        ({
            let filter = RoomFilterView::WithId(room_id);
            let after = tables.with_rooms_renamed(filter, name);
            &&& has_key(tables.rooms, room_id as int) ==> first(after.rooms_where(filter)) == Some(
                RoomView { id: room_id, house: tables.rooms_where(filter)[0].house, name },
            )
            &&& !has_key(tables.rooms, room_id as int) ==> after == tables && first(
                after.rooms_where(filter),
            ) is None
        }),
{
    let pred = RoomFilterView::WithId(room_id).pred();
    let rows = tables.rooms;
    lemma_filter_some(rows, pred);
    lemma_filter_updated(rows, pred, room_named(name));
    if has_key(rows, room_id as int) {
        let at = choose|i: int| 0 <= i < rows.len() && (#[trigger] rows[i]).key() == room_id;
        assert(pred(rows[at]));
        rows.lemma_filter_pred(pred, 0);
    } else {
        assert forall|i: int| 0 <= i < rows.len() implies !pred(#[trigger] rows[i]) by {
            assert(rows[i].key() != room_id);
        }
        lemma_nothing_updated(rows, pred, room_named(name));
    }
}

/// What a fetch by key and room finds after the devices with the key in the
/// room were updated.
proof fn lemma_updated_device_is_fetched(
    tables: Tables,
    room_id: i32,
    device_id: i32,
    change: DeviceChangeView,
)
    ensures
        ({
            let filter = DeviceFilterView::At { id: device_id, room: room_id };
            let after = tables.with_devices_updated(filter, change);
            &&& tables.has_device_at(room_id, device_id) ==> first(after.devices_where(filter))
                == Some(
                DeviceView {
                    id: device_id,
                    room: room_id,
                    name: change.name,
                    device_type: change.device_type,
                    state: change.state,
                },
            )
            &&& !tables.has_device_at(room_id, device_id) ==> after == tables && first(
                after.devices_where(filter),
            ) is None
        }),
{
    let pred = DeviceFilterView::At { id: device_id, room: room_id }.pred();
    let rows = tables.devices;
    lemma_filter_some(rows, pred);
    lemma_filter_updated(rows, pred, device_changed(change));
    if tables.has_device_at(room_id, device_id) {
        let at = choose|i: int|
            0 <= i < rows.len() && (#[trigger] rows[i]).id == device_id && rows[i].room == room_id;
        assert(pred(rows[at]));
        rows.lemma_filter_pred(pred, 0);
    } else {
        assert forall|i: int| 0 <= i < rows.len() implies !pred(#[trigger] rows[i]) by {
            assert(!(rows[i].id == device_id && rows[i].room == room_id));
        }
        lemma_nothing_updated(rows, pred, device_changed(change));
    }
}

/// A fetch by key finds a row exactly where a row has the key.
proof fn lemma_parent_is_fetched<R: Keyed>(rows: Seq<R>, key: int, pred: spec_fn(R) -> bool)
    requires
        forall|row: R| #[trigger] pred(row) <==> row.key() == key,
    ensures
        first(rows.filter(pred)) is Some <==> has_key(rows, key),
{
    lemma_filter_some(rows, pred);
    if has_key(rows, key) {
        let at = choose|i: int| 0 <= i < rows.len() && (#[trigger] rows[i]).key() == key;
        assert(pred(rows[at]));
    }
}

/// An operation that is carried out statement by statement, as an exchange
/// asks for them, does what the operation means.
pub proof fn law_served_as_meant(tables: Tables, operation: Operation)
    ensures
        served(tables, operation) == meant(tables, operation),
{
    reveal_with_fuel(run, 3);
    match operation {
        Operation::ListHouses => {
            lemma_filter_all(tables.houses, HouseFilterView::All.pred());
        },
        Operation::DropAll => {
            assert(operation.statements().len() == 3);
            lemma_filter_nothing_passes(tables.devices, except(DeviceFilterView::All.pred()));
            lemma_filter_nothing_passes(tables.rooms, except(RoomFilterView::All.pred()));
            lemma_filter_nothing_passes(tables.houses, except(HouseFilterView::All.pred()));
        },
        Operation::UpdHouse { house_id, house_form } => {
            assert(operation.statements().len() == 2);
            lemma_renamed_house_is_fetched(tables, house_id, house_form.name@);
        },
        Operation::AddRoom { house_id, .. } => {
            assert(operation.statements().len() == 2);
            lemma_parent_is_fetched(
                tables.houses,
                house_id as int,
                HouseFilterView::WithId(house_id).pred(),
            );
        },
        Operation::UpdRoom { room_id, room_form } => {
            assert(operation.statements().len() == 2);
            lemma_renamed_room_is_fetched(tables, room_id, room_form.name@);
        },
        Operation::AddDevice { room_id, .. } => {
            assert(operation.statements().len() == 2);
            lemma_parent_is_fetched(
                tables.rooms,
                room_id as int,
                RoomFilterView::WithId(room_id).pred(),
            );
        },
        Operation::UpdDevice { room_id, device_id, device_form } => {
            assert(operation.statements().len() == 2);
            lemma_updated_device_is_fetched(
                tables,
                room_id,
                device_id,
                DeviceChangeView {
                    name: device_form.name@,
                    state: device_form.state,
                    device_type: device_form.device@,
                },
            );
        },
        _ => {},
    }
}

} // verus!

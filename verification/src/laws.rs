//! What holds of the operations together, proved over the model of the tables.

use vstd::prelude::*;
use crate::exchange::{Operation, STATUS_OK};
use crate::meaning::{
    added_device, added_house, added_room, meant, updated_device, updated_house, updated_room,
    Failure,
};
use crate::models::{DeviceView, HouseView, Keyed, RoomView};
use crate::statement::{
    except, DeviceChangeView, DeviceFilterView, HouseFilterView, RoomFilterView,
};
use crate::tables::{
    ascending, has_key, lemma_filter_ascending, lemma_filter_nothing_passes, lemma_filter_push,
    next_key, Tables,
};

verus! {

/// Among rows in ascending order of their keys, a key is found at one place only.
proof fn lemma_key_once<R: Keyed>(rows: Seq<R>, i: int, j: int)
    requires
        ascending(rows),
        0 <= i < rows.len(),
        0 <= j < rows.len(),
        rows[i].key() == rows[j].key(),
    ensures
        i == j,
{
    if i < j {
        assert(rows[i].key() < rows[j].key());
    } else if j < i {
        assert(rows[j].key() < rows[i].key());
    }
}

/// The key of a new row is fresh: among rows in ascending order of their
/// keys, no row has the key after the last one.
pub proof fn law_new_key_is_fresh<R: Keyed>(rows: Seq<R>)
    requires
        ascending(rows),
    ensures
        !has_key(rows, next_key(rows)),
{
    if has_key(rows, next_key(rows)) {
        let at = choose|i: int| 0 <= i < rows.len() && (#[trigger] rows[i]).key() == next_key(rows);
        if at < rows.len() - 1 {
            assert(rows[at].key() < rows[rows.len() - 1].key());
        }
    }
}

/// In tables without houses, adding a house succeeds: the reply is the new
/// house, with key 1 and the given name, and the table of houses, which is
/// what listing the houses yields, holds this house and no other.
pub proof fn law_first_house(tables: Tables, name: Seq<char>)
    requires
        tables.houses.len() == 0,
    ensures
        added_house(tables, name).1 == Ok::<HouseView, Failure>(HouseView { id: 1, name }),
        added_house(tables, name).0.houses == seq![HouseView { id: 1, name }],
{
    assert(tables.houses.push(HouseView { id: 1, name }) =~= seq![HouseView { id: 1, name }]);
}

/// Adding a house succeeds whenever a key is left, whether or not the name
/// is in use. The reply is then the house that was stored: it has the given
/// name and a key that no house had, it is the last of the table, and the
/// houses before it are as they were. The other tables do not change.
pub proof fn law_added_house(tables: Tables, name: Seq<char>)
    requires
        tables.wf(),
    ensures
        ({
            let (after, reply) = added_house(tables, name);
            &&& reply is Ok <==> next_key(tables.houses) <= i32::MAX
            &&& reply matches Ok(house) ==> {
                &&& house.name == name
                &&& !has_key(tables.houses, house.id as int)
                &&& after.houses == tables.houses.push(house)
                &&& after.rooms == tables.rooms
                &&& after.devices == tables.devices
            }
        }),
{
    law_new_key_is_fresh(tables.houses);
}

/// Once everything was removed, no listing yields a row: whatever the tables
/// held, removing everything leaves the tables empty, and then neither the
/// listing of the houses holds a row, nor that of the rooms of any house, nor
/// that of the devices of any room.
pub proof fn law_nothing_is_listed_after_dropping_all(tables: Tables, house_id: i32, room_id: i32)
    ensures
        meant(tables, Operation::DropAll).0 == Tables::empty(),
        Tables::empty().houses == Seq::<HouseView>::empty(),
        Tables::empty().rooms_where(RoomFilterView::InHouse(house_id)) == Seq::<RoomView>::empty(),
        Tables::empty().devices_where(DeviceFilterView::InRoom(room_id)) == Seq::<
            DeviceView,
        >::empty(),
{
    lemma_filter_nothing_passes(Tables::empty().rooms, RoomFilterView::InHouse(house_id).pred());
    lemma_filter_nothing_passes(
        Tables::empty().devices,
        DeviceFilterView::InRoom(room_id).pred(),
    );
}

/// Adding a room succeeds whenever its house is stored and a key is left,
/// whether or not the name is in use. The reply is then the room that was
/// stored: it has the given name, names the house and has a key that no room
/// had; it is the last of the table and the last of the listing of the rooms
/// of its house, and the rooms before it are as they were. The other tables
/// do not change.
pub proof fn law_added_room(tables: Tables, house_id: i32, name: Seq<char>)
    requires
        tables.wf(),
    ensures
        ({
            let (after, reply) = added_room(tables, house_id, name);
            let in_house = RoomFilterView::InHouse(house_id);
            &&& reply is Ok <==> has_key(tables.houses, house_id as int) && next_key(tables.rooms)
                <= i32::MAX
            &&& reply matches Ok(room) ==> {
                &&& room.name == name
                &&& room.house == house_id
                &&& !has_key(tables.rooms, room.id as int)
                &&& after.rooms == tables.rooms.push(room)
                &&& after.rooms_where(in_house) == tables.rooms_where(in_house).push(room)
                &&& after.houses == tables.houses
                &&& after.devices == tables.devices
            }
        }),
{
    law_new_key_is_fresh(tables.rooms);
    lemma_filter_push(
        tables.rooms,
        RoomFilterView::InHouse(house_id).pred(),
        tables.new_room(house_id, name),
    );
}

/// A room can be added to a house that was just added: with the key of the
/// reply to the house's creation, adding a room succeeds whenever a room key
/// is left. The reply then has the given name and names that house, and it is
/// the only room in the listing of the rooms of that house that has its key.
pub proof fn law_room_of_a_new_house(tables: Tables, house_name: Seq<char>, room_name: Seq<char>)
    requires
        tables.wf(),
    ensures
        added_house(tables, house_name).1 matches Ok(house) ==> {
            let (after, reply) = added_room(
                added_house(tables, house_name).0,
                house.id,
                room_name,
            );
            let listed = after.rooms_where(RoomFilterView::InHouse(house.id));
            &&& reply is Ok <==> next_key(tables.rooms) <= i32::MAX
            &&& reply matches Ok(room) ==> {
                &&& room.name == room_name
                &&& room.house == house.id
                &&& listed.len() > 0
                &&& listed.last() == room
            }
        },
{
    let (housed, house_reply) = added_house(tables, house_name);
    if let Ok(house) = house_reply {
        assert(housed.houses[housed.houses.len() - 1].key() == house.id);
        assert(has_key(housed.houses, house.id as int));
        lemma_filter_push(
            housed.rooms,
            RoomFilterView::InHouse(house.id).pred(),
            housed.new_room(house.id, room_name),
        );
    }
}

/// A new device is off: adding a device succeeds whenever its room is stored
/// and a key is left, whatever state the request asks for and whether or not
/// the name is in use. The reply is then the device that was stored: it is
/// off, it has the given name and category, names the room and has a key that
/// no device had; it is the last of the table and the last of the listing of
/// the devices of its room, and the devices before it are as they were.
pub proof fn law_new_device_is_off(
    tables: Tables,
    room_id: i32,
    name: Seq<char>,
    device_type: Seq<char>,
)
    requires
        tables.wf(),
    ensures
        ({
            let (after, reply) = added_device(tables, room_id, name, device_type);
            let in_room = DeviceFilterView::InRoom(room_id);
            &&& reply is Ok <==> has_key(tables.rooms, room_id as int) && next_key(tables.devices)
                <= i32::MAX
            &&& reply matches Ok(device) ==> {
                &&& !device.state
                &&& device.name == name
                &&& device.device_type == device_type
                &&& device.room == room_id
                &&& !has_key(tables.devices, device.id as int)
                &&& after.devices == tables.devices.push(device)
                &&& after.devices_where(in_room) == tables.devices_where(in_room).push(device)
                &&& after.houses == tables.houses
                &&& after.rooms == tables.rooms
            }
        }),
{
    law_new_key_is_fresh(tables.devices);
    lemma_filter_push(
        tables.devices,
        DeviceFilterView::InRoom(room_id).pred(),
        tables.new_device(room_id, name, device_type, false),
    );
}

/// Renaming a stored house succeeds: the reply is the house with its key and
/// the new name, that house stands in the table where it stood, and every
/// other house is as it was. The other tables do not change.
pub proof fn law_renamed_house(tables: Tables, position: int, name: Seq<char>)
    requires
        tables.wf(),
        0 <= position < tables.houses.len(),
    ensures
        ({
            let renamed = HouseView { id: tables.houses[position].id, name };
            let (after, reply) = updated_house(tables, renamed.id, name);
            &&& reply == Ok::<HouseView, Failure>(renamed)
            &&& after.houses == tables.houses.update(position, renamed)
            &&& after.rooms == tables.rooms
            &&& after.devices == tables.devices
        }),
{
    let id = tables.houses[position].id;
    let renamed = HouseView { id, name };
    assert(tables.houses[position].key() == id);
    let (after, reply) = updated_house(tables, id, name);
    assert forall|i: int| 0 <= i < tables.houses.len() implies #[trigger] after.houses[i]
        == tables.houses.update(position, renamed)[i] by {
        if tables.houses[i].id == id {
            lemma_key_once(tables.houses, i, position);
        }
    }
    assert(after.houses =~= tables.houses.update(position, renamed));
}

/// Renaming a stored room succeeds, whatever the other rooms are called: the
/// reply is the room with its key, its house and the new name, that room
/// stands in the table where it stood, and every other room is as it was. The
/// other tables do not change.
pub proof fn law_renamed_room(tables: Tables, position: int, name: Seq<char>)
    requires
        tables.wf(),
        0 <= position < tables.rooms.len(),
    ensures
        ({
            let stored = tables.rooms[position];
            let renamed = RoomView { id: stored.id, house: stored.house, name };
            let (after, reply) = updated_room(tables, stored.id, name);
            &&& reply == Ok::<RoomView, Failure>(renamed)
            &&& after.rooms == tables.rooms.update(position, renamed)
            &&& after.houses == tables.houses
            &&& after.devices == tables.devices
        }),
{
    let stored = tables.rooms[position];
    let renamed = RoomView { id: stored.id, house: stored.house, name };
    let pred = RoomFilterView::WithId(stored.id).pred();
    assert(tables.rooms[position].key() == stored.id);
    let (after, reply) = updated_room(tables, stored.id, name);
    assert forall|i: int| 0 <= i < tables.rooms.len() implies #[trigger] after.rooms[i]
        == tables.rooms.update(position, renamed)[i] by {
        if tables.rooms[i].id == stored.id {
            lemma_key_once(tables.rooms, i, position);
        }
    }
    assert(after.rooms =~= tables.rooms.update(position, renamed));
    tables.rooms.lemma_filter_contains(pred, position);
    tables.rooms.lemma_filter_pred(pred, 0);
    tables.rooms.lemma_filter_contains_rev(pred, tables.rooms.filter(pred)[0]);
    let found = tables.rooms.index_of(tables.rooms.filter(pred)[0]);
    lemma_key_once(tables.rooms, found, position);
}

/// Updating a stored device succeeds: the reply is the device with its key
/// and room and with the name, category and state of the request; that device
/// stands in the table where it stood, and every other device is as it was.
/// The other tables do not change.
pub proof fn law_updated_device(tables: Tables, position: int, change: DeviceChangeView)
    requires
        tables.wf(),
        0 <= position < tables.devices.len(),
    ensures
        ({
            let stored = tables.devices[position];
            let updated = DeviceView {
                id: stored.id,
                room: stored.room,
                name: change.name,
                device_type: change.device_type,
                state: change.state,
            };
            let (after, reply) = updated_device(tables, stored.room, stored.id, change);
            &&& reply == Ok::<DeviceView, Failure>(updated)
            &&& after.devices == tables.devices.update(position, updated)
            &&& after.houses == tables.houses
            &&& after.rooms == tables.rooms
        }),
{
    let stored = tables.devices[position];
    let updated = DeviceView {
        id: stored.id,
        room: stored.room,
        name: change.name,
        device_type: change.device_type,
        state: change.state,
    };
    assert(tables.has_device_at(stored.room, stored.id));
    let (after, reply) = updated_device(tables, stored.room, stored.id, change);
    assert forall|i: int| 0 <= i < tables.devices.len() implies #[trigger] after.devices[i]
        == tables.devices.update(position, updated)[i] by {
        if tables.devices[i].id == stored.id {
            lemma_key_once(tables.devices, i, position);
        }
    }
    assert(after.devices =~= tables.devices.update(position, updated));
}

/// A reply of failure leaves the tables as they were: whatever the operation,
/// where its reply does not have status 200, nothing was stored, changed or
/// removed.
pub proof fn law_failure_changes_nothing(tables: Tables, operation: Operation)
    ensures
        meant(tables, operation).1.status != STATUS_OK ==> meant(tables, operation).0 == tables,
{
}

/// A deleted room is listed no more: after the rooms with a key were removed,
/// no listing of the rooms of any house holds a room with that key, and each
/// such listing holds the other rooms that it held before, in their order.
pub proof fn law_deleted_room_is_not_listed(tables: Tables, room_id: i32, house_id: i32)
    ensures
        ({
            let after = tables.without_rooms(RoomFilterView::WithId(room_id));
            let listed = after.rooms_where(RoomFilterView::InHouse(house_id));
            &&& forall|i: int| 0 <= i < listed.len() ==> (#[trigger] listed[i]).id != room_id
            &&& listed == tables.rooms_where(RoomFilterView::InHouse(house_id)).filter(
                except(RoomFilterView::WithId(room_id).pred()),
            )
        }),
{
    let others = except(RoomFilterView::WithId(room_id).pred());
    let in_house = RoomFilterView::InHouse(house_id).pred();
    let after = tables.without_rooms(RoomFilterView::WithId(room_id));
    let listed = after.rooms.filter(in_house);
    assert forall|i: int| 0 <= i < listed.len() implies (#[trigger] listed[i]).id != room_id by {
        after.rooms.lemma_filter_contains_rev(in_house, listed[i]);
        let place = after.rooms.index_of(listed[i]);
        tables.rooms.lemma_filter_pred(others, place);
    }
    lemma_filters_commute(tables.rooms, others, in_house);
}

/// Two filters one after the other let the same rows through in either order.
proof fn lemma_filters_commute<A>(rows: Seq<A>, p: spec_fn(A) -> bool, q: spec_fn(A) -> bool)
    ensures
        rows.filter(p).filter(q) == rows.filter(q).filter(p),
    decreases rows.len(),
{
    reveal(Seq::filter);
    if rows.len() > 0 {
        let front = rows.drop_last();
        let last = rows.last();
        lemma_filters_commute(front, p, q);
        lemma_filter_push(front.filter(p), q, last);
        lemma_filter_push(front.filter(q), p, last);
    }
}

/// Among rows in ascending order of their keys, a filter that admits rows of
/// one key only admits one row or none.
proof fn lemma_count_by_key<R: Keyed>(rows: Seq<R>, key: int, pred: spec_fn(R) -> bool)
    requires
        ascending(rows),
        forall|row: R| #[trigger] pred(row) ==> row.key() == key,
    ensures
        rows.filter(pred).len() == if exists|i: int|
            0 <= i < rows.len() && pred(#[trigger] rows[i]) {
            1nat
        } else {
            0nat
        },
{
    let hits = rows.filter(pred);
    if exists|i: int| 0 <= i < rows.len() && pred(#[trigger] rows[i]) {
        let at = choose|i: int| 0 <= i < rows.len() && pred(#[trigger] rows[i]);
        rows.lemma_filter_contains(pred, at);
        if hits.len() >= 2 {
            lemma_filter_ascending(rows, pred);
            rows.lemma_filter_pred(pred, 0);
            rows.lemma_filter_pred(pred, 1);
            assert(hits[0].key() < hits[1].key());
        }
    } else {
        lemma_filter_nothing_passes(rows, pred);
    }
}

/// A key finds one house or none: the filter on a key admits one house where
/// a house has the key, and no house else. So many houses a delete by key
/// removes and an update by key changes.
pub proof fn law_one_house_per_key(tables: Tables, house_id: i32)
    requires
        tables.wf(),
    ensures
        tables.houses_where(HouseFilterView::WithId(house_id)).len() == if has_key(
            tables.houses,
            house_id as int,
        ) {
            1nat
        } else {
            0nat
        },
{
    let pred = HouseFilterView::WithId(house_id).pred();
    lemma_count_by_key(tables.houses, house_id as int, pred);
    if has_key(tables.houses, house_id as int) {
        let at = choose|i: int|
            0 <= i < tables.houses.len() && (#[trigger] tables.houses[i]).key() == house_id;
        assert(pred(tables.houses[at]));
    }
}

/// A key finds one room or none: the filter on a key admits one room where a
/// room has the key, and no room else.
pub proof fn law_one_room_per_key(tables: Tables, room_id: i32)
    requires
        tables.wf(),
    ensures
        tables.rooms_where(RoomFilterView::WithId(room_id)).len() == if has_key(
            tables.rooms,
            room_id as int,
        ) {
            1nat
        } else {
            0nat
        },
{
    let pred = RoomFilterView::WithId(room_id).pred();
    lemma_count_by_key(tables.rooms, room_id as int, pred);
    if has_key(tables.rooms, room_id as int) {
        let at = choose|i: int|
            0 <= i < tables.rooms.len() && (#[trigger] tables.rooms[i]).key() == room_id;
        assert(pred(tables.rooms[at]));
    }
}

/// A key and a room find one device or none: the filter on both admits one
/// device where the device with the key is in the room, and no device else.
pub proof fn law_one_device_per_key(tables: Tables, room_id: i32, device_id: i32)
    requires
        tables.wf(),
    ensures
        tables.devices_where(DeviceFilterView::At { id: device_id, room: room_id }).len()
            == if tables.has_device_at(room_id, device_id) {
            1nat
        } else {
            0nat
        },
{
    let pred = DeviceFilterView::At { id: device_id, room: room_id }.pred();
    lemma_count_by_key(tables.devices, device_id as int, pred);
    if tables.has_device_at(room_id, device_id) {
        let at = choose|i: int|
            0 <= i < tables.devices.len() && (#[trigger] tables.devices[i]).id == device_id
                && tables.devices[i].room == room_id;
        assert(pred(tables.devices[at]));
    }
}

} // verus!

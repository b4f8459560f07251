//! The request handlers: one per operation of the service, on the store in
//! memory.
//!
//! A handler takes the path parameters and the form of a request, carries the
//! operation out on the store, and gives the reply: the rows or the row that
//! the request asks for, or the status and the message of a failure. What
//! each operation does is said in `crate::meaning`.

use vstd::prelude::*;
use crate::decimal::decimal;
use crate::exchange::{Action, ActionView, Body, Event, Exchange, Operation, Reply, Stage};
use crate::laws::{
    law_new_key_is_fresh, law_one_device_per_key, law_one_house_per_key, law_one_room_per_key,
};
use crate::meaning::{
    added_device, added_house, added_room, law_served_as_meant, meant, run, served,
    updated_device, updated_house, updated_room, Failure,
};
use crate::models::{Device, DeviceView, House, Room, RoomView};
use crate::statement::{
    views, DeviceChangeView, DeviceFilterView, HouseFilterView, RoomFilterView,
};
use crate::store::Store;
use crate::tables::{has_key, next_key, Tables};

verus! {

/// The body of a request that creates or renames a house.
#[derive(Debug, PartialEq, Eq)]
pub struct HouseForm {
    pub name: String,
}

/// The body of a request that creates or renames a room.
#[derive(Debug, PartialEq, Eq)]
pub struct RoomForm {
    pub name: String,
}

/// The body of a request that creates or updates a device.
#[derive(Debug, PartialEq, Eq)]
pub struct PostRequestDevice {
    pub name: String,
    pub state: bool,
    pub device: String,
}

/// The view of a handler's reply that holds one value.
pub open spec fn one<T: View>(reply: Result<T, (u16, String)>) -> Result<T::V, Failure> {
    match reply {
        Ok(value) => Ok(value@),
        Err(failure) => Err((failure.0, failure.1@)),
    }
}

/// The view of a handler's reply that holds rows.
pub open spec fn many<T: View>(reply: Result<Vec<T>, (u16, String)>) -> Result<
    Seq<T::V>,
    Failure,
> {
    match reply {
        Ok(rows) => Ok(views(rows@)),
        Err(failure) => Err((failure.0, failure.1@)),
    }
}

/// The number of actions that an exchange can still ask for.
spec fn actions_left(exchange: Exchange) -> nat {
    let count = exchange.operation().statements().len();
    match exchange.stage() {
        Stage::Connecting => count + 1,
        Stage::Awaiting(position) => (count - position) as nat,
        Stage::Done => 0,
    }
}

/// Carries out an operation on the store: drives an exchange from its first
/// action to its reply, running each statement that it asks for.
pub fn serve(store: &mut Store, operation: Operation) -> (reply: Reply)
    requires
        old(store)@.wf(),
    ensures
        final(store)@.wf(),
        (final(store)@, reply@) == served(old(store)@, operation),
        (final(store)@, reply@) == meant(old(store)@, operation),
{
    let ghost start = store@;
    let (mut exchange, mut action) = Exchange::begin(operation);
    loop
        invariant
            start == old(store)@,
            store@.wf(),
            exchange.wf(),
            exchange.operation() == operation,
            match action@ {
                ActionView::Connect => exchange.stage() == Stage::Connecting && store@ == start,
                ActionView::Run(statement) => {
                    &&& exchange.stage() matches Stage::Awaiting(position)
                    &&& statement == operation.statements()[position as int]
                    &&& run(store@, operation, position as nat) == served(start, operation)
                },
                ActionView::Reply(reply) => (store@, reply) == served(start, operation),
            },
        decreases actions_left(exchange),
    {
        match action {
            Action::Reply(reply) => {
                proof {
                    law_served_as_meant(start, operation);
                }
                return reply;
            },
            Action::Connect => {
                action = exchange.advance(Event::Connected);
            },
            Action::Run(statement) => {
                let event = match store.execute(&statement) {
                    Ok(outcome) => Event::Answered(outcome),
                    Err(error) => Event::Failed(error.message()),
                };
                action = exchange.advance(event);
            },
        }
    }
}

/// Lists the houses, in the order of their keys. Nothing changes.
pub fn list_houses(store: &mut Store) -> (rows: Vec<House>)
    requires
        old(store)@.wf(),
    ensures
        final(store)@ == old(store)@,
        views(rows@) == old(store)@.houses,
{
    let reply = serve(store, Operation::ListHouses);
    match reply.body {
        Body::Houses(rows) => rows,
        _ => vstd::pervasive::unreached(),
    }
}

/// Creates a house with the name of the form, under the key after the last
/// one, and replies with that house. A name may be in use already. It fails,
/// with status 500, only where no key is left; then nothing changes.
pub fn add_house(store: &mut Store, house_form: HouseForm) -> (reply: Result<
    House,
    (u16, String),
>)
    requires
        old(store)@.wf(),
    ensures
        final(store)@.wf(),
        (final(store)@, one(reply)) == added_house(old(store)@, house_form.name@),
        reply is Ok <==> next_key(old(store)@.houses) <= i32::MAX,
        reply matches Ok(house) ==> !has_key(old(store)@.houses, house.id as int),
{
    let reply = serve(store, Operation::AddHouse { house_form });
    proof {
        law_new_key_is_fresh(old(store)@.houses);
    }
    match reply.body {
        Body::House(row) => Ok(row),
        Body::Text(message) => Err((reply.status, message)),
        _ => vstd::pervasive::unreached(),
    }
}

/// Gives the house with the key the name of the form, and replies with that
/// house. Where no house has the key, nothing changes and it fails with
/// status 500.
pub fn upd_house(store: &mut Store, house_id: i32, house_form: HouseForm) -> (reply: Result<
    House,
    (u16, String),
>)
    requires
        old(store)@.wf(),
    ensures
        final(store)@.wf(),
        (final(store)@, one(reply)) == updated_house(old(store)@, house_id, house_form.name@),
        reply is Ok <==> has_key(old(store)@.houses, house_id as int),
{
    let reply = serve(store, Operation::UpdHouse { house_id, house_form });
    match reply.body {
        Body::House(row) => Ok(row),
        Body::Text(message) => Err((reply.status, message)),
        _ => vstd::pervasive::unreached(),
    }
}

/// Removes the house with the key, if there is one. The reply is the number
/// of houses removed, in decimal digits. The rooms of the house stay.
pub fn del_house(store: &mut Store, house_id: i32) -> (reply: Result<String, (u16, String)>)
    requires
        old(store)@.wf(),
    ensures
        final(store)@.wf(),
        final(store)@ == old(store)@.without_houses(HouseFilterView::WithId(house_id)),
        one(reply) == Ok::<Seq<char>, Failure>(
            decimal(old(store)@.houses_where(HouseFilterView::WithId(house_id)).len()),
        ),
        one(reply) == Ok::<Seq<char>, Failure>(
            if has_key(old(store)@.houses, house_id as int) {
                seq!['1']
            } else {
                seq!['0']
            },
        ),
{
    let reply = serve(store, Operation::DelHouse { house_id });
    proof {
        law_one_house_per_key(old(store)@, house_id);
    }
    match reply.body {
        Body::Count(text) => Ok(text),
        _ => vstd::pervasive::unreached(),
    }
}

/// Removes every device, then every room, then every house. The reply is `true`.
pub fn drop_all(store: &mut Store) -> (reply: Result<bool, (u16, String)>)
    requires
        old(store)@.wf(),
    ensures
        final(store)@ == Tables::empty(),
        reply == Ok::<bool, (u16, String)>(true),
{
    let reply = serve(store, Operation::DropAll);
    match reply.body {
        Body::Flag(flag) => Ok(flag),
        _ => vstd::pervasive::unreached(),
    }
}

/// Lists the rooms of a house, in the order of their keys. Nothing changes.
pub fn get_rooms(store: &mut Store, house_id: i32) -> (reply: Result<Vec<Room>, (u16, String)>)
    requires
        old(store)@.wf(),
    ensures
        final(store)@ == old(store)@,
        many(reply) == Ok::<Seq<RoomView>, Failure>(
            old(store)@.rooms_where(RoomFilterView::InHouse(house_id)),
        ),
{
    let reply = serve(store, Operation::GetRooms { house_id });
    match reply.body {
        Body::Rooms(rows) => Ok(rows),
        _ => vstd::pervasive::unreached(),
    }
}

/// Creates a room with the name of the form in a house, under the key after
/// the last one, and replies with that room. A name may be in use already. It
/// fails, with status 500, where no house has the given key or no key is
/// left; then nothing changes.
pub fn add_room(store: &mut Store, house_id: i32, room_form: RoomForm) -> (reply: Result<
    Room,
    (u16, String),
>)
    requires
        old(store)@.wf(),
    ensures
        final(store)@.wf(),
        (final(store)@, one(reply)) == added_room(old(store)@, house_id, room_form.name@),
        reply is Ok <==> has_key(old(store)@.houses, house_id as int) && next_key(
            old(store)@.rooms,
        ) <= i32::MAX,
        reply matches Ok(room) ==> !has_key(old(store)@.rooms, room.id as int),
{
    let reply = serve(store, Operation::AddRoom { house_id, room_form });
    proof {
        law_new_key_is_fresh(old(store)@.rooms);
    }
    match reply.body {
        Body::Room(row) => Ok(row),
        Body::Text(message) => Err((reply.status, message)),
        _ => vstd::pervasive::unreached(),
    }
}

/// Gives the room with the key the name of the form, and replies with that
/// room. Where no room has the key, nothing changes and it fails with status
/// 500. The house of the path is not looked at.
pub fn upd_room(store: &mut Store, _house_id: i32, room_id: i32, room_form: RoomForm) -> (reply:
    Result<Room, (u16, String)>)
    requires
        old(store)@.wf(),
    ensures
        final(store)@.wf(),
        (final(store)@, one(reply)) == updated_room(old(store)@, room_id, room_form.name@),
        reply is Ok <==> has_key(old(store)@.rooms, room_id as int),
{
    let reply = serve(store, Operation::UpdRoom { room_id, room_form });
    match reply.body {
        Body::Room(row) => Ok(row),
        Body::Text(message) => Err((reply.status, message)),
        _ => vstd::pervasive::unreached(),
    }
}

/// Removes the room with the key, if there is one. The reply is the number of
/// rooms removed, in decimal digits. The devices of the room stay.
pub fn del_room(store: &mut Store, room_id: i32) -> (reply: Result<String, (u16, String)>)
    requires
        old(store)@.wf(),
    ensures
        final(store)@.wf(),
        final(store)@ == old(store)@.without_rooms(RoomFilterView::WithId(room_id)),
        one(reply) == Ok::<Seq<char>, Failure>(
            decimal(old(store)@.rooms_where(RoomFilterView::WithId(room_id)).len()),
        ),
        one(reply) == Ok::<Seq<char>, Failure>(
            if has_key(old(store)@.rooms, room_id as int) {
                seq!['1']
            } else {
                seq!['0']
            },
        ),
{
    let reply = serve(store, Operation::DelRoom { room_id });
    proof {
        law_one_room_per_key(old(store)@, room_id);
    }
    match reply.body {
        Body::Count(text) => Ok(text),
        _ => vstd::pervasive::unreached(),
    }
}

/// Lists the devices of a room, in the order of their keys. Nothing changes.
/// The house of the path is not looked at.
pub fn get_devices(store: &mut Store, _house_id: i32, room_id: i32) -> (reply: Result<
    Vec<Device>,
    (u16, String),
>)
    requires
        old(store)@.wf(),
    ensures
        final(store)@ == old(store)@,
        many(reply) == Ok::<Seq<DeviceView>, Failure>(
            old(store)@.devices_where(DeviceFilterView::InRoom(room_id)),
        ),
{
    let reply = serve(store, Operation::GetDevices { room_id });
    match reply.body {
        Body::Devices(rows) => Ok(rows),
        _ => vstd::pervasive::unreached(),
    }
}

/// Creates a device in a room, with the name and the category of the form,
/// under the key after the last one, and replies with that device. The device
/// is stored switched off: the state of the form is not used. A name may be
/// in use already. It fails, with status 500, where no room has the given key
/// or no key is left; then nothing changes. The house of the path is not
/// looked at.
pub fn add_device(
    store: &mut Store,
    _house_id: i32,
    room_id: i32,
    new_device: PostRequestDevice,
) -> (reply: Result<Device, (u16, String)>)
    requires
        old(store)@.wf(),
    ensures
        final(store)@.wf(),
        (final(store)@, one(reply)) == added_device(
            old(store)@,
            room_id,
            new_device.name@,
            new_device.device@,
        ),
        reply is Ok <==> has_key(old(store)@.rooms, room_id as int) && next_key(
            old(store)@.devices,
        ) <= i32::MAX,
        reply matches Ok(device) ==> !device.state && !has_key(
            old(store)@.devices,
            device.id as int,
        ),
{
    let reply = serve(store, Operation::AddDevice { room_id, device_form: new_device });
    proof {
        law_new_key_is_fresh(old(store)@.devices);
    }
    match reply.body {
        Body::Device(row) => Ok(row),
        Body::Text(message) => Err((reply.status, message)),
        _ => vstd::pervasive::unreached(),
    }
}

/// Gives the device with the key, in the room, the name, the state and the
/// category of the form, and replies with that device. Where the room holds
/// no device with the key, nothing changes and it fails with status 500. The
/// house of the path is not looked at.
pub fn upd_device(
    store: &mut Store,
    _house_id: i32,
    room_id: i32,
    device_id: i32,
    form: PostRequestDevice,
) -> (reply: Result<Device, (u16, String)>)
    requires
        old(store)@.wf(),
    ensures
        final(store)@.wf(),
        (final(store)@, one(reply)) == updated_device(
            old(store)@,
            room_id,
            device_id,
            DeviceChangeView { name: form.name@, state: form.state, device_type: form.device@ },
        ),
        reply is Ok <==> old(store)@.has_device_at(room_id, device_id),
{
    let reply = serve(store, Operation::UpdDevice { room_id, device_id, device_form: form });
    match reply.body {
        Body::Device(row) => Ok(row),
        Body::Text(message) => Err((reply.status, message)),
        _ => vstd::pervasive::unreached(),
    }
}

/// Removes the device with the key, if it is in the room. The reply is the
/// number of devices removed, in decimal digits. The house of the path is not
/// looked at.
pub fn del_device(store: &mut Store, _house_id: i32, room_id: i32, device_id: i32) -> (reply:
    Result<String, (u16, String)>)
    requires
        old(store)@.wf(),
    ensures
        final(store)@.wf(),
        final(store)@ == old(store)@.without_devices(
            DeviceFilterView::At { id: device_id, room: room_id },
        ),
        one(reply) == Ok::<Seq<char>, Failure>(
            decimal(
                old(store)@.devices_where(
                    DeviceFilterView::At { id: device_id, room: room_id },
                ).len(),
            ),
        ),
        one(reply) == Ok::<Seq<char>, Failure>(
            if old(store)@.has_device_at(room_id, device_id) {
                seq!['1']
            } else {
                seq!['0']
            },
        ),
{
    let reply = serve(store, Operation::DelDevice { room_id, device_id });
    proof {
        law_one_device_per_key(old(store)@, room_id, device_id);
    }
    match reply.body {
        Body::Count(text) => Ok(text),
        _ => vstd::pervasive::unreached(),
    }
}

} // verus!

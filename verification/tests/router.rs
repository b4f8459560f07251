use smart_house::exchange::Operation;
use smart_house::handlers::{HouseForm, PostRequestDevice, RoomForm};
use smart_house::router::{handler_at, place, route, Method, Payload, PayloadKind, Place, Route};

#[test]
fn the_six_paths_name_their_places() {
    assert_eq!(place("/house"), Some(Place::Houses));
    assert_eq!(place("/houses/3"), Some(Place::House { house_id: 3 }));
    assert_eq!(place("/houses/3/rooms"), Some(Place::Rooms { house_id: 3 }));
    assert_eq!(place("/houses/3/rooms/14"), Some(Place::Room { house_id: 3, room_id: 14 }));
    assert_eq!(
        place("/houses/3/rooms/14/devices"),
        Some(Place::Devices { house_id: 3, room_id: 14 })
    );
    assert_eq!(
        place("/houses/3/rooms/14/devices/159"),
        Some(Place::Device { house_id: 3, room_id: 14, device_id: 159 })
    );
}

#[test]
fn other_paths_name_nothing() {
    assert_eq!(place(""), None);
    assert_eq!(place("/"), None);
    assert_eq!(place("house"), None);
    assert_eq!(place("/houses"), None);
    assert_eq!(place("/house/1"), None);
    assert_eq!(place("/house/"), None);
    assert_eq!(place("//house"), None);
    assert_eq!(place("/House"), None);
    assert_eq!(place("/houses/"), None);
    assert_eq!(place("/houses/1/"), None);
    assert_eq!(place("/houses//rooms"), None);
    assert_eq!(place("/houses/1/room"), None);
    assert_eq!(place("/houses/1/rooms/"), None);
    assert_eq!(place("/houses/1/rooms/2/device"), None);
    assert_eq!(place("/houses/1/rooms/2/devices/"), None);
    assert_eq!(place("/houses/1/rooms/2/devices/3/"), None);
    assert_eq!(place("/houses/1/rooms/2/devices/3/more"), None);
    assert_eq!(place("/rooms/1"), None);
    assert_eq!(place("/houses/1/devices/2"), None);
    assert_eq!(place("/casas/1"), None);
    assert_eq!(place("/houses/1?x=2"), None);
}

#[test]
fn a_path_outside_ascii_names_nothing() {
    assert_eq!(place("/housé"), None);
    assert_eq!(place("/houses/١"), None);
    assert_eq!(place("/houses/1/rooms/２"), None);
}

#[test]
fn keys_are_decimal_numbers_with_or_without_a_sign() {
    assert_eq!(place("/houses/0"), Some(Place::House { house_id: 0 }));
    assert_eq!(place("/houses/007"), Some(Place::House { house_id: 7 }));
    assert_eq!(place("/houses/+12"), Some(Place::House { house_id: 12 }));
    assert_eq!(place("/houses/-12"), Some(Place::House { house_id: -12 }));
    assert_eq!(place("/houses/-0"), Some(Place::House { house_id: 0 }));
    assert_eq!(place("/houses/2147483647"), Some(Place::House { house_id: i32::MAX }));
    assert_eq!(place("/houses/-2147483648"), Some(Place::House { house_id: i32::MIN }));
    assert_eq!(place("/houses/0000000002147483647"), Some(Place::House { house_id: i32::MAX }));
}

#[test]
fn what_is_no_key_names_nothing() {
    assert_eq!(place("/houses/2147483648"), None);
    assert_eq!(place("/houses/-2147483649"), None);
    assert_eq!(place("/houses/99999999999999999999999999"), None);
    assert_eq!(place("/houses/+"), None);
    assert_eq!(place("/houses/-"), None);
    assert_eq!(place("/houses/+-1"), None);
    assert_eq!(place("/houses/1+"), None);
    assert_eq!(place("/houses/12a"), None);
    assert_eq!(place("/houses/a12"), None);
    assert_eq!(place("/houses/1.5"), None);
    assert_eq!(place("/houses/ 1"), None);
    assert_eq!(place("/houses/0x10"), None);
    assert_eq!(place("/houses/1/rooms/x"), None);
    assert_eq!(place("/houses/1/rooms/2/devices/y"), None);
    assert_eq!(place("/houses/99999999999/rooms"), None);
}

#[test]
fn each_place_has_its_methods() {
    let houses = Place::Houses;
    assert_eq!(handler_at(Method::Get, houses), Some(Route::ListHouses));
    assert_eq!(handler_at(Method::Post, houses), Some(Route::AddHouse));
    assert_eq!(handler_at(Method::Delete, houses), Some(Route::DropAll));
    assert_eq!(handler_at(Method::Put, houses), None);

    let house = Place::House { house_id: 1 };
    assert_eq!(handler_at(Method::Put, house), Some(Route::UpdHouse { house_id: 1 }));
    assert_eq!(handler_at(Method::Delete, house), Some(Route::DelHouse { house_id: 1 }));
    assert_eq!(handler_at(Method::Get, house), None);
    assert_eq!(handler_at(Method::Post, house), None);

    let rooms = Place::Rooms { house_id: 1 };
    assert_eq!(handler_at(Method::Get, rooms), Some(Route::GetRooms { house_id: 1 }));
    assert_eq!(handler_at(Method::Post, rooms), Some(Route::AddRoom { house_id: 1 }));
    assert_eq!(handler_at(Method::Put, rooms), None);
    assert_eq!(handler_at(Method::Delete, rooms), None);

    let room = Place::Room { house_id: 1, room_id: 2 };
    assert_eq!(handler_at(Method::Put, room), Some(Route::UpdRoom { house_id: 1, room_id: 2 }));
    assert_eq!(
        handler_at(Method::Delete, room),
        Some(Route::DelRoom { house_id: 1, room_id: 2 })
    );
    assert_eq!(handler_at(Method::Get, room), None);
    assert_eq!(handler_at(Method::Post, room), None);

    let devices = Place::Devices { house_id: 1, room_id: 2 };
    assert_eq!(
        handler_at(Method::Get, devices),
        Some(Route::GetDevices { house_id: 1, room_id: 2 })
    );
    assert_eq!(
        handler_at(Method::Post, devices),
        Some(Route::AddDevice { house_id: 1, room_id: 2 })
    );
    assert_eq!(handler_at(Method::Put, devices), None);
    assert_eq!(handler_at(Method::Delete, devices), None);

    let device = Place::Device { house_id: 1, room_id: 2, device_id: 3 };
    assert_eq!(
        handler_at(Method::Put, device),
        Some(Route::UpdDevice { house_id: 1, room_id: 2, device_id: 3 })
    );
    assert_eq!(
        handler_at(Method::Delete, device),
        Some(Route::DelDevice { house_id: 1, room_id: 2, device_id: 3 })
    );
    assert_eq!(handler_at(Method::Get, device), None);
    assert_eq!(handler_at(Method::Post, device), None);
}

#[test]
fn a_route_is_the_handler_at_the_place_of_the_path() {
    assert_eq!(route(Method::Get, "/house"), Some(Route::ListHouses));
    assert_eq!(route(Method::Post, "/house"), Some(Route::AddHouse));
    assert_eq!(route(Method::Delete, "/house"), Some(Route::DropAll));
    assert_eq!(route(Method::Put, "/house"), None);
    assert_eq!(route(Method::Put, "/houses/5"), Some(Route::UpdHouse { house_id: 5 }));
    assert_eq!(route(Method::Get, "/houses/5"), None);
    assert_eq!(route(Method::Get, "/nowhere"), None);
    assert_eq!(
        route(Method::Delete, "/houses/5/rooms/6/devices/7"),
        Some(Route::DelDevice { house_id: 5, room_id: 6, device_id: 7 })
    );
}

#[test]
fn routes_that_create_or_change_take_a_form() {
    assert_eq!(Route::ListHouses.payload_kind(), PayloadKind::Nothing);
    assert_eq!(Route::DropAll.payload_kind(), PayloadKind::Nothing);
    assert_eq!(Route::AddHouse.payload_kind(), PayloadKind::House);
    assert_eq!(Route::UpdHouse { house_id: 1 }.payload_kind(), PayloadKind::House);
    assert_eq!(Route::DelHouse { house_id: 1 }.payload_kind(), PayloadKind::Nothing);
    assert_eq!(Route::GetRooms { house_id: 1 }.payload_kind(), PayloadKind::Nothing);
    assert_eq!(Route::AddRoom { house_id: 1 }.payload_kind(), PayloadKind::Room);
    assert_eq!(Route::UpdRoom { house_id: 1, room_id: 2 }.payload_kind(), PayloadKind::Room);
    assert_eq!(Route::DelRoom { house_id: 1, room_id: 2 }.payload_kind(), PayloadKind::Nothing);
    assert_eq!(
        Route::GetDevices { house_id: 1, room_id: 2 }.payload_kind(),
        PayloadKind::Nothing
    );
    assert_eq!(Route::AddDevice { house_id: 1, room_id: 2 }.payload_kind(), PayloadKind::Device);
    assert_eq!(
        Route::UpdDevice { house_id: 1, room_id: 2, device_id: 3 }.payload_kind(),
        PayloadKind::Device
    );
    assert_eq!(
        Route::DelDevice { house_id: 1, room_id: 2, device_id: 3 }.payload_kind(),
        PayloadKind::Nothing
    );
}

#[test]
fn an_operation_is_made_of_a_route_and_its_form() {
    let house = || HouseForm { name: "casa".to_string() };
    let room = || RoomForm { name: "sala".to_string() };
    let device =
        || PostRequestDevice { name: "tv".to_string(), state: true, device: "Socket".to_string() };

    assert_eq!(Route::ListHouses.operation(Payload::Nothing), Some(Operation::ListHouses));
    assert_eq!(Route::DropAll.operation(Payload::Nothing), Some(Operation::DropAll));
    assert_eq!(
        Route::AddHouse.operation(Payload::House(house())),
        Some(Operation::AddHouse { house_form: house() })
    );
    assert_eq!(
        Route::UpdHouse { house_id: 4 }.operation(Payload::House(house())),
        Some(Operation::UpdHouse { house_id: 4, house_form: house() })
    );
    assert_eq!(
        Route::DelHouse { house_id: 4 }.operation(Payload::Nothing),
        Some(Operation::DelHouse { house_id: 4 })
    );
    assert_eq!(
        Route::GetRooms { house_id: 4 }.operation(Payload::Nothing),
        Some(Operation::GetRooms { house_id: 4 })
    );
    assert_eq!(
        Route::AddRoom { house_id: 4 }.operation(Payload::Room(room())),
        Some(Operation::AddRoom { house_id: 4, room_form: room() })
    );
    assert_eq!(
        Route::UpdRoom { house_id: 4, room_id: 5 }.operation(Payload::Room(room())),
        Some(Operation::UpdRoom { room_id: 5, room_form: room() })
    );
    assert_eq!(
        Route::DelRoom { house_id: 4, room_id: 5 }.operation(Payload::Nothing),
        Some(Operation::DelRoom { room_id: 5 })
    );
    assert_eq!(
        Route::GetDevices { house_id: 4, room_id: 5 }.operation(Payload::Nothing),
        Some(Operation::GetDevices { room_id: 5 })
    );
    assert_eq!(
        Route::AddDevice { house_id: 4, room_id: 5 }.operation(Payload::Device(device())),
        Some(Operation::AddDevice { room_id: 5, device_form: device() })
    );
    assert_eq!(
        Route::UpdDevice { house_id: 4, room_id: 5, device_id: 6 }
            .operation(Payload::Device(device())),
        Some(Operation::UpdDevice { room_id: 5, device_id: 6, device_form: device() })
    );
    assert_eq!(
        Route::DelDevice { house_id: 4, room_id: 5, device_id: 6 }.operation(Payload::Nothing),
        Some(Operation::DelDevice { room_id: 5, device_id: 6 })
    );
}

#[test]
fn a_body_of_another_kind_makes_no_operation() {
    let house = || HouseForm { name: "casa".to_string() };
    let room = || RoomForm { name: "sala".to_string() };
    assert_eq!(Route::ListHouses.operation(Payload::House(house())), None);
    assert_eq!(Route::AddHouse.operation(Payload::Nothing), None);
    assert_eq!(Route::AddHouse.operation(Payload::Room(room())), None);
    assert_eq!(Route::AddRoom { house_id: 1 }.operation(Payload::House(house())), None);
    assert_eq!(Route::AddDevice { house_id: 1, room_id: 2 }.operation(Payload::Room(room())), None);
    assert_eq!(Route::DelHouse { house_id: 1 }.operation(Payload::House(house())), None);
}

#[test]
fn a_key_may_be_written_with_escapes() {
    assert_eq!(place("/houses/%31"), Some(Place::House { house_id: 1 }));
    assert_eq!(place("/houses/%31%32"), Some(Place::House { house_id: 12 }));
    assert_eq!(place("/houses/1%302"), Some(Place::House { house_id: 102 }));
    assert_eq!(place("/houses/%2B7"), Some(Place::House { house_id: 7 }));
    assert_eq!(place("/houses/%2b7"), Some(Place::House { house_id: 7 }));
    assert_eq!(place("/houses/%2D7"), Some(Place::House { house_id: -7 }));
    assert_eq!(place("/houses/%2d%37"), Some(Place::House { house_id: -7 }));
    assert_eq!(
        place("/houses/%31/rooms/%32/devices/%33"),
        Some(Place::Device { house_id: 1, room_id: 2, device_id: 3 })
    );
    assert_eq!(
        place("/houses/%32%31%34%37%34%38%33%36%34%37"),
        Some(Place::House { house_id: i32::MAX })
    );
}

#[test]
fn an_escape_that_writes_no_digit_makes_no_key() {
    assert_eq!(place("/houses/%"), None);
    assert_eq!(place("/houses/%3"), None);
    assert_eq!(place("/houses/1%"), None);
    assert_eq!(place("/houses/1%3"), None);
    assert_eq!(place("/houses/%zz"), None);
    assert_eq!(place("/houses/%3g"), None);
    assert_eq!(place("/houses/%41"), None);
    assert_eq!(place("/houses/%20%31"), None);
    assert_eq!(place("/houses/%00"), None);
    assert_eq!(place("/houses/%C3%A9"), None);
    assert_eq!(place("/houses/%ff"), None);
    assert_eq!(place("/houses/%2531"), None);
    assert_eq!(place("/houses/1%2Frooms"), None);
    assert_eq!(place("/houses/%32%31%34%37%34%38%33%36%34%38"), None);
}

#[test]
fn a_word_is_not_written_with_escapes() {
    assert_eq!(place("/hous%65"), None);
    assert_eq!(place("/hous%65s/1"), None);
    assert_eq!(place("/houses/1/%72ooms"), None);
    assert_eq!(place("/houses%2F1"), None);
    assert_eq!(place("%2Fhouse"), None);
}

use smart_house::handlers::{
    add_device, add_house, add_room, del_device, del_house, del_room, drop_all, get_devices,
    get_rooms, list_houses, upd_device, upd_house, upd_room, HouseForm, PostRequestDevice,
    RoomForm,
};
use smart_house::models::{Device, House, Room};
use smart_house::store::Store;

fn house_form(name: &str) -> HouseForm {
    HouseForm { name: name.to_string() }
}

fn room_form(name: &str) -> RoomForm {
    RoomForm { name: name.to_string() }
}

fn device_form(name: &str, state: bool, device: &str) -> PostRequestDevice {
    PostRequestDevice { name: name.to_string(), state, device: device.to_string() }
}

fn house(id: i32, name: &str) -> House {
    House { id, name: name.to_string() }
}

fn room(id: i32, house: i32, name: &str) -> Room {
    Room { id, house, name: name.to_string() }
}

fn device(id: i32, room: i32, name: &str, device_type: &str, state: bool) -> Device {
    Device { id, room, name: name.to_string(), device_type: device_type.to_string(), state }
}

fn failure(text: &str) -> (u16, String) {
    (500, text.to_string())
}

/// A store with one house (key 1), one room in it (key 1) and one device in
/// that room (key 1, off).
fn furnished() -> Store {
    let mut store = Store::new();
    add_house(&mut store, house_form("casa")).unwrap();
    add_room(&mut store, 1, room_form("cocina")).unwrap();
    add_device(&mut store, 1, 1, device_form("luz", false, "Socket")).unwrap();
    store
}

#[test]
fn a_new_store_lists_no_houses() {
    let mut store = Store::new();
    assert_eq!(list_houses(&mut store), Vec::<House>::new());
}

#[test]
fn houses_get_keys_in_the_order_of_their_creation() {
    let mut store = Store::new();
    assert_eq!(add_house(&mut store, house_form("uno")), Ok(house(1, "uno")));
    assert_eq!(add_house(&mut store, house_form("dos")), Ok(house(2, "dos")));
    assert_eq!(add_house(&mut store, house_form("tres")), Ok(house(3, "tres")));
    assert_eq!(
        list_houses(&mut store),
        vec![house(1, "uno"), house(2, "dos"), house(3, "tres")]
    );
}

#[test]
fn a_house_may_have_an_empty_name() {
    let mut store = Store::new();
    assert_eq!(add_house(&mut store, house_form("")), Ok(house(1, "")));
    assert_eq!(list_houses(&mut store), vec![house(1, "")]);
}

#[test]
fn a_second_house_of_a_name_is_stored_and_replied() {
    let mut store = Store::new();
    assert_eq!(add_house(&mut store, house_form("a")), Ok(house(1, "a")));
    assert_eq!(add_house(&mut store, house_form("a")), Ok(house(2, "a")));
    assert_eq!(list_houses(&mut store), vec![house(1, "a"), house(2, "a")]);
}

#[test]
fn the_key_after_a_deleted_last_house_is_used_again() {
    let mut store = Store::new();
    add_house(&mut store, house_form("uno")).unwrap();
    add_house(&mut store, house_form("dos")).unwrap();
    assert_eq!(del_house(&mut store, 2), Ok("1".to_string()));
    assert_eq!(add_house(&mut store, house_form("tres")), Ok(house(2, "tres")));
    assert_eq!(del_house(&mut store, 1), Ok("1".to_string()));
    assert_eq!(add_house(&mut store, house_form("cuatro")), Ok(house(3, "cuatro")));
}

#[test]
fn no_house_is_added_after_the_largest_key() {
    let mut store = Store::with_rows(vec![house(i32::MAX, "ultima")], vec![], vec![]).unwrap();
    assert_eq!(
        add_house(&mut store, house_form("otra")),
        Err(failure("database or disk is full"))
    );
    assert_eq!(list_houses(&mut store), vec![house(i32::MAX, "ultima")]);
}

#[test]
fn a_house_is_added_under_the_largest_key() {
    let mut store = Store::with_rows(vec![house(i32::MAX - 1, "penultima")], vec![], vec![]).unwrap();
    assert_eq!(add_house(&mut store, house_form("ultima")), Ok(house(i32::MAX, "ultima")));
}

#[test]
fn renaming_a_house_keeps_its_key_and_its_place() {
    let mut store = Store::new();
    add_house(&mut store, house_form("uno")).unwrap();
    add_house(&mut store, house_form("dos")).unwrap();
    add_house(&mut store, house_form("tres")).unwrap();
    assert_eq!(upd_house(&mut store, 2, house_form("segunda")), Ok(house(2, "segunda")));
    assert_eq!(
        list_houses(&mut store),
        vec![house(1, "uno"), house(2, "segunda"), house(3, "tres")]
    );
}

#[test]
fn renaming_a_missing_house_is_not_found() {
    let mut store = Store::new();
    add_house(&mut store, house_form("uno")).unwrap();
    assert_eq!(upd_house(&mut store, 7, house_form("siete")), Err(failure("Record not found")));
    assert_eq!(list_houses(&mut store), vec![house(1, "uno")]);
}

#[test]
fn deleting_a_house_counts_what_it_removed() {
    let mut store = Store::new();
    add_house(&mut store, house_form("uno")).unwrap();
    add_house(&mut store, house_form("dos")).unwrap();
    assert_eq!(del_house(&mut store, 1), Ok("1".to_string()));
    assert_eq!(del_house(&mut store, 1), Ok("0".to_string()));
    assert_eq!(del_house(&mut store, 9), Ok("0".to_string()));
    assert_eq!(list_houses(&mut store), vec![house(2, "dos")]);
}

#[test]
fn deleting_a_house_leaves_its_rooms_and_devices() {
    let mut store = furnished();
    assert_eq!(del_house(&mut store, 1), Ok("1".to_string()));
    assert_eq!(list_houses(&mut store), Vec::<House>::new());
    assert_eq!(get_rooms(&mut store, 1), Ok(vec![room(1, 1, "cocina")]));
    assert_eq!(get_devices(&mut store, 1, 1), Ok(vec![device(1, 1, "luz", "Socket", false)]));
}

#[test]
fn dropping_all_empties_every_table() {
    let mut store = furnished();
    add_house(&mut store, house_form("otra")).unwrap();
    add_room(&mut store, 2, room_form("sala")).unwrap();
    assert_eq!(drop_all(&mut store), Ok(true));
    assert_eq!(list_houses(&mut store), Vec::<House>::new());
    assert_eq!(get_rooms(&mut store, 1), Ok(vec![]));
    assert_eq!(get_rooms(&mut store, 2), Ok(vec![]));
    assert_eq!(get_devices(&mut store, 1, 1), Ok(vec![]));
}

#[test]
fn dropping_all_of_an_empty_store_succeeds() {
    let mut store = Store::new();
    assert_eq!(drop_all(&mut store), Ok(true));
    assert_eq!(list_houses(&mut store), Vec::<House>::new());
}

#[test]
fn keys_start_again_at_one_after_dropping_all() {
    let mut store = furnished();
    drop_all(&mut store).unwrap();
    assert_eq!(add_house(&mut store, house_form("nueva")), Ok(house(1, "nueva")));
    assert_eq!(add_room(&mut store, 1, room_form("sala")), Ok(room(1, 1, "sala")));
    assert_eq!(
        add_device(&mut store, 1, 1, device_form("t", false, "termometro")),
        Ok(device(1, 1, "t", "termometro", false))
    );
}

#[test]
fn a_room_needs_a_stored_house() {
    let mut store = Store::new();
    assert_eq!(add_room(&mut store, 1, room_form("cocina")), Err(failure("Record not found")));
    assert_eq!(get_rooms(&mut store, 1), Ok(vec![]));
    add_house(&mut store, house_form("casa")).unwrap();
    assert_eq!(add_room(&mut store, 2, room_form("cocina")), Err(failure("Record not found")));
    assert_eq!(get_rooms(&mut store, 2), Ok(vec![]));
    assert_eq!(add_room(&mut store, 1, room_form("cocina")), Ok(room(1, 1, "cocina")));
}

#[test]
fn no_room_is_added_after_the_largest_key() {
    let mut store =
        Store::with_rows(vec![house(1, "casa")], vec![room(i32::MAX, 1, "ultima")], vec![])
            .unwrap();
    assert_eq!(
        add_room(&mut store, 1, room_form("otra")),
        Err(failure("database or disk is full"))
    );
    assert_eq!(add_room(&mut store, 5, room_form("otra")), Err(failure("Record not found")));
    assert_eq!(get_rooms(&mut store, 1), Ok(vec![room(i32::MAX, 1, "ultima")]));
}

#[test]
fn rooms_are_listed_by_house() {
    let mut store = Store::new();
    add_house(&mut store, house_form("uno")).unwrap();
    add_house(&mut store, house_form("dos")).unwrap();
    assert_eq!(add_room(&mut store, 1, room_form("cocina")), Ok(room(1, 1, "cocina")));
    assert_eq!(add_room(&mut store, 2, room_form("sala")), Ok(room(2, 2, "sala")));
    assert_eq!(add_room(&mut store, 1, room_form("bano")), Ok(room(3, 1, "bano")));
    assert_eq!(get_rooms(&mut store, 1), Ok(vec![room(1, 1, "cocina"), room(3, 1, "bano")]));
    assert_eq!(get_rooms(&mut store, 2), Ok(vec![room(2, 2, "sala")]));
    assert_eq!(get_rooms(&mut store, 3), Ok(vec![]));
}

#[test]
fn rooms_of_one_name_get_keys_of_their_own() {
    let mut store = Store::new();
    add_house(&mut store, house_form("uno")).unwrap();
    add_house(&mut store, house_form("dos")).unwrap();
    assert_eq!(add_room(&mut store, 1, room_form("cocina")), Ok(room(1, 1, "cocina")));
    assert_eq!(add_room(&mut store, 2, room_form("cocina")), Ok(room(2, 2, "cocina")));
    assert_eq!(add_room(&mut store, 2, room_form("cocina")), Ok(room(3, 2, "cocina")));
    assert_eq!(get_rooms(&mut store, 1), Ok(vec![room(1, 1, "cocina")]));
    assert_eq!(get_rooms(&mut store, 2), Ok(vec![room(2, 2, "cocina"), room(3, 2, "cocina")]));
}

#[test]
fn renaming_a_room_keeps_its_key_and_its_house() {
    let mut store = furnished();
    add_room(&mut store, 1, room_form("sala")).unwrap();
    assert_eq!(upd_room(&mut store, 1, 2, room_form("salon")), Ok(room(2, 1, "salon")));
    assert_eq!(get_rooms(&mut store, 1), Ok(vec![room(1, 1, "cocina"), room(2, 1, "salon")]));
}

#[test]
fn renaming_a_room_goes_by_its_key_alone() {
    let mut store = furnished();
    add_house(&mut store, house_form("otra")).unwrap();
    assert_eq!(upd_room(&mut store, 2, 1, room_form("salon")), Ok(room(1, 1, "salon")));
    assert_eq!(upd_room(&mut store, 77, 1, room_form("sala")), Ok(room(1, 1, "sala")));
    assert_eq!(get_rooms(&mut store, 1), Ok(vec![room(1, 1, "sala")]));
    assert_eq!(get_rooms(&mut store, 2), Ok(vec![]));
}

#[test]
fn renaming_a_room_to_a_name_in_use_replies_with_the_renamed_room() {
    let mut store = furnished();
    add_room(&mut store, 1, room_form("sala")).unwrap();
    assert_eq!(upd_room(&mut store, 1, 2, room_form("cocina")), Ok(room(2, 1, "cocina")));
    assert_eq!(get_rooms(&mut store, 1), Ok(vec![room(1, 1, "cocina"), room(2, 1, "cocina")]));
}

#[test]
fn renaming_a_missing_room_is_not_found() {
    let mut store = furnished();
    assert_eq!(upd_room(&mut store, 1, 9, room_form("cocina")), Err(failure("Record not found")));
    assert_eq!(upd_room(&mut store, 1, 9, room_form("sala")), Err(failure("Record not found")));
    assert_eq!(get_rooms(&mut store, 1), Ok(vec![room(1, 1, "cocina")]));
}

#[test]
fn deleting_a_room_counts_what_it_removed() {
    let mut store = furnished();
    add_room(&mut store, 1, room_form("sala")).unwrap();
    assert_eq!(del_room(&mut store, 1), Ok("1".to_string()));
    assert_eq!(del_room(&mut store, 1), Ok("0".to_string()));
    assert_eq!(get_rooms(&mut store, 1), Ok(vec![room(2, 1, "sala")]));
}

#[test]
fn deleting_a_room_leaves_its_devices() {
    let mut store = furnished();
    assert_eq!(del_room(&mut store, 1), Ok("1".to_string()));
    assert_eq!(get_devices(&mut store, 1, 1), Ok(vec![device(1, 1, "luz", "Socket", false)]));
}

#[test]
fn a_device_needs_a_stored_room() {
    let mut store = Store::new();
    add_house(&mut store, house_form("casa")).unwrap();
    assert_eq!(
        add_device(&mut store, 1, 1, device_form("t", false, "termometro")),
        Err(failure("Record not found"))
    );
    assert_eq!(get_devices(&mut store, 1, 1), Ok(vec![]));
}

#[test]
fn no_device_is_added_after_the_largest_key() {
    let mut store = Store::with_rows(
        vec![house(1, "casa")],
        vec![room(1, 1, "cocina")],
        vec![device(i32::MAX, 1, "ultimo", "Socket", true)],
    )
    .unwrap();
    assert_eq!(
        add_device(&mut store, 1, 1, device_form("otro", false, "Socket")),
        Err(failure("database or disk is full"))
    );
    assert_eq!(
        get_devices(&mut store, 1, 1),
        Ok(vec![device(i32::MAX, 1, "ultimo", "Socket", true)])
    );
}

#[test]
fn a_new_device_is_off_whatever_the_request_says() {
    let mut store = furnished();
    assert_eq!(
        add_device(&mut store, 1, 1, device_form("t", true, "termometro")),
        Ok(device(2, 1, "t", "termometro", false))
    );
    assert_eq!(
        get_devices(&mut store, 1, 1),
        Ok(vec![device(1, 1, "luz", "Socket", false), device(2, 1, "t", "termometro", false)])
    );
}

#[test]
fn a_second_device_of_a_name_is_stored_and_replied_off() {
    let mut store = furnished();
    assert_eq!(
        upd_device(&mut store, 1, 1, 1, device_form("luz", true, "Socket")),
        Ok(device(1, 1, "luz", "Socket", true))
    );
    assert_eq!(
        add_device(&mut store, 1, 1, device_form("luz", true, "Lamp")),
        Ok(device(2, 1, "luz", "Lamp", false))
    );
    assert_eq!(
        get_devices(&mut store, 1, 1),
        Ok(vec![device(1, 1, "luz", "Socket", true), device(2, 1, "luz", "Lamp", false)])
    );
}

#[test]
fn the_house_of_the_path_does_not_matter_to_devices() {
    let mut store = furnished();
    assert_eq!(
        add_device(&mut store, 99, 1, device_form("t", false, "termometro")),
        Ok(device(2, 1, "t", "termometro", false))
    );
    assert_eq!(
        get_devices(&mut store, 42, 1),
        Ok(vec![device(1, 1, "luz", "Socket", false), device(2, 1, "t", "termometro", false)])
    );
    assert_eq!(
        upd_device(&mut store, 7, 1, 2, device_form("t2", true, "sensor")),
        Ok(device(2, 1, "t2", "sensor", true))
    );
    assert_eq!(del_device(&mut store, 8, 1, 2), Ok("1".to_string()));
}

#[test]
fn devices_are_listed_by_room() {
    let mut store = furnished();
    add_room(&mut store, 1, room_form("sala")).unwrap();
    add_device(&mut store, 1, 2, device_form("tv", false, "Socket")).unwrap();
    add_device(&mut store, 1, 1, device_form("t", false, "termometro")).unwrap();
    assert_eq!(
        get_devices(&mut store, 1, 1),
        Ok(vec![device(1, 1, "luz", "Socket", false), device(3, 1, "t", "termometro", false)])
    );
    assert_eq!(get_devices(&mut store, 1, 2), Ok(vec![device(2, 2, "tv", "Socket", false)]));
    assert_eq!(get_devices(&mut store, 1, 3), Ok(vec![]));
}

#[test]
fn updating_a_device_sets_name_state_and_category() {
    let mut store = furnished();
    assert_eq!(
        upd_device(&mut store, 1, 1, 1, device_form("lampara", true, "Lamp")),
        Ok(device(1, 1, "lampara", "Lamp", true))
    );
    assert_eq!(get_devices(&mut store, 1, 1), Ok(vec![device(1, 1, "lampara", "Lamp", true)]));
    assert_eq!(
        upd_device(&mut store, 1, 1, 1, device_form("lampara", false, "Lamp")),
        Ok(device(1, 1, "lampara", "Lamp", false))
    );
}

#[test]
fn updating_a_device_in_another_room_is_not_found() {
    let mut store = furnished();
    add_room(&mut store, 1, room_form("sala")).unwrap();
    assert_eq!(
        upd_device(&mut store, 1, 2, 1, device_form("lampara", true, "Lamp")),
        Err(failure("Record not found"))
    );
    assert_eq!(
        upd_device(&mut store, 1, 1, 5, device_form("lampara", true, "Lamp")),
        Err(failure("Record not found"))
    );
    assert_eq!(get_devices(&mut store, 1, 1), Ok(vec![device(1, 1, "luz", "Socket", false)]));
}

#[test]
fn deleting_a_device_counts_what_it_removed() {
    let mut store = furnished();
    assert_eq!(del_device(&mut store, 1, 2, 1), Ok("0".to_string()));
    assert_eq!(del_device(&mut store, 1, 1, 2), Ok("0".to_string()));
    assert_eq!(del_device(&mut store, 1, 1, 1), Ok("1".to_string()));
    assert_eq!(del_device(&mut store, 1, 1, 1), Ok("0".to_string()));
    assert_eq!(get_devices(&mut store, 1, 1), Ok(vec![]));
}

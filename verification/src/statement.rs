//! What the storage is asked to do, and what it answers.
//!
//! A `Statement` is one typed query on one table: load the rows that a filter
//! admits, fetch the first of them, insert a row and get it back with its
//! key, change or delete the rows that a filter admits. An `Outcome` is the
//! answer to a statement that succeeded, a `StorageError` the reason why one
//! did not. Each table has its own filter type; `Filter` and `Change` are
//! what the filters and the changes of all tables have in common.

use vstd::prelude::*;
use vstd::string::StringExecFns;
use crate::models::{
    Device, DeviceView, House, HouseView, NewDevice, NewHouse, NewRoom, Room, RoomView,
};

verus! {

/// The predicate of what another predicate holds back.
pub open spec fn except<V>(pred: spec_fn(V) -> bool) -> spec_fn(V) -> bool {
    |row: V| !pred(row)
}

/// The views of a sequence of values, in the same order.
pub open spec fn views<T: View>(rows: Seq<T>) -> Seq<T::V> {
    rows.map_values(|row: T| row@)
}

/// A condition on the rows of one table.
pub trait Filter<R: View> {
    /// The predicate of the rows that the filter admits.
    spec fn admitting(&self) -> spec_fn(R::V) -> bool;

    /// Tests one stored row against the filter.
    fn admits(&self, row: &R) -> (yes: bool)
        ensures
            yes == (self.admitting())(row@),
    ;
}

/// New values for some columns of a row.
pub trait Change<R: View> {
    /// The row with the new values, as a function of the row.
    spec fn changing(&self) -> spec_fn(R::V) -> R::V;

    /// The row with the new values.
    fn change(&self, row: &R) -> (changed: R)
        ensures
            changed@ == (self.changing())(row@),
    ;
}

/// Which houses a statement is about.
#[derive(Debug, PartialEq, Eq)]
pub enum HouseFilter {
    /// Every house.
    All,
    /// The house with this key.
    WithId(i32),
}

/// What a `HouseFilter` stands for in contracts.
pub enum HouseFilterView {
    All,
    WithId(i32),
}

impl View for HouseFilter {
    type V = HouseFilterView;

    open spec fn view(&self) -> HouseFilterView {
        match self {
            HouseFilter::All => HouseFilterView::All,
            HouseFilter::WithId(id) => HouseFilterView::WithId(*id),
        }
    }
}

impl HouseFilterView {
    /// Whether the filter lets this row through.
    pub open spec fn admits(self, row: HouseView) -> bool {
        match self {
            HouseFilterView::All => true,
            HouseFilterView::WithId(id) => row.id == id,
        }
    }

    /// `admits` as a predicate on rows.
    pub open spec fn pred(self) -> spec_fn(HouseView) -> bool {
        |row: HouseView| self.admits(row)
    }
}

impl Filter<House> for HouseFilter {
    open spec fn admitting(&self) -> spec_fn(HouseView) -> bool {
        self@.pred()
    }

    fn admits(&self, row: &House) -> (yes: bool) {
        match self {
            HouseFilter::All => true,
            HouseFilter::WithId(id) => row.id == *id,
        }
    }
}

/// Which rooms a statement is about.
#[derive(Debug, PartialEq, Eq)]
pub enum RoomFilter {
    /// Every room.
    All,
    /// The rooms of this house.
    InHouse(i32),
    /// The room with this key.
    WithId(i32),
}

/// What a `RoomFilter` stands for in contracts.
pub enum RoomFilterView {
    All,
    InHouse(i32),
    WithId(i32),
}

impl View for RoomFilter {
    type V = RoomFilterView;

    open spec fn view(&self) -> RoomFilterView {
        match self {
            RoomFilter::All => RoomFilterView::All,
            RoomFilter::InHouse(house) => RoomFilterView::InHouse(*house),
            RoomFilter::WithId(id) => RoomFilterView::WithId(*id),
        }
    }
}

impl RoomFilterView {
    /// Whether the filter lets this row through.
    pub open spec fn admits(self, row: RoomView) -> bool {
        match self {
            RoomFilterView::All => true,
            RoomFilterView::InHouse(house) => row.house == house,
            RoomFilterView::WithId(id) => row.id == id,
        }
    }

    /// `admits` as a predicate on rows.
    pub open spec fn pred(self) -> spec_fn(RoomView) -> bool {
        |row: RoomView| self.admits(row)
    }
}

impl Filter<Room> for RoomFilter {
    open spec fn admitting(&self) -> spec_fn(RoomView) -> bool {
        self@.pred()
    }

    fn admits(&self, row: &Room) -> (yes: bool) {
        match self {
            RoomFilter::All => true,
            RoomFilter::InHouse(house) => row.house == *house,
            RoomFilter::WithId(id) => row.id == *id,
        }
    }
}

/// Which devices a statement is about.
#[derive(Debug, PartialEq, Eq)]
pub enum DeviceFilter {
    /// Every device.
    All,
    /// The devices of this room.
    InRoom(i32),
    /// The device with this key, if it is in this room.
    At { id: i32, room: i32 },
}

/// What a `DeviceFilter` stands for in contracts.
pub enum DeviceFilterView {
    All,
    InRoom(i32),
    At { id: i32, room: i32 },
}

impl View for DeviceFilter {
    type V = DeviceFilterView;

    open spec fn view(&self) -> DeviceFilterView {
        match self {
            DeviceFilter::All => DeviceFilterView::All,
            DeviceFilter::InRoom(room) => DeviceFilterView::InRoom(*room),
            DeviceFilter::At { id, room } => DeviceFilterView::At { id: *id, room: *room },
        }
    }
}

impl DeviceFilterView {
    /// Whether the filter lets this row through.
    pub open spec fn admits(self, row: DeviceView) -> bool {
        match self {
            DeviceFilterView::All => true,
            DeviceFilterView::InRoom(room) => row.room == room,
            DeviceFilterView::At { id, room } => row.id == id && row.room == room,
        }
    }

    /// `admits` as a predicate on rows.
    pub open spec fn pred(self) -> spec_fn(DeviceView) -> bool {
        |row: DeviceView| self.admits(row)
    }
}

impl Filter<Device> for DeviceFilter {
    open spec fn admitting(&self) -> spec_fn(DeviceView) -> bool {
        self@.pred()
    }

    fn admits(&self, row: &Device) -> (yes: bool) {
        match self {
            DeviceFilter::All => true,
            DeviceFilter::InRoom(room) => row.room == *room,
            DeviceFilter::At { id, room } => row.id == *id && row.room == *room,
        }
    }
}

/// The columns of a device that an update replaces.
#[derive(Debug, PartialEq, Eq)]
pub struct DeviceChange {
    pub name: String,
    pub state: bool,
    pub device_type: String,
}

/// What a `DeviceChange` stands for in contracts.
pub struct DeviceChangeView {
    pub name: Seq<char>,
    pub state: bool,
    pub device_type: Seq<char>,
}

impl View for DeviceChange {
    type V = DeviceChangeView;

    open spec fn view(&self) -> DeviceChangeView {
        DeviceChangeView { name: self.name@, state: self.state, device_type: self.device_type@ }
    }
}

/// The house with another name.
pub open spec fn house_named(name: Seq<char>) -> spec_fn(HouseView) -> HouseView {
    |row: HouseView| HouseView { id: row.id, name }
}

/// The room with another name.
pub open spec fn room_named(name: Seq<char>) -> spec_fn(RoomView) -> RoomView {
    |row: RoomView| RoomView { id: row.id, house: row.house, name }
}

/// The device with another name, state and category.
pub open spec fn device_changed(change: DeviceChangeView) -> spec_fn(DeviceView) -> DeviceView {
    |row: DeviceView|
        DeviceView {
            id: row.id,
            room: row.room,
            name: change.name,
            device_type: change.device_type,
            state: change.state,
        }
}

/// A name is a change of a house: the house gets the name.
impl Change<House> for String {
    open spec fn changing(&self) -> spec_fn(HouseView) -> HouseView {
        house_named(self@)
    }

    fn change(&self, row: &House) -> (changed: House) {
        House { id: row.id, name: self.clone() }
    }
}

/// A name is a change of a room: the room gets the name.
impl Change<Room> for String {
    open spec fn changing(&self) -> spec_fn(RoomView) -> RoomView {
        room_named(self@)
    }

    fn change(&self, row: &Room) -> (changed: Room) {
        Room { id: row.id, house: row.house, name: self.clone() }
    }
}

/// The device gets the name, the state and the category.
impl Change<Device> for DeviceChange {
    open spec fn changing(&self) -> spec_fn(DeviceView) -> DeviceView {
        device_changed(self@)
    }

    fn change(&self, row: &Device) -> (changed: Device) {
        Device {
            id: row.id,
            room: row.room,
            name: self.name.clone(),
            device_type: self.device_type.clone(),
            state: self.state,
        }
    }
}

/// One typed query on one table.
#[derive(Debug, PartialEq, Eq)]
pub enum Statement {
    /// All the houses that the filter admits, in the order of the table.
    LoadHouses(HouseFilter),
    /// The first house that the filter admits.
    FirstHouse(HouseFilter),
    /// A new house at the end of the table, under a fresh key; the answer is
    /// the house as it was stored.
    InsertHouse(NewHouse),
    /// A new name for every house that the filter admits.
    RenameHouses(HouseFilter, String),
    /// Removal of every house that the filter admits.
    DeleteHouses(HouseFilter),
    /// All the rooms that the filter admits, in the order of the table.
    LoadRooms(RoomFilter),
    /// The first room that the filter admits.
    FirstRoom(RoomFilter),
    /// A new room at the end of the table, under a fresh key; the answer is
    /// the room as it was stored.
    InsertRoom(NewRoom),
    /// A new name for every room that the filter admits.
    RenameRooms(RoomFilter, String),
    /// Removal of every room that the filter admits.
    DeleteRooms(RoomFilter),
    /// All the devices that the filter admits, in the order of the table.
    LoadDevices(DeviceFilter),
    /// The first device that the filter admits.
    FirstDevice(DeviceFilter),
    /// A new device at the end of the table, under a fresh key; the answer is
    /// the device as it was stored.
    InsertDevice(NewDevice),
    /// New name, state and category for every device that the filter admits.
    UpdateDevices(DeviceFilter, DeviceChange),
    /// Removal of every device that the filter admits.
    DeleteDevices(DeviceFilter),
}

/// What a `Statement` stands for in contracts.
pub enum StatementView {
    LoadHouses(HouseFilterView),
    FirstHouse(HouseFilterView),
    InsertHouse { name: Seq<char> },
    RenameHouses(HouseFilterView, Seq<char>),
    DeleteHouses(HouseFilterView),
    LoadRooms(RoomFilterView),
    FirstRoom(RoomFilterView),
    InsertRoom { house: i32, name: Seq<char> },
    RenameRooms(RoomFilterView, Seq<char>),
    DeleteRooms(RoomFilterView),
    LoadDevices(DeviceFilterView),
    FirstDevice(DeviceFilterView),
    InsertDevice { room: i32, name: Seq<char>, device_type: Seq<char>, state: bool },
    UpdateDevices(DeviceFilterView, DeviceChangeView),
    DeleteDevices(DeviceFilterView),
}

impl View for Statement {
    type V = StatementView;

    open spec fn view(&self) -> StatementView {
        match self {
            Statement::LoadHouses(filter) => StatementView::LoadHouses(filter@),
            Statement::FirstHouse(filter) => StatementView::FirstHouse(filter@),
            Statement::InsertHouse(row) => StatementView::InsertHouse { name: row.name@ },
            Statement::RenameHouses(filter, name) => StatementView::RenameHouses(filter@, name@),
            Statement::DeleteHouses(filter) => StatementView::DeleteHouses(filter@),
            Statement::LoadRooms(filter) => StatementView::LoadRooms(filter@),
            Statement::FirstRoom(filter) => StatementView::FirstRoom(filter@),
            Statement::InsertRoom(row) => StatementView::InsertRoom {
                house: row.house,
                name: row.name@,
            },
            Statement::RenameRooms(filter, name) => StatementView::RenameRooms(filter@, name@),
            Statement::DeleteRooms(filter) => StatementView::DeleteRooms(filter@),
            Statement::LoadDevices(filter) => StatementView::LoadDevices(filter@),
            Statement::FirstDevice(filter) => StatementView::FirstDevice(filter@),
            Statement::InsertDevice(row) => StatementView::InsertDevice {
                room: row.room,
                name: row.name@,
                device_type: row.device_type@,
                state: row.state,
            },
            Statement::UpdateDevices(filter, change) => StatementView::UpdateDevices(
                filter@,
                change@,
            ),
            Statement::DeleteDevices(filter) => StatementView::DeleteDevices(filter@),
        }
    }
}

/// The answer to a statement that succeeded.
#[derive(Debug, PartialEq, Eq)]
pub enum Outcome {
    /// The number of rows that an update or a delete touched.
    Changed(usize),
    Houses(Vec<House>),
    House(House),
    Rooms(Vec<Room>),
    Room(Room),
    Devices(Vec<Device>),
    Device(Device),
}

/// What an `Outcome` stands for in contracts.
pub enum OutcomeView {
    Changed(nat),
    Houses(Seq<HouseView>),
    House(HouseView),
    Rooms(Seq<RoomView>),
    Room(RoomView),
    Devices(Seq<DeviceView>),
    Device(DeviceView),
}

impl View for Outcome {
    type V = OutcomeView;

    open spec fn view(&self) -> OutcomeView {
        match self {
            Outcome::Changed(count) => OutcomeView::Changed(*count as nat),
            Outcome::Houses(rows) => OutcomeView::Houses(views(rows@)),
            Outcome::House(row) => OutcomeView::House(row@),
            Outcome::Rooms(rows) => OutcomeView::Rooms(views(rows@)),
            Outcome::Room(row) => OutcomeView::Room(row@),
            Outcome::Devices(rows) => OutcomeView::Devices(views(rows@)),
            Outcome::Device(row) => OutcomeView::Device(row@),
        }
    }
}

impl StatementView {
    /// Whether an outcome has the shape of an answer to this statement: rows of
    /// its table for a load, one such row for a fetch or an insert, a count for
    /// an update or a delete.
    pub open spec fn answered_by(self, outcome: OutcomeView) -> bool {
        match self {
            StatementView::LoadHouses(_) => outcome is Houses,
            StatementView::FirstHouse(_) => outcome is House,
            StatementView::InsertHouse { .. } => outcome is House,
            StatementView::LoadRooms(_) => outcome is Rooms,
            StatementView::FirstRoom(_) => outcome is Room,
            StatementView::InsertRoom { .. } => outcome is Room,
            StatementView::LoadDevices(_) => outcome is Devices,
            StatementView::FirstDevice(_) => outcome is Device,
            StatementView::InsertDevice { .. } => outcome is Device,
            _ => outcome is Changed,
        }
    }
}

/// Why the storage refused a statement.
#[derive(Debug, PartialEq, Eq, Clone, Copy)]
pub enum StorageError {
    /// A fetch found no row.
    NotFound,
    /// An insert found every key up to the largest one in use.
    KeysExhausted,
}

impl StorageError {
    /// The message of the error.
    pub open spec fn text(self) -> Seq<char> {
        match self {
            StorageError::NotFound => "Record not found"@,
            StorageError::KeysExhausted => "database or disk is full"@,
        }
    }

    /// The message of the error, as the text that a reply carries.
    pub fn message(&self) -> (text: String)
        ensures
            text@ == self.text(),
    {
        match self {
            StorageError::NotFound => String::from_str("Record not found"),
            StorageError::KeysExhausted => String::from_str("database or disk is full"),
        }
    }
}

/// Tests whether an outcome has the shape of an answer to a statement.
pub fn answers(statement: &Statement, outcome: &Outcome) -> (yes: bool)
    ensures
        yes == statement@.answered_by(outcome@),
{
    match statement {
        Statement::LoadHouses(_) => match outcome {
            Outcome::Houses(_) => true,
            _ => false,
        },
        Statement::FirstHouse(_) | Statement::InsertHouse(_) => match outcome {
            Outcome::House(_) => true,
            _ => false,
        },
        Statement::LoadRooms(_) => match outcome {
            Outcome::Rooms(_) => true,
            _ => false,
        },
        Statement::FirstRoom(_) | Statement::InsertRoom(_) => match outcome {
            Outcome::Room(_) => true,
            _ => false,
        },
        Statement::LoadDevices(_) => match outcome {
            Outcome::Devices(_) => true,
            _ => false,
        },
        Statement::FirstDevice(_) | Statement::InsertDevice(_) => match outcome {
            Outcome::Device(_) => true,
            _ => false,
        },
        _ => match outcome {
            Outcome::Changed(_) => true,
            _ => false,
        },
    }
}

} // verus!

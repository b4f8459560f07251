//! The three kinds of rows, and the values from which new rows are made.
//!
//! A house holds rooms and a room holds devices: a room names its house and a
//! device names its room by the parent's key. Every row type has a view that
//! replaces its strings by sequences of characters; contracts speak of views.

use vstd::prelude::*;

verus! {

/// What stands for a row in contracts: it has a key.
pub trait Keyed: Sized {
    /// The key of the row.
    spec fn key(self) -> int;
}

/// A row of a table: it has a key and can be copied.
pub trait Row: View + Sized where Self::V: Keyed {
    /// The key of the row.
    fn key(&self) -> (key: i32)
        ensures
            key == self@.key(),
    ;

    /// A copy of the row.
    fn copy(&self) -> (copy: Self)
        ensures
            copy@ == self@,
    ;
}

/// A stored house: its key and its name.
#[derive(Debug, PartialEq, Eq)]
pub struct House {
    pub id: i32,
    pub name: String,
}

/// What a `House` stands for in contracts.
pub struct HouseView {
    pub id: i32,
    pub name: Seq<char>,
}

impl View for House {
    type V = HouseView;

    open spec fn view(&self) -> HouseView {
        HouseView { id: self.id, name: self.name@ }
    }
}

impl Keyed for HouseView {
    open spec fn key(self) -> int {
        self.id as int
    }
}

impl Row for House {
    fn key(&self) -> (key: i32) {
        self.id
    }

    fn copy(&self) -> (copy: Self) {
        self.clone()
    }
}

impl Clone for House {
    fn clone(&self) -> (copy: Self)
        ensures
            copy@ == self@,
    {
        House { id: self.id, name: self.name.clone() }
    }
}

/// The columns of a house that a client supplies; the key is assigned on insertion.
#[derive(Debug, PartialEq, Eq)]
pub struct NewHouse {
    pub name: String,
}

/// A stored room: its key, the key of its house, and its name.
#[derive(Debug, PartialEq, Eq)]
pub struct Room {
    pub id: i32,
    pub house: i32,
    pub name: String,
}

/// What a `Room` stands for in contracts.
pub struct RoomView {
    pub id: i32,
    pub house: i32,
    pub name: Seq<char>,
}

impl View for Room {
    type V = RoomView;

    open spec fn view(&self) -> RoomView {
        RoomView { id: self.id, house: self.house, name: self.name@ }
    }
}

impl Keyed for RoomView {
    open spec fn key(self) -> int {
        self.id as int
    }
}

impl Row for Room {
    fn key(&self) -> (key: i32) {
        self.id
    }

    fn copy(&self) -> (copy: Self) {
        self.clone()
    }
}

impl Clone for Room {
    fn clone(&self) -> (copy: Self)
        ensures
            copy@ == self@,
    {
        Room { id: self.id, house: self.house, name: self.name.clone() }
    }
}

/// The columns of a room that a client supplies.
#[derive(Debug, PartialEq, Eq)]
pub struct NewRoom {
    pub house: i32,
    pub name: String,
}

/// A stored device: its key, the key of its room, its name, a free-form
/// category label, and whether it is switched on.
#[derive(Debug, PartialEq, Eq)]
pub struct Device {
    pub id: i32,
    pub room: i32,
    pub name: String,
    pub device_type: String,
    pub state: bool,
}

/// What a `Device` stands for in contracts.
pub struct DeviceView {
    pub id: i32,
    pub room: i32,
    pub name: Seq<char>,
    pub device_type: Seq<char>,
    pub state: bool,
}

impl View for Device {
    type V = DeviceView;

    open spec fn view(&self) -> DeviceView {
        DeviceView {
            id: self.id,
            room: self.room,
            name: self.name@,
            device_type: self.device_type@,
            state: self.state,
        }
    }
}

impl Keyed for DeviceView {
    open spec fn key(self) -> int {
        self.id as int
    }
}

impl Row for Device {
    fn key(&self) -> (key: i32) {
        self.id
    }

    fn copy(&self) -> (copy: Self) {
        self.clone()
    }
}

impl Clone for Device {
    fn clone(&self) -> (copy: Self)
        ensures
            copy@ == self@,
    {
        Device {
            id: self.id,
            room: self.room,
            name: self.name.clone(),
            device_type: self.device_type.clone(),
            state: self.state,
        }
    }
}

/// The columns of a device that are set on insertion.
#[derive(Debug, PartialEq, Eq)]
pub struct NewDevice {
    pub name: String,
    pub room: i32,
    pub device_type: String,
    pub state: bool,
}

} // verus!

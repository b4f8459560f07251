//! The decisions of one request, apart from the storage that carries them out.
//!
//! An `Operation` is a request that has been read: which handler it is for,
//! with its path parameters and its body. Each operation issues a fixed list
//! of statements, one after the other on one connection; the first failure
//! ends it with an error reply, and the answer to the last statement becomes
//! the reply. An `Exchange` walks through that list: it is told what
//! happened (`Event`) and says what to do next (`Action`), so that whoever
//! owns the storage runs the loop.

use vstd::prelude::*;
use crate::decimal::{count_text, decimal};
use crate::handlers::{HouseForm, PostRequestDevice, RoomForm};
use crate::models::{
    Device, DeviceView, House, HouseView, NewDevice, NewHouse, NewRoom, Room, RoomView,
};
use crate::statement::{
    answers, views, DeviceChange, DeviceChangeView, DeviceFilter, DeviceFilterView, HouseFilter,
    HouseFilterView, Outcome, OutcomeView, RoomFilter, RoomFilterView, Statement, StatementView,
};

verus! {

/// The status of a reply to a request that was carried out.
pub const STATUS_OK: u16 = 200;

/// The status of a reply to a request that the storage failed.
pub const STATUS_INTERNAL_SERVER_ERROR: u16 = 500;

/// What a reply carries.
#[derive(Debug, PartialEq, Eq)]
pub enum Body {
    Houses(Vec<House>),
    House(House),
    Rooms(Vec<Room>),
    Room(Room),
    Devices(Vec<Device>),
    Device(Device),
    /// The number of rows that a delete removed, in decimal digits.
    Count(String),
    Flag(bool),
    /// The message of a failure.
    Text(String),
}

/// What a `Body` stands for in contracts.
pub enum BodyView {
    Houses(Seq<HouseView>),
    House(HouseView),
    Rooms(Seq<RoomView>),
    Room(RoomView),
    Devices(Seq<DeviceView>),
    Device(DeviceView),
    Count(Seq<char>),
    Flag(bool),
    Text(Seq<char>),
}

impl View for Body {
    type V = BodyView;

    open spec fn view(&self) -> BodyView {
        match self {
            Body::Houses(rows) => BodyView::Houses(views(rows@)),
            Body::House(row) => BodyView::House(row@),
            Body::Rooms(rows) => BodyView::Rooms(views(rows@)),
            Body::Room(row) => BodyView::Room(row@),
            Body::Devices(rows) => BodyView::Devices(views(rows@)),
            Body::Device(row) => BodyView::Device(row@),
            Body::Count(text) => BodyView::Count(text@),
            Body::Flag(flag) => BodyView::Flag(*flag),
            Body::Text(text) => BodyView::Text(text@),
        }
    }
}

/// The reply to a request: a status and a body.
#[derive(Debug, PartialEq, Eq)]
pub struct Reply {
    pub status: u16,
    pub body: Body,
}

/// What a `Reply` stands for in contracts.
pub struct ReplyView {
    pub status: u16,
    pub body: BodyView,
}

impl View for Reply {
    type V = ReplyView;

    open spec fn view(&self) -> ReplyView {
        ReplyView { status: self.status, body: self.body@ }
    }
}

impl ReplyView {
    /// The reply to a request that the storage failed: status 500 with the
    /// storage's message as its body, whatever the failure was.
    pub open spec fn failure(message: Seq<char>) -> ReplyView {
        ReplyView { status: STATUS_INTERNAL_SERVER_ERROR, body: BodyView::Text(message) }
    }
}

impl Reply {
    /// The reply to a request that the storage failed.
    pub fn failure(message: String) -> (reply: Reply)
        ensures
            reply@ == ReplyView::failure(message@),
    {
        Reply { status: STATUS_INTERNAL_SERVER_ERROR, body: Body::Text(message) }
    }
}

/// A request that has been read: the handler it is for, its path parameters
/// and its body.
#[derive(Debug, PartialEq, Eq)]
pub enum Operation {
    ListHouses,
    AddHouse { house_form: HouseForm },
    UpdHouse { house_id: i32, house_form: HouseForm },
    DelHouse { house_id: i32 },
    DropAll,
    GetRooms { house_id: i32 },
    AddRoom { house_id: i32, room_form: RoomForm },
    UpdRoom { room_id: i32, room_form: RoomForm },
    DelRoom { room_id: i32 },
    GetDevices { room_id: i32 },
    AddDevice { room_id: i32, device_form: PostRequestDevice },
    UpdDevice { room_id: i32, device_id: i32, device_form: PostRequestDevice },
    DelDevice { room_id: i32, device_id: i32 },
}

impl Operation {
    /// The statements that the operation issues, in their order.
    ///
    /// A creation inserts the row, and the answer to the insert, which is the
    /// row as it was stored, becomes the reply. Before a room is inserted its
    /// house is fetched, and before a device its room, so that a row without
    /// a parent is not stored. A new device is stored switched off, whatever
    /// the request says. An update changes the row with the given key, a
    /// device only if it is in the given room, and then fetches that row.
    /// Removing everything empties the tables from the leaves up: devices,
    /// rooms, houses.
    pub open spec fn statements(self) -> Seq<StatementView> {
        match self {
            Operation::ListHouses => seq![StatementView::LoadHouses(HouseFilterView::All)],
            Operation::AddHouse { house_form } => seq![
                StatementView::InsertHouse { name: house_form.name@ },
            ],
            Operation::UpdHouse { house_id, house_form } => seq![
                StatementView::RenameHouses(HouseFilterView::WithId(house_id), house_form.name@),
                StatementView::FirstHouse(HouseFilterView::WithId(house_id)),
            ],
            Operation::DelHouse { house_id } => seq![
                StatementView::DeleteHouses(HouseFilterView::WithId(house_id)),
            ],
            Operation::DropAll => seq![
                StatementView::DeleteDevices(DeviceFilterView::All),
                StatementView::DeleteRooms(RoomFilterView::All),
                StatementView::DeleteHouses(HouseFilterView::All),
            ],
            Operation::GetRooms { house_id } => seq![
                StatementView::LoadRooms(RoomFilterView::InHouse(house_id)),
            ],
            Operation::AddRoom { house_id, room_form } => seq![
                StatementView::FirstHouse(HouseFilterView::WithId(house_id)),
                StatementView::InsertRoom { house: house_id, name: room_form.name@ },
            ],
            Operation::UpdRoom { room_id, room_form } => seq![
                StatementView::RenameRooms(RoomFilterView::WithId(room_id), room_form.name@),
                StatementView::FirstRoom(RoomFilterView::WithId(room_id)),
            ],
            Operation::DelRoom { room_id } => seq![
                StatementView::DeleteRooms(RoomFilterView::WithId(room_id)),
            ],
            Operation::GetDevices { room_id } => seq![
                StatementView::LoadDevices(DeviceFilterView::InRoom(room_id)),
            ],
            Operation::AddDevice { room_id, device_form } => seq![
                StatementView::FirstRoom(RoomFilterView::WithId(room_id)),
                StatementView::InsertDevice {
                    room: room_id,
                    name: device_form.name@,
                    device_type: device_form.device@,
                    state: false,
                },
            ],
            Operation::UpdDevice { room_id, device_id, device_form } => seq![
                StatementView::UpdateDevices(
                    DeviceFilterView::At { id: device_id, room: room_id },
                    DeviceChangeView {
                        name: device_form.name@,
                        state: device_form.state,
                        device_type: device_form.device@,
                    },
                ),
                StatementView::FirstDevice(DeviceFilterView::At { id: device_id, room: room_id }),
            ],
            Operation::DelDevice { room_id, device_id } => seq![
                StatementView::DeleteDevices(DeviceFilterView::At { id: device_id, room: room_id }),
            ],
        }
    }

    /// The reply to the operation once its last statement was answered:
    /// status 200 with the rows, or the row, that the answer holds; for a
    /// count, the count in decimal digits, but `true` where everything was
    /// removed.
    pub open spec fn concluded(self, outcome: OutcomeView) -> ReplyView {
        ReplyView {
            status: STATUS_OK,
            body: match outcome {
                OutcomeView::Changed(count) => if self is DropAll {
                    BodyView::Flag(true)
                } else {
                    BodyView::Count(decimal(count))
                },
                OutcomeView::Houses(rows) => BodyView::Houses(rows),
                OutcomeView::House(row) => BodyView::House(row),
                OutcomeView::Rooms(rows) => BodyView::Rooms(rows),
                OutcomeView::Room(row) => BodyView::Room(row),
                OutcomeView::Devices(rows) => BodyView::Devices(rows),
                OutcomeView::Device(row) => BodyView::Device(row),
            },
        }
    }

    /// How many statements the operation issues.
    pub fn statement_count(&self) -> (count: usize)
        ensures
            count == self.statements().len(),
            1 <= count <= 3,
    {
        match self {
            Operation::ListHouses => 1,
            Operation::AddHouse { .. } => 1,
            Operation::UpdHouse { .. } => 2,
            Operation::DelHouse { .. } => 1,
            Operation::DropAll => 3,
            Operation::GetRooms { .. } => 1,
            Operation::AddRoom { .. } => 2,
            Operation::UpdRoom { .. } => 2,
            Operation::DelRoom { .. } => 1,
            Operation::GetDevices { .. } => 1,
            Operation::AddDevice { .. } => 2,
            Operation::UpdDevice { .. } => 2,
            Operation::DelDevice { .. } => 1,
        }
    }

    /// The statement that the operation issues at a position of its list.
    pub fn statement(&self, position: usize) -> (statement: Statement)
        requires
            position < self.statements().len(),
        ensures
            statement@ == self.statements()[position as int],
    {
        match self {
            Operation::ListHouses => Statement::LoadHouses(HouseFilter::All),
            Operation::AddHouse { house_form } => Statement::InsertHouse(
                NewHouse { name: house_form.name.clone() },
            ),
            Operation::UpdHouse { house_id, house_form } => {
                if position == 0 {
                    Statement::RenameHouses(HouseFilter::WithId(*house_id), house_form.name.clone())
                } else {
                    Statement::FirstHouse(HouseFilter::WithId(*house_id))
                }
            },
            Operation::DelHouse { house_id } => Statement::DeleteHouses(
                HouseFilter::WithId(*house_id),
            ),
            Operation::DropAll => {
                if position == 0 {
                    Statement::DeleteDevices(DeviceFilter::All)
                } else if position == 1 {
                    Statement::DeleteRooms(RoomFilter::All)
                } else {
                    Statement::DeleteHouses(HouseFilter::All)
                }
            },
            Operation::GetRooms { house_id } => Statement::LoadRooms(
                RoomFilter::InHouse(*house_id),
            ),
            Operation::AddRoom { house_id, room_form } => {
                if position == 0 {
                    Statement::FirstHouse(HouseFilter::WithId(*house_id))
                } else {
                    Statement::InsertRoom(
                        NewRoom { house: *house_id, name: room_form.name.clone() },
                    )
                }
            },
            Operation::UpdRoom { room_id, room_form } => {
                if position == 0 {
                    Statement::RenameRooms(RoomFilter::WithId(*room_id), room_form.name.clone())
                } else {
                    Statement::FirstRoom(RoomFilter::WithId(*room_id))
                }
            },
            Operation::DelRoom { room_id } => Statement::DeleteRooms(RoomFilter::WithId(*room_id)),
            Operation::GetDevices { room_id } => Statement::LoadDevices(
                DeviceFilter::InRoom(*room_id),
            ),
            Operation::AddDevice { room_id, device_form } => {
                if position == 0 {
                    Statement::FirstRoom(RoomFilter::WithId(*room_id))
                } else {
                    Statement::InsertDevice(
                        NewDevice {
                            name: device_form.name.clone(),
                            room: *room_id,
                            device_type: device_form.device.clone(),
                            state: false,
                        },
                    )
                }
            },
            Operation::UpdDevice { room_id, device_id, device_form } => {
                if position == 0 {
                    Statement::UpdateDevices(
                        DeviceFilter::At { id: *device_id, room: *room_id },
                        DeviceChange {
                            name: device_form.name.clone(),
                            state: device_form.state,
                            device_type: device_form.device.clone(),
                        },
                    )
                } else {
                    Statement::FirstDevice(DeviceFilter::At { id: *device_id, room: *room_id })
                }
            },
            Operation::DelDevice { room_id, device_id } => Statement::DeleteDevices(
                DeviceFilter::At { id: *device_id, room: *room_id },
            ),
        }
    }

    /// Makes the reply out of the answer to the operation's last statement.
    pub fn conclude(&self, outcome: Outcome) -> (reply: Reply)
        ensures
            reply@ == self.concluded(outcome@),
    {
        let body = match outcome {
            Outcome::Changed(count) => match self {
                Operation::DropAll => Body::Flag(true),
                _ => Body::Count(count_text(count)),
            },
            Outcome::Houses(rows) => Body::Houses(rows),
            Outcome::House(row) => Body::House(row),
            Outcome::Rooms(rows) => Body::Rooms(rows),
            Outcome::Room(row) => Body::Room(row),
            Outcome::Devices(rows) => Body::Devices(rows),
            Outcome::Device(row) => Body::Device(row),
        };
        Reply { status: STATUS_OK, body }
    }
}

/// What happened to the action that an exchange asked for.
#[derive(Debug, PartialEq, Eq)]
pub enum Event {
    /// A connection to the storage was obtained.
    Connected,
    /// The storage answered the statement.
    Answered(Outcome),
    /// No connection could be had, or the storage refused the statement; the
    /// text is the storage's message.
    Failed(String),
}

/// What an exchange asks for next.
#[derive(Debug, PartialEq, Eq)]
pub enum Action {
    /// Obtain a connection to the storage.
    Connect,
    /// Run this statement on the connection.
    Run(Statement),
    /// Send this reply; the exchange is over.
    Reply(Reply),
}

/// What an `Action` stands for in contracts.
pub enum ActionView {
    Connect,
    Run(StatementView),
    Reply(ReplyView),
}

impl View for Action {
    type V = ActionView;

    open spec fn view(&self) -> ActionView {
        match self {
            Action::Connect => ActionView::Connect,
            Action::Run(statement) => ActionView::Run(statement@),
            Action::Reply(reply) => ActionView::Reply(reply@),
        }
    }
}

/// How far an exchange has come.
#[derive(Debug, PartialEq, Eq, Clone, Copy)]
pub enum Stage {
    /// A connection was asked for.
    Connecting,
    /// The statement at this position of the operation's list was issued.
    Awaiting(usize),
    /// The reply was given.
    Done,
}

/// One request on its way from the first action to the reply.
#[derive(Debug)]
pub struct Exchange {
    operation: Operation,
    stage: Stage,
}

impl Exchange {
    /// The operation that the exchange carries out.
    pub closed spec fn operation(&self) -> Operation {
        self.operation
    }

    /// How far the exchange has come.
    pub closed spec fn stage(&self) -> Stage {
        self.stage
    }

    /// The invariant of an exchange: the statement that it waits for is one
    /// of its operation's.
    pub open spec fn wf(&self) -> bool {
        self.stage() matches Stage::Awaiting(position) ==> position
            < self.operation().statements().len()
    }

    /// Whether an event can follow the action that the exchange asked for
    /// last: a connection after `Connect`, an answer of the statement's shape
    /// after `Run`, a failure after either, and nothing after the reply.
    pub open spec fn expects(&self, event: Event) -> bool {
        match self.stage() {
            Stage::Connecting => match event {
                Event::Connected => true,
                Event::Answered(_) => false,
                Event::Failed(_) => true,
            },
            Stage::Awaiting(position) => match event {
                Event::Connected => false,
                Event::Answered(outcome) => self.operation().statements()[position as int].answered_by(
                    outcome@,
                ),
                Event::Failed(_) => true,
            },
            Stage::Done => false,
        }
    }

    /// The stage after an event, and the action that is asked for then.
    ///
    /// A connection leads to the first statement. An answer leads to the next
    /// statement or, after the last one, to the operation's reply. A failure
    /// leads to the error reply at once.
    pub open spec fn next(&self, event: Event) -> (Stage, ActionView) {
        let statements = self.operation().statements();
        match event {
            Event::Connected => (Stage::Awaiting(0), ActionView::Run(statements[0])),
            Event::Answered(outcome) => {
                let position = self.stage()->Awaiting_0;
                if position + 1 < statements.len() {
                    (
                        Stage::Awaiting((position + 1) as usize),
                        ActionView::Run(statements[position + 1]),
                    )
                } else {
                    (Stage::Done, ActionView::Reply(self.operation().concluded(outcome@)))
                }
            },
            Event::Failed(message) => (
                Stage::Done,
                ActionView::Reply(ReplyView::failure(message@)),
            ),
        }
    }

    /// Opens the exchange for an operation. The first action is to connect.
    pub fn begin(operation: Operation) -> (opened: (Exchange, Action))
        ensures
            opened.0.wf(),
            opened.0.operation() == operation,
            opened.0.stage() == Stage::Connecting,
            opened.1@ == ActionView::Connect,
    {
        (Exchange { operation, stage: Stage::Connecting }, Action::Connect)
    }

    /// Tests whether an event can be handed to `advance`.
    pub fn accepts(&self, event: &Event) -> (yes: bool)
        requires
            self.wf(),
        ensures
            yes == self.expects(*event),
    {
        match self.stage {
            Stage::Connecting => match event {
                Event::Connected => true,
                Event::Answered(_) => false,
                Event::Failed(_) => true,
            },
            Stage::Awaiting(position) => match event {
                Event::Connected => false,
                Event::Answered(outcome) => {
                    let statement = self.operation.statement(position);
                    answers(&statement, outcome)
                },
                Event::Failed(_) => true,
            },
            Stage::Done => false,
        }
    }

    /// Takes an event and says what to do next.
    pub fn advance(&mut self, event: Event) -> (action: Action)
        requires
            old(self).wf(),
            old(self).expects(event),
        ensures
            final(self).wf(),
            final(self).operation() == old(self).operation(),
            (final(self).stage(), action@) == old(self).next(event),
    {
        match event {
            Event::Connected => {
                self.stage = Stage::Awaiting(0);
                Action::Run(self.operation.statement(0))
            },
            Event::Answered(outcome) => {
                let position = match self.stage {
                    Stage::Awaiting(position) => position,
                    _ => 0,
                };
                if position + 1 < self.operation.statement_count() {
                    self.stage = Stage::Awaiting(position + 1);
                    Action::Run(self.operation.statement(position + 1))
                } else {
                    self.stage = Stage::Done;
                    Action::Reply(self.operation.conclude(outcome))
                }
            },
            Event::Failed(message) => {
                self.stage = Stage::Done;
                Action::Reply(Reply::failure(message))
            },
        }
    }
}

} // verus!

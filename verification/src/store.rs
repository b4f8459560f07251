//! The tables held in memory.
//!
//! A `Store` keeps the rows of the three tables in vectors and carries out
//! statements on them. Its view is the model of `crate::tables`, and every
//! operation is proved to do what the model says.

use vstd::prelude::*;
use crate::models::{Device, House, Keyed, Room, Row};
use crate::statement::{
    except, views, Change, Filter, Outcome, OutcomeView, Statement, StorageError,
};
use crate::tables::{
    ascending, first, lemma_apply_wf, lemma_filter_first, lemma_filter_nothing_passes,
    lemma_filter_take, next_key, updated, Tables,
};

verus! {

/// The view of an option of a row.
spec fn option_view<T: View>(row: Option<T>) -> Option<T::V> {
    match row {
        Some(row) => Some(row@),
        None => None,
    }
}

/// The view of a statement's answer.
pub open spec fn answer_view(answer: Result<Outcome, StorageError>) -> Result<
    OutcomeView,
    StorageError,
> {
    match answer {
        Ok(outcome) => Ok(outcome@),
        Err(error) => Err(error),
    }
}

/// The three tables, held in memory.
pub struct Store {
    houses: Vec<House>,
    rooms: Vec<Room>,
    devices: Vec<Device>,
}

impl View for Store {
    type V = Tables;

    closed spec fn view(&self) -> Tables {
        Tables {
            houses: views(self.houses@),
            rooms: views(self.rooms@),
            devices: views(self.devices@),
        }
    }
}

impl Store {
    /// A store without rows.
    pub fn new() -> (store: Store)
        ensures
            store@ == Tables::empty(),
            store@.wf(),
    {
        let store = Store { houses: Vec::new(), rooms: Vec::new(), devices: Vec::new() };
        proof {
            assert(store@.houses =~= Seq::empty());
            assert(store@.rooms =~= Seq::empty());
            assert(store@.devices =~= Seq::empty());
        }
        store
    }

    /// A store that holds the given rows, if each table is in strictly
    /// ascending order of its keys.
    pub fn with_rows(houses: Vec<House>, rooms: Vec<Room>, devices: Vec<Device>) -> (store: Option<
        Store,
    >)
        ensures
            store is Some <==> (Tables {
                houses: views(houses@),
                rooms: views(rooms@),
                devices: views(devices@),
            }).wf(),
            store matches Some(store) ==> store@ == (Tables {
                houses: views(houses@),
                rooms: views(rooms@),
                devices: views(devices@),
            }),
    {
        if ascend(&houses) && ascend(&rooms) && ascend(&devices) {
            Some(Store { houses, rooms, devices })
        } else {
            None
        }
    }

    /// Carries out one statement: the tables change and the answer is given
    /// as the model says.
    pub fn execute(&mut self, statement: &Statement) -> (answer: Result<Outcome, StorageError>)
        requires
            old(self)@.wf(),
        ensures
            final(self)@.wf(),
            (final(self)@, answer_view(answer)) == old(self)@.apply(statement@),
    {
        proof {
            lemma_apply_wf(self@, statement@);
        }
        match statement {
            Statement::LoadHouses(filter) => Ok(Outcome::Houses(load(&self.houses, filter))),
            Statement::FirstHouse(filter) => match fetch(&self.houses, filter) {
                Some(row) => Ok(Outcome::House(row)),
                None => Err(StorageError::NotFound),
            },
            Statement::InsertHouse(row) => match key_after(&self.houses) {
                None => Err(StorageError::KeysExhausted),
                Some(id) => {
                    let stored = House { id, name: row.name.clone() };
                    let answer = stored.copy();
                    proof {
                        lemma_views_push(self.houses@, stored);
                    }
                    self.houses.push(stored);
                    Ok(Outcome::House(answer))
                },
            },
            Statement::RenameHouses(filter, name) => {
                let count = update(&mut self.houses, filter, name);
                Ok(Outcome::Changed(count))
            },
            Statement::DeleteHouses(filter) => {
                let count = delete(&mut self.houses, filter);
                Ok(Outcome::Changed(count))
            },
            Statement::LoadRooms(filter) => Ok(Outcome::Rooms(load(&self.rooms, filter))),
            Statement::FirstRoom(filter) => match fetch(&self.rooms, filter) {
                Some(row) => Ok(Outcome::Room(row)),
                None => Err(StorageError::NotFound),
            },
            Statement::InsertRoom(row) => match key_after(&self.rooms) {
                None => Err(StorageError::KeysExhausted),
                Some(id) => {
                    let stored = Room { id, house: row.house, name: row.name.clone() };
                    let answer = stored.copy();
                    proof {
                        lemma_views_push(self.rooms@, stored);
                    }
                    self.rooms.push(stored);
                    Ok(Outcome::Room(answer))
                },
            },
            Statement::RenameRooms(filter, name) => {
                let count = update(&mut self.rooms, filter, name);
                Ok(Outcome::Changed(count))
            },
            Statement::DeleteRooms(filter) => {
                let count = delete(&mut self.rooms, filter);
                Ok(Outcome::Changed(count))
            },
            Statement::LoadDevices(filter) => Ok(
                Outcome::Devices(load(&self.devices, filter)),
            ),
            Statement::FirstDevice(filter) => match fetch(&self.devices, filter) {
                Some(row) => Ok(Outcome::Device(row)),
                None => Err(StorageError::NotFound),
            },
            Statement::InsertDevice(row) => match key_after(&self.devices) {
                None => Err(StorageError::KeysExhausted),
                Some(id) => {
                    let stored = Device {
                        id,
                        room: row.room,
                        name: row.name.clone(),
                        device_type: row.device_type.clone(),
                        state: row.state,
                    };
                    let answer = stored.copy();
                    proof {
                        lemma_views_push(self.devices@, stored);
                    }
                    self.devices.push(stored);
                    Ok(Outcome::Device(answer))
                },
            },
            Statement::UpdateDevices(filter, change) => {
                let count = update(&mut self.devices, filter, change);
                Ok(Outcome::Changed(count))
            },
            Statement::DeleteDevices(filter) => {
                let count = delete(&mut self.devices, filter);
                Ok(Outcome::Changed(count))
            },
        }
    }
}

/// The views of rows with one more row at the end.
proof fn lemma_views_push<T: View>(rows: Seq<T>, row: T)
    ensures
        views(rows.push(row)) == views(rows).push(row@),
{
    assert(views(rows.push(row)) =~= views(rows).push(row@));
}

/// Copies the rows that a filter admits, in the order of the table.
fn load<R: Row, F: Filter<R>>(rows: &Vec<R>, filter: &F) -> (found: Vec<R>) where R::V: Keyed
    ensures
        views(found@) == views(rows@).filter(filter.admitting()),
{
    let mut found: Vec<R> = Vec::new();
    let mut i: usize = 0;
    proof {
        lemma_filter_nothing_passes(Seq::empty(), filter.admitting());
        assert(views(rows@).take(0) =~= Seq::empty());
        assert(views(found@) =~= Seq::empty());
    }
    while i < rows.len()
        invariant
            i <= rows.len(),
            views(found@) == views(rows@).take(i as int).filter(filter.admitting()),
        decreases rows.len() - i,
    {
        proof {
            lemma_filter_take(views(rows@), filter.admitting(), i as int);
        }
        if filter.admits(&rows[i]) {
            let row = rows[i].copy();
            proof {
                lemma_views_push(found@, row);
            }
            found.push(row);
        }
        i += 1;
    }
    proof {
        assert(views(rows@).take(rows.len() as int) =~= views(rows@));
    }
    found
}

/// Copies the first row that a filter admits.
fn fetch<R: Row, F: Filter<R>>(rows: &Vec<R>, filter: &F) -> (found: Option<R>) where R::V: Keyed
    ensures
        option_view(found) == first(views(rows@).filter(filter.admitting())),
{
    let mut i: usize = 0;
    while i < rows.len()
        invariant
            i <= rows.len(),
            forall|j: int| 0 <= j < i ==> !(filter.admitting())(#[trigger] views(rows@)[j]),
        decreases rows.len() - i,
    {
        if filter.admits(&rows[i]) {
            proof {
                lemma_filter_first(views(rows@), filter.admitting(), i as int);
            }
            return Some(rows[i].copy());
        }
        i += 1;
    }
    proof {
        lemma_filter_nothing_passes(views(rows@), filter.admitting());
    }
    None
}

/// The key for the next row, unless the last key is the largest there is.
fn key_after<R: Row>(rows: &Vec<R>) -> (key: Option<i32>) where R::V: Keyed
    ensures
        match key {
            Some(key) => key == next_key(views(rows@)),
            None => next_key(views(rows@)) > i32::MAX,
        },
{
    if rows.len() == 0 {
        Some(1)
    } else {
        let last: i32 = rows[rows.len() - 1].key();
        if last == i32::MAX {
            None
        } else {
            Some(last + 1)
        }
    }
}

/// Changes the rows that a filter admits, and counts them.
fn update<R: Row, F: Filter<R>, C: Change<R>>(rows: &mut Vec<R>, filter: &F, change: &C) -> (count:
    usize) where R::V: Keyed
    ensures
        views(final(rows)@) == views(old(rows)@).map_values(
            updated(filter.admitting(), change.changing()),
        ),
        count == views(old(rows)@).filter(filter.admitting()).len(),
{
    let ghost before = views(rows@);
    let mut count: usize = 0;
    let mut i: usize = 0;
    proof {
        lemma_filter_nothing_passes(Seq::empty(), filter.admitting());
        assert(before.take(0) =~= Seq::empty());
    }
    while i < rows.len()
        invariant
            i <= rows.len(),
            rows.len() == before.len(),
            forall|j: int|
                0 <= j < i ==> (#[trigger] rows@[j])@ == updated(
                    filter.admitting(),
                    change.changing(),
                )(before[j]),
            forall|j: int| i <= j < rows.len() ==> (#[trigger] rows@[j])@ == before[j],
            count == before.take(i as int).filter(filter.admitting()).len(),
            count <= i,
        decreases rows.len() - i,
    {
        proof {
            lemma_filter_take(before, filter.admitting(), i as int);
        }
        if filter.admits(&rows[i]) {
            let changed = change.change(&rows[i]);
            rows.set(i, changed);
            count += 1;
        }
        i += 1;
    }
    proof {
        assert(before.take(rows.len() as int) =~= before);
        assert(views(rows@) =~= before.map_values(
            updated(filter.admitting(), change.changing()),
        ));
    }
    count
}

/// Removes the rows that a filter admits, and counts them.
fn delete<R: Row, F: Filter<R>>(rows: &mut Vec<R>, filter: &F) -> (count: usize) where R::V: Keyed
    ensures
        views(final(rows)@) == views(old(rows)@).filter(except(filter.admitting())),
        count == views(old(rows)@).filter(filter.admitting()).len(),
{
    let mut kept: Vec<R> = Vec::new();
    let mut count: usize = 0;
    let mut i: usize = 0;
    proof {
        lemma_filter_nothing_passes(Seq::empty(), filter.admitting());
        lemma_filter_nothing_passes(Seq::empty(), except(filter.admitting()));
        assert(views(rows@).take(0) =~= Seq::empty());
        assert(views(kept@) =~= Seq::empty());
    }
    while i < rows.len()
        invariant
            i <= rows.len(),
            views(kept@) == views(rows@).take(i as int).filter(except(filter.admitting())),
            count == views(rows@).take(i as int).filter(filter.admitting()).len(),
            count <= i,
        decreases rows.len() - i,
    {
        proof {
            lemma_filter_take(views(rows@), filter.admitting(), i as int);
            lemma_filter_take(views(rows@), except(filter.admitting()), i as int);
        }
        if filter.admits(&rows[i]) {
            count += 1;
        } else {
            let row = rows[i].copy();
            proof {
                lemma_views_push(kept@, row);
            }
            kept.push(row);
        }
        i += 1;
    }
    proof {
        assert(views(rows@).take(rows.len() as int) =~= views(rows@));
    }
    *rows = kept;
    count
}

/// Rows of which each has a larger key than the one before are in ascending order.
proof fn lemma_neighbours_ascend<R: Keyed>(rows: Seq<R>, upto: int)
    requires
        0 <= upto <= rows.len(),
        forall|i: int| 0 < i < upto ==> rows[i - 1].key() < (#[trigger] rows[i]).key(),
    ensures
        ascending(rows.take(upto)),
    decreases upto,
{
    if upto > 0 {
        lemma_neighbours_ascend(rows, upto - 1);
        let front = rows.take(upto - 1);
        let all = rows.take(upto);
        assert forall|i: int, j: int| 0 <= i < j < all.len() implies (#[trigger] all[i]).key() < (
        #[trigger] all[j]).key() by {
            if j == upto - 1 {
                assert(rows[j - 1].key() < rows[j].key());
                if i < j - 1 {
                    assert(front[i].key() < front[j - 1].key());
                }
            } else {
                assert(front[i].key() < front[j].key());
            }
        }
    }
}

/// Tests whether the rows are in strictly ascending order of their keys.
fn ascend<R: Row>(rows: &Vec<R>) -> (yes: bool) where R::V: Keyed
    ensures
        yes == ascending(views(rows@)),
{
    let mut i: usize = 1;
    while i < rows.len()
        invariant
            1 <= i,
            forall|j: int|
                0 < j < i && j < rows.len() ==> views(rows@)[j - 1].key() < (#[trigger] views(
                    rows@,
                )[j]).key(),
        decreases rows.len() - i,
    {
        if rows[i - 1].key() >= rows[i].key() {
            assert(!(views(rows@)[i - 1].key() < views(rows@)[i as int].key()));
            return false;
        }
        i += 1;
    }
    proof {
        lemma_neighbours_ascend(views(rows@), rows.len() as int);
        assert(views(rows@).take(rows.len() as int) =~= views(rows@));
    }
    true
}

} // verus!

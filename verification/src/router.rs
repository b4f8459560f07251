//! The dispatch table: which handler a request is for.
//!
//! A path is a slash followed by pieces with slashes between them. The words
//! of a path are fixed and its keys are whole numbers in decimal digits, with
//! a sign or without, that fit a row's key. In a key, though not in a word, a
//! character may be written as an escape: `%` and the two hexadecimal digits
//! of its code. A place is what a path names; a place and a method together
//! name a route, and a route with the body of the request makes the operation
//! to carry out.

use vstd::prelude::*;
use vstd::string::is_ascii_spec_bytes;
use vstd::utf8::is_ascii_chars;
use crate::exchange::Operation;
use crate::handlers::{HouseForm, PostRequestDevice, RoomForm};

verus! {

/// The byte of `/`.
const SLASH: u8 = 47;

/// The byte of `+`.
const PLUS: u8 = 43;

/// The byte of `-`.
const MINUS: u8 = 45;

/// The byte of `%`.
const PERCENT: u8 = 37;

/// The byte of `0`.
const ZERO: u8 = 48;

/// The byte of `9`.
const NINE: u8 = 57;

/// The largest number that a key is written with: that of the smallest key.
const LARGEST: i64 = 2147483648;

/// The methods that the service knows.
#[derive(Debug, PartialEq, Eq, Clone, Copy)]
pub enum Method {
    Get,
    Post,
    Put,
    Delete,
}

/// What a path names.
#[derive(Debug, PartialEq, Eq, Clone, Copy)]
pub enum Place {
    /// `/house`
    Houses,
    /// `/houses/{house_id}`
    House { house_id: i32 },
    /// `/houses/{house_id}/rooms`
    Rooms { house_id: i32 },
    /// `/houses/{house_id}/rooms/{room_id}`
    Room { house_id: i32, room_id: i32 },
    /// `/houses/{house_id}/rooms/{room_id}/devices`
    Devices { house_id: i32, room_id: i32 },
    /// `/houses/{house_id}/rooms/{room_id}/devices/{device_id}`
    Device { house_id: i32, room_id: i32, device_id: i32 },
}

/// A handler together with the path parameters of a request for it.
#[derive(Debug, PartialEq, Eq, Clone, Copy)]
pub enum Route {
    ListHouses,
    AddHouse,
    DropAll,
    UpdHouse { house_id: i32 },
    DelHouse { house_id: i32 },
    GetRooms { house_id: i32 },
    AddRoom { house_id: i32 },
    UpdRoom { house_id: i32, room_id: i32 },
    DelRoom { house_id: i32, room_id: i32 },
    GetDevices { house_id: i32, room_id: i32 },
    AddDevice { house_id: i32, room_id: i32 },
    UpdDevice { house_id: i32, room_id: i32, device_id: i32 },
    DelDevice { house_id: i32, room_id: i32, device_id: i32 },
}

/// The body of a request, read as the form that its route takes.
#[derive(Debug, PartialEq, Eq)]
pub enum Payload {
    Nothing,
    House(HouseForm),
    Room(RoomForm),
    Device(PostRequestDevice),
}

/// The kinds of body that routes take.
#[derive(Debug, PartialEq, Eq, Clone, Copy)]
pub enum PayloadKind {
    Nothing,
    House,
    Room,
    Device,
}

/// The pieces of a text between its slashes: one more than it has slashes.
pub open spec fn pieces(text: Seq<char>) -> Seq<Seq<char>>
    decreases text.len(),
{
    if text.len() == 0 {
        seq![Seq::empty()]
    } else {
        let front = pieces(text.drop_last());
        if text.last() == '/' {
            front.push(Seq::empty())
        } else {
            front.drop_last().push(front.last().push(text.last()))
        }
    }
}

/// Whether a character is a decimal digit.
pub open spec fn is_digit(c: char) -> bool {
    '0' <= c <= '9'
}

/// The number that decimal digits write; no digits write 0.
pub open spec fn number(digits: Seq<char>) -> nat
    decreases digits.len(),
{
    if digits.len() == 0 {
        0
    } else {
        (number(digits.drop_last()) * 10 + (digits.last() as int - '0' as int)) as nat
    }
}

/// Whether every character of a text is a decimal digit.
pub open spec fn all_digits(text: Seq<char>) -> bool {
    forall|i: int| 0 <= i < text.len() ==> is_digit(#[trigger] text[i])
}

/// A piece of a path without its sign, if it has one.
pub open spec fn unsigned(piece: Seq<char>) -> Seq<char> {
    if piece.len() > 0 && (piece[0] == '-' || piece[0] == '+') {
        piece.skip(1)
    } else {
        piece
    }
}

/// The number that a hexadecimal digit writes, if the character is one.
pub open spec fn hex_value(c: char) -> Option<int> {
    if '0' <= c <= '9' {
        Some(c as int - '0' as int)
    } else if 'a' <= c <= 'f' {
        Some(c as int - 'a' as int + 10)
    } else if 'A' <= c <= 'F' {
        Some(c as int - 'A' as int + 10)
    } else {
        None
    }
}

/// Whether a text begins with an escape: `%` and two hexadecimal digits.
pub open spec fn begins_with_escape(text: Seq<char>) -> bool {
    text.len() >= 3 && text[0] == '%' && hex_value(text[1]) is Some && hex_value(text[2]) is Some
}

/// A text with each escape replaced by the character whose code the escape
/// writes. A `%` that begins no escape stays as it is. A code of 128 or more
/// is the code of a byte and not of a character of the text; it is read here
/// as the character of that code, which is no character of a key either way.
pub open spec fn unescaped(text: Seq<char>) -> Seq<char>
    decreases text.len(),
{
    if text.len() == 0 {
        text
    } else if begins_with_escape(text) {
        seq![((hex_value(text[1])->0 * 16 + hex_value(text[2])->0) as u8) as char] + unescaped(
            text.skip(3),
        )
    } else {
        seq![text[0]] + unescaped(text.skip(1))
    }
}

/// The key that a piece of a path writes, once its escapes are replaced.
pub open spec fn key_of(piece: Seq<char>) -> Option<i32> {
    key_written(unescaped(piece))
}

/// The key that a text without escapes writes: one digit or more, after a `+`
/// or a `-` or without a sign, if the number fits a key.
pub open spec fn key_written(piece: Seq<char>) -> Option<i32> {
    let digits = unsigned(piece);
    let value = if piece.len() > 0 && piece[0] == '-' {
        -(number(digits) as int)
    } else {
        number(digits) as int
    };
    if digits.len() > 0 && all_digits(digits) && i32::MIN <= value <= i32::MAX {
        Some(value as i32)
    } else {
        None
    }
}

/// What the pieces of a path name, if anything.
pub open spec fn located(parts: Seq<Seq<char>>) -> Option<Place> {
    if parts.len() == 1 {
        if parts[0] == "house"@ {
            Some(Place::Houses)
        } else {
            None
        }
    } else if 2 <= parts.len() <= 6 && parts[0] == "houses"@ && key_of(parts[1]) is Some {
        let house_id = key_of(parts[1])->0;
        if parts.len() == 2 {
            Some(Place::House { house_id })
        } else if parts[2] != "rooms"@ {
            None
        } else if parts.len() == 3 {
            Some(Place::Rooms { house_id })
        } else if key_of(parts[3]) is None {
            None
        } else {
            let room_id = key_of(parts[3])->0;
            if parts.len() == 4 {
                Some(Place::Room { house_id, room_id })
            } else if parts[4] != "devices"@ {
                None
            } else if parts.len() == 5 {
                Some(Place::Devices { house_id, room_id })
            } else if key_of(parts[5]) is None {
                None
            } else {
                Some(Place::Device { house_id, room_id, device_id: key_of(parts[5])->0 })
            }
        }
    } else {
        None
    }
}

/// The handler for a method at a place, if there is one.
pub open spec fn endpoint(method: Method, place: Place) -> Option<Route> {
    match (place, method) {
        (Place::Houses, Method::Get) => Some(Route::ListHouses),
        (Place::Houses, Method::Post) => Some(Route::AddHouse),
        (Place::Houses, Method::Delete) => Some(Route::DropAll),
        (Place::House { house_id }, Method::Put) => Some(Route::UpdHouse { house_id }),
        (Place::House { house_id }, Method::Delete) => Some(Route::DelHouse { house_id }),
        (Place::Rooms { house_id }, Method::Get) => Some(Route::GetRooms { house_id }),
        (Place::Rooms { house_id }, Method::Post) => Some(Route::AddRoom { house_id }),
        (Place::Room { house_id, room_id }, Method::Put) => Some(
            Route::UpdRoom { house_id, room_id },
        ),
        (Place::Room { house_id, room_id }, Method::Delete) => Some(
            Route::DelRoom { house_id, room_id },
        ),
        (Place::Devices { house_id, room_id }, Method::Get) => Some(
            Route::GetDevices { house_id, room_id },
        ),
        (Place::Devices { house_id, room_id }, Method::Post) => Some(
            Route::AddDevice { house_id, room_id },
        ),
        (Place::Device { house_id, room_id, device_id }, Method::Put) => Some(
            Route::UpdDevice { house_id, room_id, device_id },
        ),
        (Place::Device { house_id, room_id, device_id }, Method::Delete) => Some(
            Route::DelDevice { house_id, room_id, device_id },
        ),
        _ => None,
    }
}

/// What a path names. A path leads somewhere only if it is in ASCII, begins
/// with a slash and its pieces after that slash name a place.
pub open spec fn placed(path: Seq<char>) -> Option<Place> {
    if is_ascii_chars(path) && path.len() > 0 && path[0] == '/' {
        located(pieces(path.skip(1)))
    } else {
        None
    }
}

/// The route of a request: the handler for its method at the place that its
/// path names.
pub open spec fn routed(method: Method, path: Seq<char>) -> Option<Route> {
    match placed(path) {
        Some(place) => endpoint(method, place),
        None => None,
    }
}

/// The characters whose codes the bytes are.
pub open spec fn chars_of(bytes: Seq<u8>) -> Seq<char> {
    bytes.map_values(|byte: u8| byte as char)
}

/// The bytes are the text, character by character.
pub open spec fn spelled(bytes: Seq<u8>, text: Seq<char>) -> bool {
    &&& is_ascii_chars(text)
    &&& bytes.len() == text.len()
    &&& forall|i: int| 0 <= i < text.len() ==> #[trigger] bytes[i] == text[i] as u8
}

proof fn lemma_pieces_grow(text: Seq<char>, upto: int)
    requires
        0 <= upto < text.len(),
    ensures
        pieces(text.take(upto + 1)) == if text[upto] == '/' {
            pieces(text.take(upto)).push(Seq::empty())
        } else {
            pieces(text.take(upto)).drop_last().push(
                pieces(text.take(upto)).last().push(text[upto]),
            )
        },
        pieces(text.take(upto)).len() >= 1,
{
    assert(text.take(upto + 1).drop_last() =~= text.take(upto));
    lemma_pieces_some(text.take(upto));
}

proof fn lemma_pieces_some(text: Seq<char>)
    ensures
        pieces(text).len() >= 1,
    decreases text.len(),
{
    if text.len() > 0 {
        lemma_pieces_some(text.drop_last());
    }
}

/// Cuts a path after its leading slash at the slashes: the bounds of its pieces.
fn cut(bytes: &[u8], Ghost(text): Ghost<Seq<char>>) -> (bounds: Vec<(usize, usize)>)
    requires
        spelled(bytes@, text),
        text.len() >= 1,
    ensures
        bounds@.len() == pieces(text.skip(1)).len(),
        forall|k: int|
            0 <= k < bounds@.len() ==> {
                &&& 1 <= (#[trigger] bounds@[k]).0 <= bounds@[k].1 <= text.len()
                &&& text.subrange(bounds@[k].0 as int, bounds@[k].1 as int) == pieces(
                    text.skip(1),
                )[k]
            },
{
    let ghost rest = text.skip(1);
    let mut bounds: Vec<(usize, usize)> = Vec::new();
    let mut start: usize = 1;
    let mut i: usize = 1;
    proof {
        assert(rest.take(0) =~= Seq::empty());
        assert(text.subrange(1, 1) =~= Seq::empty());
    }
    while i < bytes.len()
        invariant
            spelled(bytes@, text),
            rest == text.skip(1),
            1 <= start <= i <= bytes.len(),
            pieces(rest.take(i - 1)).len() == bounds@.len() + 1,
            pieces(rest.take(i - 1)).last() == text.subrange(start as int, i as int),
            forall|k: int|
                0 <= k < bounds@.len() ==> {
                    &&& 1 <= (#[trigger] bounds@[k]).0 <= bounds@[k].1 <= text.len()
                    &&& text.subrange(bounds@[k].0 as int, bounds@[k].1 as int) == pieces(
                        rest.take(i - 1),
                    )[k]
                },
        decreases bytes.len() - i,
    {
        proof {
            lemma_pieces_grow(rest, i - 1);
            assert(rest[i - 1] == text[i as int]);
        }
        if bytes[i] == SLASH {
            bounds.push((start, i));
            start = i + 1;
            proof {
                assert(text.subrange(start as int, start as int) =~= Seq::empty());
            }
        } else {
            proof {
                assert(text.subrange(start as int, i as int).push(text[i as int])
                    =~= text.subrange(start as int, i + 1));
            }
        }
        i += 1;
    }
    proof {
        assert(rest.take(i - 1) =~= rest);
    }
    bounds.push((start, i));
    bounds
}

proof fn lemma_number_grows(digits: Seq<char>, upto: int)
    requires
        0 <= upto <= digits.len(),
        all_digits(digits),
    ensures
        number(digits.take(upto)) <= number(digits),
    decreases digits.len() - upto,
{
    if upto < digits.len() {
        lemma_number_grows(digits, upto + 1);
        assert(digits.take(upto + 1).drop_last() =~= digits.take(upto));
        assert(is_digit(digits[upto]));
    } else {
        assert(digits.take(upto) =~= digits);
    }
}

/// The number that a hexadecimal digit writes, if the byte is one.
fn hex_digit(byte: u8) -> (value: Option<u8>)
    ensures
        match value {
            Some(value) => hex_value(byte as char) == Some(value as int),
            None => hex_value(byte as char) is None,
        },
{
    if ZERO <= byte && byte <= NINE {
        Some(byte - ZERO)
    } else if 97 <= byte && byte <= 102 {
        Some(byte - 97 + 10)
    } else if 65 <= byte && byte <= 70 {
        Some(byte - 65 + 10)
    } else {
        None
    }
}

/// Copies a piece of a path with its escapes replaced.
fn unescape(bytes: &[u8], from: usize, to: usize, Ghost(text): Ghost<Seq<char>>) -> (plain: Vec<
    u8,
>)
    requires
        spelled(bytes@, text),
        from <= to <= bytes.len(),
    ensures
        chars_of(plain@) == unescaped(text.subrange(from as int, to as int)),
{
    let ghost piece = text.subrange(from as int, to as int);
    let mut plain: Vec<u8> = Vec::new();
    let mut i: usize = from;
    proof {
        assert(piece.skip(0) =~= piece);
        assert(chars_of(plain@) + unescaped(piece) =~= unescaped(piece));
    }
    while i < to
        invariant
            spelled(bytes@, text),
            from <= i <= to <= bytes.len(),
            piece == text.subrange(from as int, to as int),
            chars_of(plain@) + unescaped(piece.skip(i - from)) == unescaped(piece),
        decreases to - i,
    {
        let ghost rest = piece.skip(i - from);
        let ghost before = chars_of(plain@);
        proof {
            assert(rest[0] == text[i as int]);
        }
        let first = if bytes[i] == PERCENT && to - i >= 3 {
            hex_digit(bytes[i + 1])
        } else {
            None
        };
        let second = if first.is_some() {
            hex_digit(bytes[i + 2])
        } else {
            None
        };
        proof {
            if to - i >= 3 {
                assert(rest[1] == text[i + 1]);
                assert(rest[2] == text[i + 2]);
            }
        }
        match (first, second) {
            (Some(high), Some(low)) => {
                let byte: u8 = high * 16 + low;
                plain.push(byte);
                proof {
                    assert(begins_with_escape(rest));
                    assert(rest.skip(3) =~= piece.skip(i - from + 3));
                    assert(chars_of(plain@) =~= before + seq![byte as char]);
                    assert(chars_of(plain@) + unescaped(piece.skip(i - from + 3)) =~= before
                        + unescaped(rest));
                }
                i += 3;
            },
            _ => {
                plain.push(bytes[i]);
                proof {
                    assert(!begins_with_escape(rest));
                    assert(rest.skip(1) =~= piece.skip(i - from + 1));
                    assert(chars_of(plain@) =~= before + seq![rest[0]]);
                    assert(chars_of(plain@) + unescaped(piece.skip(i - from + 1)) =~= before
                        + unescaped(rest));
                }
                i += 1;
            },
        }
    }
    proof {
        assert(chars_of(plain@) + unescaped(piece.skip(to - from)) =~= chars_of(plain@));
    }
    plain
}

/// Reads a piece of a path as a key.
fn read_key(bytes: &[u8], from: usize, to: usize, Ghost(text): Ghost<Seq<char>>) -> (key: Option<
    i32,
>)
    requires
        spelled(bytes@, text),
        from <= to <= bytes.len(),
    ensures
        key == key_of(text.subrange(from as int, to as int)),
{
    let plain = unescape(bytes, from, to, Ghost(text));
    read_plain_key(&plain)
}

/// Reads a text without escapes as a key.
fn read_plain_key(bytes: &Vec<u8>) -> (key: Option<i32>)
    ensures
        key == key_written(chars_of(bytes@)),
{
    let ghost text = chars_of(bytes@);
    let ghost piece = text;
    let from: usize = 0;
    let to: usize = bytes.len();
    proof {
        assert(text.subrange(0, to as int) =~= text);
    }
    if from == to {
        return None;
    }
    let negative = bytes[from] == MINUS;
    let signed = negative || bytes[from] == PLUS;
    let first: usize = if signed {
        from + 1
    } else {
        from
    };
    let ghost digits = text.subrange(first as int, to as int);
    proof {
        assert(piece[0] == text[from as int]);
        assert(unsigned(piece) =~= digits);
        assert(digits.take(0) =~= Seq::empty());
    }
    if first == to {
        return None;
    }
    let mut value: i64 = 0;
    let mut i: usize = first;
    while i < to
        invariant
            text == chars_of(bytes@),
            first <= i <= to <= bytes.len(),
            piece == text,
            from == 0,
            to == bytes.len(),
            from < to,
            negative == (piece[0] == '-'),
            digits == unsigned(piece),
            digits == text.subrange(first as int, to as int),
            forall|j: int| 0 <= j < i - first ==> is_digit(#[trigger] digits[j]),
            value == number(digits.take(i - first)),
            0 <= value <= LARGEST,
        decreases to - i,
    {
        let byte = bytes[i];
        proof {
            assert(digits[i - first] == text[i as int]);
            assert(digits.take(i - first + 1).drop_last() =~= digits.take(i - first));
        }
        if byte < ZERO || byte > NINE {
            proof {
                assert(!is_digit(digits[i - first]));
            }
            return None;
        }
        value = value * 10 + (byte - ZERO) as i64;
        if value > LARGEST {
            proof {
                if all_digits(digits) {
                    lemma_number_grows(digits, i - first + 1);
                }
            }
            return None;
        }
        i += 1;
    }
    proof {
        assert(digits.take(to - first) =~= digits);
    }
    if negative {
        Some((0 - value) as i32)
    } else if value < LARGEST {
        Some(value as i32)
    } else {
        None
    }
}

/// Tests whether a piece of a path is a word.
fn is_word(bytes: &[u8], from: usize, to: usize, word: &str, Ghost(text): Ghost<Seq<char>>) -> (yes:
    bool)
    requires
        spelled(bytes@, text),
        from <= to <= bytes.len(),
        is_ascii_chars(word@),
    ensures
        yes == (text.subrange(from as int, to as int) == word@),
{
    let ghost piece = text.subrange(from as int, to as int);
    let wanted = word.as_bytes();
    proof {
        is_ascii_spec_bytes(word);
    }
    if wanted.len() != to - from {
        return false;
    }
    let mut i: usize = 0;
    while i < wanted.len()
        invariant
            spelled(bytes@, text),
            is_ascii_chars(word@),
            from <= to <= bytes.len(),
            wanted@.len() == to - from,
            wanted@.len() == word@.len(),
            piece == text.subrange(from as int, to as int),
            forall|j: int| 0 <= j < wanted@.len() ==> #[trigger] wanted@[j] == word@[j] as u8,
            i <= wanted@.len(),
            forall|j: int| 0 <= j < i ==> #[trigger] piece[j] == word@[j],
        decreases wanted@.len() - i,
    {
        if bytes[from + i] != wanted[i] {
            proof {
                assert(piece[i as int] == text[from + i]);
                assert(piece[i as int] != word@[i as int]);
            }
            return false;
        }
        proof {
            assert(piece[i as int] == text[from + i]);
        }
        i += 1;
    }
    proof {
        assert(piece =~= word@);
    }
    true
}

/// Finds the place that the pieces of a path name.
fn locate(bytes: &[u8], bounds: &Vec<(usize, usize)>, Ghost(text): Ghost<Seq<char>>) -> (place:
    Option<Place>)
    requires
        spelled(bytes@, text),
        text.len() >= 1,
        bounds@.len() == pieces(text.skip(1)).len(),
        forall|k: int|
            0 <= k < bounds@.len() ==> {
                &&& 1 <= (#[trigger] bounds@[k]).0 <= bounds@[k].1 <= text.len()
                &&& text.subrange(bounds@[k].0 as int, bounds@[k].1 as int) == pieces(
                    text.skip(1),
                )[k]
            },
    ensures
        place == located(pieces(text.skip(1))),
{
    proof {
        reveal_strlit("house");
        reveal_strlit("houses");
        reveal_strlit("rooms");
        reveal_strlit("devices");
    }
    let count = bounds.len();
    if count == 1 {
        return if is_word(bytes, bounds[0].0, bounds[0].1, "house", Ghost(text)) {
            Some(Place::Houses)
        } else {
            None
        };
    }
    if count < 2 || count > 6 {
        return None;
    }
    if !is_word(bytes, bounds[0].0, bounds[0].1, "houses", Ghost(text)) {
        return None;
    }
    let house_id: i32 = match read_key(bytes, bounds[1].0, bounds[1].1, Ghost(text)) {
        Some(key) => key,
        None => {
            return None;
        },
    };
    if count == 2 {
        return Some(Place::House { house_id });
    }
    if !is_word(bytes, bounds[2].0, bounds[2].1, "rooms", Ghost(text)) {
        return None;
    }
    if count == 3 {
        return Some(Place::Rooms { house_id });
    }
    let room_id: i32 = match read_key(bytes, bounds[3].0, bounds[3].1, Ghost(text)) {
        Some(key) => key,
        None => {
            return None;
        },
    };
    if count == 4 {
        return Some(Place::Room { house_id, room_id });
    }
    if !is_word(bytes, bounds[4].0, bounds[4].1, "devices", Ghost(text)) {
        return None;
    }
    if count == 5 {
        return Some(Place::Devices { house_id, room_id });
    }
    match read_key(bytes, bounds[5].0, bounds[5].1, Ghost(text)) {
        Some(device_id) => Some(Place::Device { house_id, room_id, device_id }),
        None => None,
    }
}

/// Finds the handler for a method at a place.
pub fn handler_at(method: Method, place: Place) -> (route: Option<Route>)
    ensures
        route == endpoint(method, place),
{
    match place {
        Place::Houses => match method {
            Method::Get => Some(Route::ListHouses),
            Method::Post => Some(Route::AddHouse),
            Method::Delete => Some(Route::DropAll),
            Method::Put => None,
        },
        Place::House { house_id } => match method {
            Method::Put => Some(Route::UpdHouse { house_id }),
            Method::Delete => Some(Route::DelHouse { house_id }),
            _ => None,
        },
        Place::Rooms { house_id } => match method {
            Method::Get => Some(Route::GetRooms { house_id }),
            Method::Post => Some(Route::AddRoom { house_id }),
            _ => None,
        },
        Place::Room { house_id, room_id } => match method {
            Method::Put => Some(Route::UpdRoom { house_id, room_id }),
            Method::Delete => Some(Route::DelRoom { house_id, room_id }),
            _ => None,
        },
        Place::Devices { house_id, room_id } => match method {
            Method::Get => Some(Route::GetDevices { house_id, room_id }),
            Method::Post => Some(Route::AddDevice { house_id, room_id }),
            _ => None,
        },
        Place::Device { house_id, room_id, device_id } => match method {
            Method::Put => Some(Route::UpdDevice { house_id, room_id, device_id }),
            Method::Delete => Some(Route::DelDevice { house_id, room_id, device_id }),
            _ => None,
        },
    }
}

/// Finds the place that a path names, with the keys that the path holds.
pub fn place(path: &str) -> (place: Option<Place>)
    ensures
        place == placed(path@),
{
    if !path.is_ascii() {
        return None;
    }
    let bytes = path.as_bytes();
    proof {
        is_ascii_spec_bytes(path);
    }
    if bytes.len() == 0 || bytes[0] != SLASH {
        return None;
    }
    let bounds = cut(bytes, Ghost(path@));
    locate(bytes, &bounds, Ghost(path@))
}

/// Finds the handler for a request, with the keys that its path holds.
pub fn route(method: Method, path: &str) -> (route: Option<Route>)
    ensures
        route == routed(method, path@),
{
    match place(path) {
        Some(place) => handler_at(method, place),
        None => None,
    }
}

impl Payload {
    /// Which kind of body this is.
    pub open spec fn kind(self) -> PayloadKind {
        match self {
            Payload::Nothing => PayloadKind::Nothing,
            Payload::House(_) => PayloadKind::House,
            Payload::Room(_) => PayloadKind::Room,
            Payload::Device(_) => PayloadKind::Device,
        }
    }
}

impl Route {
    /// The kind of body that a request on this route brings: the form of a
    /// house, a room or a device where one is created or changed, else none.
    pub open spec fn wants(self) -> PayloadKind {
        match self {
            Route::AddHouse => PayloadKind::House,
            Route::UpdHouse { .. } => PayloadKind::House,
            Route::AddRoom { .. } => PayloadKind::Room,
            Route::UpdRoom { .. } => PayloadKind::Room,
            Route::AddDevice { .. } => PayloadKind::Device,
            Route::UpdDevice { .. } => PayloadKind::Device,
            _ => PayloadKind::Nothing,
        }
    }

    /// The operation that a request on this route asks for, where its body is
    /// of the kind that the route takes. Of the keys of the path, the
    /// operation keeps those that its handler looks at.
    pub open spec fn made(self, payload: Payload) -> Option<Operation> {
        match (self, payload) {
            (Route::ListHouses, Payload::Nothing) => Some(Operation::ListHouses),
            (Route::AddHouse, Payload::House(house_form)) => Some(
                Operation::AddHouse { house_form },
            ),
            (Route::DropAll, Payload::Nothing) => Some(Operation::DropAll),
            (Route::UpdHouse { house_id }, Payload::House(house_form)) => Some(
                Operation::UpdHouse { house_id, house_form },
            ),
            (Route::DelHouse { house_id }, Payload::Nothing) => Some(
                Operation::DelHouse { house_id },
            ),
            (Route::GetRooms { house_id }, Payload::Nothing) => Some(
                Operation::GetRooms { house_id },
            ),
            (Route::AddRoom { house_id }, Payload::Room(room_form)) => Some(
                Operation::AddRoom { house_id, room_form },
            ),
            (Route::UpdRoom { house_id, room_id }, Payload::Room(room_form)) => Some(
                Operation::UpdRoom { room_id, room_form },
            ),
            (Route::DelRoom { house_id, room_id }, Payload::Nothing) => Some(
                Operation::DelRoom { room_id },
            ),
            (Route::GetDevices { house_id, room_id }, Payload::Nothing) => Some(
                Operation::GetDevices { room_id },
            ),
            (Route::AddDevice { house_id, room_id }, Payload::Device(device_form)) => Some(
                Operation::AddDevice { room_id, device_form },
            ),
            (
                Route::UpdDevice { house_id, room_id, device_id },
                Payload::Device(device_form),
            ) => Some(Operation::UpdDevice { room_id, device_id, device_form }),
            (Route::DelDevice { house_id, room_id, device_id }, Payload::Nothing) => Some(
                Operation::DelDevice { room_id, device_id },
            ),
            _ => None,
        }
    }

    /// Says which kind of body a request on this route brings.
    pub fn payload_kind(&self) -> (kind: PayloadKind)
        ensures
            kind == self.wants(),
    {
        match self {
            Route::AddHouse => PayloadKind::House,
            Route::UpdHouse { .. } => PayloadKind::House,
            Route::AddRoom { .. } => PayloadKind::Room,
            Route::UpdRoom { .. } => PayloadKind::Room,
            Route::AddDevice { .. } => PayloadKind::Device,
            Route::UpdDevice { .. } => PayloadKind::Device,
            _ => PayloadKind::Nothing,
        }
    }

    /// Makes the operation out of the route and the body of the request.
    pub fn operation(self, payload: Payload) -> (operation: Option<Operation>)
        ensures
            operation == self.made(payload),
            operation is Some <==> payload.kind() == self.wants(),
    {
        match self {
            Route::ListHouses => match payload {
                Payload::Nothing => Some(Operation::ListHouses),
                _ => None,
            },
            Route::AddHouse => match payload {
                Payload::House(house_form) => Some(Operation::AddHouse { house_form }),
                _ => None,
            },
            Route::DropAll => match payload {
                Payload::Nothing => Some(Operation::DropAll),
                _ => None,
            },
            Route::UpdHouse { house_id } => match payload {
                Payload::House(house_form) => Some(Operation::UpdHouse { house_id, house_form }),
                _ => None,
            },
            Route::DelHouse { house_id } => match payload {
                Payload::Nothing => Some(Operation::DelHouse { house_id }),
                _ => None,
            },
            Route::GetRooms { house_id } => match payload {
                Payload::Nothing => Some(Operation::GetRooms { house_id }),
                _ => None,
            },
            Route::AddRoom { house_id } => match payload {
                Payload::Room(room_form) => Some(Operation::AddRoom { house_id, room_form }),
                _ => None,
            },
            Route::UpdRoom { house_id: _, room_id } => match payload {
                Payload::Room(room_form) => Some(
                    Operation::UpdRoom { room_id, room_form },
                ),
                _ => None,
            },
            Route::DelRoom { house_id: _, room_id } => match payload {
                Payload::Nothing => Some(Operation::DelRoom { room_id }),
                _ => None,
            },
            Route::GetDevices { house_id: _, room_id } => match payload {
                Payload::Nothing => Some(Operation::GetDevices { room_id }),
                _ => None,
            },
            Route::AddDevice { house_id: _, room_id } => match payload {
                Payload::Device(device_form) => Some(Operation::AddDevice { room_id, device_form }),
                _ => None,
            },
            Route::UpdDevice { house_id: _, room_id, device_id } => match payload {
                Payload::Device(device_form) => Some(
                    Operation::UpdDevice { room_id, device_id, device_form },
                ),
                _ => None,
            },
            Route::DelDevice { house_id: _, room_id, device_id } => match payload {
                Payload::Nothing => Some(Operation::DelDevice { room_id, device_id }),
                _ => None,
            },
        }
    }
}

} // verus!

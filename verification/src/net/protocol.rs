//! The binary encoding of events: one tag byte naming the variant, then a
//! payload of fixed layout with every number in big-endian byte order.

use crate::game::graphics::{
    mesh_at, mesh_index, spec_mesh_at, spec_mesh_index, Color, MeshType, MESH_COUNT,
};
use crate::game::keyboard::{key_at, key_index, spec_key_at, spec_key_index, KeyCode, KEY_COUNT};
use crate::misc::scalar::Scalar;
use crate::net::event::{Event, EventView, Handle};
use vstd::arithmetic::div_mod::{
    lemma_fundamental_div_mod_converse, lemma_mod_breakdown, lemma_mod_mod,
};
use vstd::prelude::*;
use vstd::slice::slice_to_vec;

verus! {

/// Tag of `Ready`: the letter r.
pub const TAG_READY: u8 = 0x72;

/// Tag of `Standby`: the letter s.
pub const TAG_STANDBY: u8 = 0x73;

/// Tag of `Start`: the letter S.
pub const TAG_START: u8 = 0x53;

/// Tag of `Movement`: the letter M.
pub const TAG_MOVEMENT: u8 = 0x4D;

/// Tag of `RequestMovement`: the letter m.
pub const TAG_REQUEST_MOVEMENT: u8 = 0x6D;

/// Tag of `Custom`: the letter c.
pub const TAG_CUSTOM: u8 = 0x63;

/// Tag of `Yield`: the letter Y.
pub const TAG_YIELD: u8 = 0x59;

/// Tag of `Spawn`: the letter P.
pub const TAG_SPAWN: u8 = 0x50;

/// Tag of `PickUp`: the letter p.
pub const TAG_PICK_UP: u8 = 0x70;

/// Tag of `KeyDown`: the letter d.
pub const TAG_KEY_DOWN: u8 = 0x64;

/// Tag of `KeyUp`: the letter u.
pub const TAG_KEY_UP: u8 = 0x75;

/// Tag of `Despawn`: the letter B.
pub const TAG_DESPAWN: u8 = 0x42;

/// Tag of `Health`: the letter H.
pub const TAG_HEALTH: u8 = 0x48;

/// Tag of `Color`: the letter C.
pub const TAG_COLOR: u8 = 0x43;

/// Tag of `Dimension`: the letter D.
pub const TAG_DIMENSION: u8 = 0x44;

/// Tag of `GameOver`: the letter G.
pub const TAG_GAME_OVER: u8 = 0x47;

/// Tag of `MapChoice`: the letter a.
pub const TAG_MAP: u8 = 0x61;

/// Two to the power 120: what is left of a 128-bit number once its top byte
/// is dropped.
pub const TOP_BYTE_WEIGHT: u128 = 0x0100_0000_0000_0000_0000_0000_0000_0000;

/// The number of values that `width` bytes can tell apart.
pub open spec fn spec_limit(width: nat) -> nat
    decreases width,
{
    if width == 0 {
        1
    } else {
        256 * spec_limit((width - 1) as nat)
    }
}

/// The last `width` base-256 digits of `value`, most significant first.
pub open spec fn spec_be_bytes(value: nat, width: nat) -> Seq<u8>
    decreases width,
{
    if width == 0 {
        Seq::empty()
    } else {
        spec_be_bytes(value / 256, (width - 1) as nat).push((value % 256) as u8)
    }
}

/// The number whose base-256 digits, most significant first, are `bytes`.
pub open spec fn spec_be_value(bytes: Seq<u8>) -> nat
    decreases bytes.len(),
{
    if bytes.len() == 0 {
        0
    } else {
        spec_be_value(bytes.drop_last()) * 256 + bytes.last() as nat
    }
}

/// The first four bytes of `bytes`, with zeros where `bytes` has none.
pub open spec fn spec_padded(bytes: Seq<u8>) -> Seq<u8> {
    Seq::new(4, |i: int| if i < bytes.len() { bytes[i] } else { 0u8 })
}

/// The unsigned 32-bit number with the same bits as `number`.
pub open spec fn spec_unsigned(number: i32) -> nat {
    if number >= 0 {
        number as nat
    } else {
        (number + 0x1_0000_0000) as nat
    }
}

/// The signed 32-bit number with the same bits as `value`.
pub open spec fn spec_signed(value: nat) -> int {
    if value < 0x8000_0000 {
        value as int
    } else {
        value - 0x1_0000_0000
    }
}

/// The mesh kind that a decoded index names, if any.
pub open spec fn spec_mesh_of(index: nat) -> Option<MeshType> {
    if index < MESH_COUNT {
        spec_mesh_at(index as usize)
    } else {
        None
    }
}

/// The key that a decoded index names, if any.
pub open spec fn spec_key_of(index: nat) -> Option<KeyCode> {
    if index < KEY_COUNT {
        spec_key_at(index as usize)
    } else {
        None
    }
}

/// `width` bytes hold `width` digits.
pub proof fn lemma_be_bytes_len(value: nat, width: nat)
    ensures
        spec_be_bytes(value, width).len() == width,
    decreases width,
{
    if width > 0 {
        lemma_be_bytes_len(value / 256, (width - 1) as nat);
    }
}

/// A number that fits in `width` bytes is read back from them unchanged.
pub proof fn lemma_be_value_of_bytes(value: nat, width: nat)
    requires
        value < spec_limit(width),
    ensures
        spec_be_value(spec_be_bytes(value, width)) == value,
    decreases width,
{
    if width > 0 {
        let rest = spec_be_bytes(value / 256, (width - 1) as nat);
        lemma_be_value_of_bytes(value / 256, (width - 1) as nat);
        assert(rest.push((value % 256) as u8).drop_last() =~= rest);
    }
}

/// What is read from `bytes` fits in as many bytes, and writing it back
/// gives `bytes`.
pub proof fn lemma_be_bytes_of_value(bytes: Seq<u8>)
    ensures
        spec_be_value(bytes) < spec_limit(bytes.len()),
        spec_be_bytes(spec_be_value(bytes), bytes.len()) == bytes,
    decreases bytes.len(),
{
    if bytes.len() > 0 {
        lemma_be_bytes_of_value(bytes.drop_last());
        let high = spec_be_value(bytes.drop_last());
        let value = high * 256 + bytes.last() as nat;
        assert(value / 256 == high && value % 256 == bytes.last() as nat) by {
            lemma_fundamental_div_mod_converse(value as int, 256, high as int, bytes.last() as int);
        }
        assert(spec_be_bytes(high, (bytes.len() - 1) as nat).push(bytes.last()) =~= bytes);
    } else {
        assert(spec_be_bytes(0, 0) =~= bytes);
    }
}

/// The limits of the widths that the encoding uses.
pub proof fn lemma_limits()
    ensures
        spec_limit(1) == 0x100,
        spec_limit(4) == 0x1_0000_0000,
        spec_limit(8) == 0x1_0000_0000_0000_0000,
        spec_limit(15) == TOP_BYTE_WEIGHT,
        spec_limit(16) == 256 * TOP_BYTE_WEIGHT,
{
    reveal_with_fuel(spec_limit, 17);
}

/// The four big-endian bytes of a 32-bit number.
pub fn u32_to_bytes(number: u32) -> (bytes: Vec<u8>)
    ensures
        bytes@ == spec_be_bytes(number as nat, 4),
        bytes.len() == 4,
{
    let r1: u32 = number / 256;
    let r2: u32 = r1 / 256;
    let r3: u32 = r2 / 256;
    let mut bytes: Vec<u8> = Vec::with_capacity(4);
    bytes.push((r3 % 256) as u8);
    bytes.push((r2 % 256) as u8);
    bytes.push((r1 % 256) as u8);
    bytes.push((number % 256) as u8);
    proof {
        reveal_with_fuel(spec_be_bytes, 5);
        assert(bytes@ =~= spec_be_bytes(number as nat, 4));
    }
    bytes
}

/// The eight big-endian bytes of a 64-bit number.
pub fn u64_to_bytes(number: u64) -> (bytes: Vec<u8>)
    ensures
        bytes@ == spec_be_bytes(number as nat, 8),
        bytes.len() == 8,
{
    let r1: u64 = number / 256;
    let r2: u64 = r1 / 256;
    let r3: u64 = r2 / 256;
    let r4: u64 = r3 / 256;
    let r5: u64 = r4 / 256;
    let r6: u64 = r5 / 256;
    let r7: u64 = r6 / 256;
    let mut bytes: Vec<u8> = Vec::with_capacity(8);
    bytes.push((r7 % 256) as u8);
    bytes.push((r6 % 256) as u8);
    bytes.push((r5 % 256) as u8);
    bytes.push((r4 % 256) as u8);
    bytes.push((r3 % 256) as u8);
    bytes.push((r2 % 256) as u8);
    bytes.push((r1 % 256) as u8);
    bytes.push((number % 256) as u8);
    proof {
        reveal_with_fuel(spec_be_bytes, 9);
        assert(bytes@ =~= spec_be_bytes(number as nat, 8));
    }
    bytes
}

/// The big-endian bytes of an index. An index always takes eight bytes on
/// the wire, whatever the width of `usize` on the machine.
pub fn usize_to_bytes(number: usize) -> (bytes: Vec<u8>)
    ensures
        bytes@ == spec_be_bytes(number as nat, 8),
        bytes.len() == 8,
{
    u64_to_bytes(number as u64)
}

/// The four big-endian bytes of a signed 32-bit number in two's complement.
pub fn i32_to_bytes(number: i32) -> (bytes: Vec<u8>)
    ensures
        bytes@ == spec_be_bytes(spec_unsigned(number), 4),
        bytes.len() == 4,
{
    let unsigned: u32 = if number >= 0 {
        number as u32
    } else {
        (number + 0x7FFF_FFFF + 1) as u32 + 0x8000_0000
    };
    u32_to_bytes(unsigned)
}

/// The four big-endian bytes of a single-precision number's bit pattern.
pub fn scalar_to_bytes(number: Scalar) -> (bytes: Vec<u8>)
    ensures
        bytes@ == spec_be_bytes(number as nat, 4),
        bytes.len() == 4,
{
    u32_to_bytes(number)
}

/// Reads `bytes` as one big-endian number. Of more than sixteen bytes only
/// the last sixteen count: what is returned is the value modulo two to the
/// power 128, which is
/// `spec_limit(16)`.
pub fn unsigned_from_bytes(bytes: &[u8]) -> (unsigned: u128)
    ensures
        unsigned == spec_be_value(bytes@) % spec_limit(16),
        bytes@.len() <= 16 ==> unsigned == spec_be_value(bytes@),
{
    let mut unsigned: u128 = 0;
    let mut i: usize = 0;
    proof {
        lemma_limits();
        assert(bytes@.take(0).len() == 0);
    }
    while i < bytes.len()
        invariant
            i <= bytes.len(),
            unsigned == spec_be_value(bytes@.take(i as int)) % spec_limit(16),
        decreases bytes.len() - i,
    {
        let byte: u8 = bytes[i];
        proof {
            lemma_limits();
            let before = spec_be_value(bytes@.take(i as int)) as int;
            let after = before * 256 + byte as int;
            assert(bytes@.take(i + 1).drop_last() =~= bytes@.take(i as int));
            assert(spec_be_value(bytes@.take(i + 1)) == after);
            lemma_fundamental_div_mod_converse(after, 256, before, byte as int);
            lemma_mod_breakdown(after, 256, 0x0100_0000_0000_0000_0000_0000_0000_0000);
            lemma_mod_mod(before, 0x0100_0000_0000_0000_0000_0000_0000_0000, 256);
        }
        unsigned = (unsigned % TOP_BYTE_WEIGHT) * 256 + byte as u128;
        i += 1;
    }
    proof {
        assert(bytes@.take(bytes@.len() as int) =~= bytes@);
        if bytes@.len() <= 16 {
            lemma_be_bytes_of_value(bytes@);
            lemma_limit_monotonic(bytes@.len(), 16);
            lemma_limits();
        }
    }
    unsigned
}

/// More bytes tell more values apart.
pub proof fn lemma_limit_monotonic(narrow: nat, wide: nat)
    requires
        narrow <= wide,
    ensures
        spec_limit(narrow) <= spec_limit(wide),
    decreases wide,
{
    if narrow < wide {
        lemma_limit_monotonic(narrow, (wide - 1) as nat);
    }
}

/// The big-endian number held by the first four bytes of `bytes`, with
/// zeros standing in for bytes that are missing.
fn padded_value(bytes: &[u8]) -> (value: u32)
    ensures
        value == spec_be_value(spec_padded(bytes@)),
{
    let b0: u8 = if bytes.len() > 0 { bytes[0] } else { 0 };
    let b1: u8 = if bytes.len() > 1 { bytes[1] } else { 0 };
    let b2: u8 = if bytes.len() > 2 { bytes[2] } else { 0 };
    let b3: u8 = if bytes.len() > 3 { bytes[3] } else { 0 };
    proof {
        let padded = spec_padded(bytes@);
        reveal_with_fuel(spec_be_value, 5);
        assert(padded.drop_last().drop_last().drop_last().drop_last().len() == 0);
        assert(padded[0] == b0 && padded[1] == b1 && padded[2] == b2 && padded[3] == b3);
    }
    ((b0 as u32 * 256 + b1 as u32) * 256 + b2 as u32) * 256 + b3 as u32
}

/// Reads a signed 32-bit number from the first four bytes of `bytes`, with
/// zeros standing in for bytes that are missing.
pub fn i32_from_bytes(bytes: &[u8]) -> (number: i32)
    ensures
        number == spec_signed(spec_be_value(spec_padded(bytes@))),
{
    let value: u32 = padded_value(bytes);
    if value >= 0x8000_0000 {
        (value - 0x8000_0000) as i32 - 0x7FFF_FFFF - 1
    } else {
        value as i32
    }
}

/// Reads the bit pattern of a single-precision number from the first four
/// bytes of `bytes`, with zeros standing in for bytes that are missing.
pub fn scalar_from_bytes(bytes: &[u8]) -> (number: Scalar)
    ensures
        number == spec_be_value(spec_padded(bytes@)),
        bytes@.len() == 4 ==> number == spec_be_value(bytes@),
{
    proof {
        if bytes@.len() == 4 {
            assert(spec_padded(bytes@) =~= bytes@);
        }
    }
    padded_value(bytes)
}

/// The bytes that stand for an event.
pub open spec fn spec_encode(event: EventView) -> Seq<u8> {
    match event {
        EventView::Ready => seq![TAG_READY],
        EventView::Standby => seq![TAG_STANDBY],
        EventView::Start => seq![TAG_START],
        EventView::Movement(handle, x, y, angle) => seq![TAG_MOVEMENT] + spec_be_bytes(
            handle as nat,
            8,
        ) + spec_be_bytes(x as nat, 4) + spec_be_bytes(y as nat, 4) + spec_be_bytes(angle as nat, 4),
        EventView::RequestMovement(handle, x, y, angle) => seq![TAG_REQUEST_MOVEMENT]
            + spec_be_bytes(handle as nat, 8) + spec_be_bytes(x as nat, 4) + spec_be_bytes(
            y as nat,
            4,
        ) + spec_be_bytes(angle as nat, 4),
        EventView::Custom(kind, data) => seq![TAG_CUSTOM] + spec_be_bytes(kind as nat, 4) + data,
        EventView::Yield(handle) => seq![TAG_YIELD] + spec_be_bytes(handle as nat, 8),
        EventView::Spawn(handle, mesh_type) => seq![TAG_SPAWN] + spec_be_bytes(handle as nat, 8)
            + spec_be_bytes(spec_mesh_index(mesh_type) as nat, 8),
        EventView::PickUp(handle, mesh_type) => seq![TAG_PICK_UP] + spec_be_bytes(handle as nat, 8)
            + spec_be_bytes(spec_mesh_index(mesh_type) as nat, 8),
        EventView::Despawn(handle) => seq![TAG_DESPAWN] + spec_be_bytes(handle as nat, 8),
        EventView::KeyDown(key_code) => seq![TAG_KEY_DOWN] + spec_be_bytes(
            spec_key_index(key_code) as nat,
            8,
        ),
        EventView::KeyUp(key_code) => seq![TAG_KEY_UP] + spec_be_bytes(
            spec_key_index(key_code) as nat,
            8,
        ),
        EventView::Health(handle, health) => (seq![TAG_HEALTH] + spec_be_bytes(handle as nat, 8)).push(
            health,
        ),
        EventView::Color(handle, color) => seq![TAG_COLOR] + spec_be_bytes(handle as nat, 8)
            + seq![color.r, color.g, color.b, color.a],
        EventView::Dimension(handle, width, height) => seq![TAG_DIMENSION] + spec_be_bytes(
            handle as nat,
            8,
        ) + spec_be_bytes(width as nat, 4) + spec_be_bytes(height as nat, 4),
        EventView::GameOver => seq![TAG_GAME_OVER],
        EventView::MapChoice(map_index) => seq![TAG_MAP] + spec_be_bytes(map_index as nat, 8),
    }
}

/// The event that a tag and its payload stand for, if the tag is known and
/// the payload has the length that the tag calls for.
pub open spec fn spec_interpret_data(leading_byte: u8, data: Seq<u8>) -> Option<EventView> {
    if leading_byte == TAG_READY {
        spec_decode_ready(data)
    } else if leading_byte == TAG_STANDBY {
        spec_decode_standby(data)
    } else if leading_byte == TAG_START {
        spec_decode_start(data)
    } else if leading_byte == TAG_MOVEMENT {
        spec_decode_movement(data)
    } else if leading_byte == TAG_REQUEST_MOVEMENT {
        spec_decode_request_movement(data)
    } else if leading_byte == TAG_CUSTOM {
        spec_decode_custom(data)
    } else if leading_byte == TAG_YIELD {
        spec_decode_yield(data)
    } else if leading_byte == TAG_SPAWN {
        spec_decode_spawn(data)
    } else if leading_byte == TAG_PICK_UP {
        spec_decode_pick_up(data)
    } else if leading_byte == TAG_KEY_DOWN {
        spec_decode_key_down(data)
    } else if leading_byte == TAG_KEY_UP {
        spec_decode_key_up(data)
    } else if leading_byte == TAG_DESPAWN {
        spec_decode_despawn(data)
    } else if leading_byte == TAG_HEALTH {
        spec_decode_health(data)
    } else if leading_byte == TAG_COLOR {
        spec_decode_color(data)
    } else if leading_byte == TAG_DIMENSION {
        spec_decode_dimension(data)
    } else if leading_byte == TAG_GAME_OVER {
        spec_decode_game_over(data)
    } else if leading_byte == TAG_MAP {
        spec_decode_map(data)
    } else {
        None
    }
}

/// The event that a message stands for, if any.
pub open spec fn spec_decode(bytes: Seq<u8>) -> Option<EventView> {
    if bytes.len() == 0 {
        None
    } else {
        spec_interpret_data(bytes[0], bytes.skip(1))
    }
}

pub open spec fn spec_decode_ready(data: Seq<u8>) -> Option<EventView> {
    if data.len() == 0 {
        Some(EventView::Ready)
    } else {
        None
    }
}

pub open spec fn spec_decode_standby(data: Seq<u8>) -> Option<EventView> {
    if data.len() == 0 {
        Some(EventView::Standby)
    } else {
        None
    }
}

pub open spec fn spec_decode_start(data: Seq<u8>) -> Option<EventView> {
    if data.len() == 0 {
        Some(EventView::Start)
    } else {
        None
    }
}

pub open spec fn spec_decode_game_over(data: Seq<u8>) -> Option<EventView> {
    if data.len() == 0 {
        Some(EventView::GameOver)
    } else {
        None
    }
}

pub open spec fn spec_decode_movement(data: Seq<u8>) -> Option<EventView> {
    if data.len() == 20 {
        Some(
            EventView::Movement(
                spec_be_value(data.subrange(0, 8)) as u64,
                spec_be_value(data.subrange(8, 12)) as u32,
                spec_be_value(data.subrange(12, 16)) as u32,
                spec_be_value(data.subrange(16, 20)) as u32,
            ),
        )
    } else {
        None
    }
}

pub open spec fn spec_decode_request_movement(data: Seq<u8>) -> Option<EventView> {
    if data.len() == 20 {
        Some(
            EventView::RequestMovement(
                spec_be_value(data.subrange(0, 8)) as u64,
                spec_be_value(data.subrange(8, 12)) as u32,
                spec_be_value(data.subrange(12, 16)) as u32,
                spec_be_value(data.subrange(16, 20)) as u32,
            ),
        )
    } else {
        None
    }
}

pub open spec fn spec_decode_custom(data: Seq<u8>) -> Option<EventView> {
    if data.len() >= 4 {
        Some(
            EventView::Custom(
                spec_be_value(data.subrange(0, 4)) as u32,
                data.subrange(4, data.len() as int),
            ),
        )
    } else {
        None
    }
}

pub open spec fn spec_decode_yield(data: Seq<u8>) -> Option<EventView> {
    if data.len() == 8 {
        Some(EventView::Yield(spec_be_value(data) as u64))
    } else {
        None
    }
}

pub open spec fn spec_decode_despawn(data: Seq<u8>) -> Option<EventView> {
    if data.len() == 8 {
        Some(EventView::Despawn(spec_be_value(data) as u64))
    } else {
        None
    }
}

pub open spec fn spec_decode_spawn(data: Seq<u8>) -> Option<EventView> {
    if data.len() == 16 {
        match spec_mesh_of(spec_be_value(data.subrange(8, 16))) {
            Some(mesh_type) => Some(
                EventView::Spawn(spec_be_value(data.subrange(0, 8)) as u64, mesh_type),
            ),
            None => None,
        }
    } else {
        None
    }
}

pub open spec fn spec_decode_pick_up(data: Seq<u8>) -> Option<EventView> {
    if data.len() == 16 {
        match spec_mesh_of(spec_be_value(data.subrange(8, 16))) {
            Some(mesh_type) => Some(
                EventView::PickUp(spec_be_value(data.subrange(0, 8)) as u64, mesh_type),
            ),
            None => None,
        }
    } else {
        None
    }
}

pub open spec fn spec_decode_key_down(data: Seq<u8>) -> Option<EventView> {
    if data.len() == 8 {
        match spec_key_of(spec_be_value(data)) {
            Some(key_code) => Some(EventView::KeyDown(key_code)),
            None => None,
        }
    } else {
        None
    }
}

pub open spec fn spec_decode_key_up(data: Seq<u8>) -> Option<EventView> {
    if data.len() == 8 {
        match spec_key_of(spec_be_value(data)) {
            Some(key_code) => Some(EventView::KeyUp(key_code)),
            None => None,
        }
    } else {
        None
    }
}

pub open spec fn spec_decode_health(data: Seq<u8>) -> Option<EventView> {
    if data.len() == 9 {
        Some(EventView::Health(spec_be_value(data.subrange(0, 8)) as u64, data[8]))
    } else {
        None
    }
}

pub open spec fn spec_decode_color(data: Seq<u8>) -> Option<EventView> {
    if data.len() == 12 {
        Some(
            EventView::Color(
                spec_be_value(data.subrange(0, 8)) as u64,
                Color { r: data[8], g: data[9], b: data[10], a: data[11] },
            ),
        )
    } else {
        None
    }
}

pub open spec fn spec_decode_dimension(data: Seq<u8>) -> Option<EventView> {
    if data.len() == 16 {
        Some(
            EventView::Dimension(
                spec_be_value(data.subrange(0, 8)) as u64,
                spec_be_value(data.subrange(8, 12)) as u32,
                spec_be_value(data.subrange(12, 16)) as u32,
            ),
        )
    } else {
        None
    }
}

pub open spec fn spec_decode_map(data: Seq<u8>) -> Option<EventView> {
    if data.len() == 8 && spec_be_value(data) <= usize::MAX {
        Some(EventView::MapChoice(spec_be_value(data) as usize))
    } else {
        None
    }
}

/// The view of a decoded event, if there is one.
pub open spec fn spec_view_of(event: Option<Event>) -> Option<EventView> {
    match event {
        Some(event) => Some(event@),
        None => None,
    }
}

/// A way of writing events as bytes and reading them back.
pub trait Protocol {
    /// The bytes that stand for an event.
    spec fn encoded(event: EventView) -> Seq<u8>;

    /// The event that a message stands for, if any.
    spec fn decoded(bytes: Seq<u8>) -> Option<EventView>;

    /// Writes an event as bytes.
    fn encode(event: &Event) -> (bytes: Vec<u8>)
        ensures
            bytes@ == Self::encoded(event@),
    ;

    /// Reads an event from bytes. A message that stands for no event gives
    /// `None`.
    fn decode(bytes: &[u8]) -> (event: Option<Event>)
        ensures
            spec_view_of(event) == Self::decoded(bytes@),
    ;
}

/// A concise protocol: a leading byte for the variant, then the fields.
pub struct SmartProtocol;

impl Protocol for SmartProtocol {
    open spec fn encoded(event: EventView) -> Seq<u8> {
        spec_encode(event)
    }

    open spec fn decoded(bytes: Seq<u8>) -> Option<EventView> {
        spec_decode(bytes)
    }

    fn encode(event: &Event) -> (bytes: Vec<u8>) {
        match event {
            Event::Ready => Self::encode_ready(),
            Event::Standby => Self::encode_standby(),
            Event::Start => Self::encode_start(),
            Event::Movement(handle, x, y, angle) => Self::encode_movement(*handle, *x, *y, *angle),
            Event::RequestMovement(handle, x, y, angle) => {
                Self::encode_request_movement(*handle, *x, *y, *angle)
            },
            Event::Custom(kind, data) => Self::encode_custom(*kind, data.as_slice()),
            Event::Yield(handle) => Self::encode_yield(*handle),
            Event::Spawn(handle, mesh_type) => Self::encode_spawn(*handle, *mesh_type),
            Event::PickUp(handle, mesh_type) => Self::encode_pick_up(*handle, *mesh_type),
            Event::Despawn(handle) => Self::encode_despawn(*handle),
            Event::KeyDown(key_code) => Self::encode_key_down(*key_code),
            Event::KeyUp(key_code) => Self::encode_key_up(*key_code),
            Event::Health(handle, health) => Self::encode_health(*handle, *health),
            Event::Color(handle, color) => Self::encode_color(*handle, *color),
            Event::Dimension(handle, width, height) => Self::encode_dimension(
                *handle,
                *width,
                *height,
            ),
            Event::GameOver => Self::encode_game_over(),
            Event::MapChoice(map_index) => Self::encode_map(*map_index),
        }
    }

    fn decode(bytes: &[u8]) -> (event: Option<Event>) {
        if bytes.len() == 0 {
            None
        } else {
            let leading_byte = bytes[0];
            Self::interpret_data(leading_byte, &bytes[1..bytes.len()])
        }
    }
}

impl SmartProtocol {
    /// Reads the payload of a message whose leading byte is `leading_byte`.
    pub fn interpret_data(leading_byte: u8, data: &[u8]) -> (event: Option<Event>)
        ensures
            spec_view_of(event) == spec_interpret_data(leading_byte, data@),
    {
        if leading_byte == TAG_READY {
            Self::decode_ready(data)
        } else if leading_byte == TAG_STANDBY {
            Self::decode_standby(data)
        } else if leading_byte == TAG_START {
            Self::decode_start(data)
        } else if leading_byte == TAG_MOVEMENT {
            Self::decode_movement(data)
        } else if leading_byte == TAG_REQUEST_MOVEMENT {
            Self::decode_request_movement(data)
        } else if leading_byte == TAG_CUSTOM {
            Self::decode_custom(data)
        } else if leading_byte == TAG_YIELD {
            Self::decode_yield(data)
        } else if leading_byte == TAG_SPAWN {
            Self::decode_spawn(data)
        } else if leading_byte == TAG_PICK_UP {
            Self::decode_pick_up(data)
        } else if leading_byte == TAG_KEY_DOWN {
            Self::decode_key_down(data)
        } else if leading_byte == TAG_KEY_UP {
            Self::decode_key_up(data)
        } else if leading_byte == TAG_DESPAWN {
            Self::decode_despawn(data)
        } else if leading_byte == TAG_HEALTH {
            Self::decode_health(data)
        } else if leading_byte == TAG_COLOR {
            Self::decode_color(data)
        } else if leading_byte == TAG_DIMENSION {
            Self::decode_dimension(data)
        } else if leading_byte == TAG_GAME_OVER {
            Self::decode_game_over(data)
        } else if leading_byte == TAG_MAP {
            Self::decode_map(data)
        } else {
            None
        }
    }

    pub fn decode_ready(data: &[u8]) -> (event: Option<Event>)
        ensures
            spec_view_of(event) == spec_decode_ready(data@),
    {
        if data.len() == 0 {
            Some(Event::Ready)
        } else {
            None
        }
    }

    pub fn encode_ready() -> (bytes: Vec<u8>)
        ensures
            bytes@ == spec_encode(EventView::Ready),
    {
        let mut bytes: Vec<u8> = Vec::new();
        bytes.push(TAG_READY);
        bytes
    }

    pub fn decode_standby(data: &[u8]) -> (event: Option<Event>)
        ensures
            spec_view_of(event) == spec_decode_standby(data@),
    {
        if data.len() == 0 {
            Some(Event::Standby)
        } else {
            None
        }
    }

    pub fn encode_standby() -> (bytes: Vec<u8>)
        ensures
            bytes@ == spec_encode(EventView::Standby),
    {
        let mut bytes: Vec<u8> = Vec::new();
        bytes.push(TAG_STANDBY);
        bytes
    }

    pub fn decode_start(data: &[u8]) -> (event: Option<Event>)
        ensures
            spec_view_of(event) == spec_decode_start(data@),
    {
        if data.len() == 0 {
            Some(Event::Start)
        } else {
            None
        }
    }

    pub fn encode_start() -> (bytes: Vec<u8>)
        ensures
            bytes@ == spec_encode(EventView::Start),
    {
        let mut bytes: Vec<u8> = Vec::new();
        bytes.push(TAG_START);
        bytes
    }

    pub fn decode_game_over(data: &[u8]) -> (event: Option<Event>)
        ensures
            spec_view_of(event) == spec_decode_game_over(data@),
    {
        if data.len() == 0 {
            Some(Event::GameOver)
        } else {
            None
        }
    }

    pub fn encode_game_over() -> (bytes: Vec<u8>)
        ensures
            bytes@ == spec_encode(EventView::GameOver),
    {
        let mut bytes: Vec<u8> = Vec::new();
        bytes.push(TAG_GAME_OVER);
        bytes
    }

    pub fn decode_movement(data: &[u8]) -> (event: Option<Event>)
        ensures
            spec_view_of(event) == spec_decode_movement(data@),
    {
        if data.len() == 20 {
            let handle = handle_from_bytes(&data[0..8]);
            let x = scalar_from_bytes(&data[8..12]);
            let y = scalar_from_bytes(&data[12..16]);
            let angle = scalar_from_bytes(&data[16..20]);
            Some(Event::Movement(handle, x, y, angle))
        } else {
            None
        }
    }

    pub fn encode_movement(handle: Handle, x: Scalar, y: Scalar, angle: Scalar) -> (bytes: Vec<u8>)
        ensures
            bytes@ == spec_encode(EventView::Movement(handle, x, y, angle)),
    {
        let mut bytes: Vec<u8> = Vec::with_capacity(1 + 8 + 4 + 4 + 4);
        bytes.push(TAG_MOVEMENT);
        bytes.append(&mut u64_to_bytes(handle));
        bytes.append(&mut scalar_to_bytes(x));
        bytes.append(&mut scalar_to_bytes(y));
        bytes.append(&mut scalar_to_bytes(angle));
        assert(bytes@ =~= spec_encode(EventView::Movement(handle, x, y, angle)));
        bytes
    }

    pub fn decode_request_movement(data: &[u8]) -> (event: Option<Event>)
        ensures
            spec_view_of(event) == spec_decode_request_movement(data@),
    {
        if data.len() == 20 {
            let handle = handle_from_bytes(&data[0..8]);
            let x = scalar_from_bytes(&data[8..12]);
            let y = scalar_from_bytes(&data[12..16]);
            let angle = scalar_from_bytes(&data[16..20]);
            Some(Event::RequestMovement(handle, x, y, angle))
        } else {
            None
        }
    }

    pub fn encode_request_movement(handle: Handle, x: Scalar, y: Scalar, angle: Scalar) -> (bytes:
        Vec<u8>)
        ensures
            bytes@ == spec_encode(EventView::RequestMovement(handle, x, y, angle)),
    {
        let mut bytes: Vec<u8> = Vec::with_capacity(1 + 8 + 4 + 4 + 4);
        bytes.push(TAG_REQUEST_MOVEMENT);
        bytes.append(&mut u64_to_bytes(handle));
        bytes.append(&mut scalar_to_bytes(x));
        bytes.append(&mut scalar_to_bytes(y));
        bytes.append(&mut scalar_to_bytes(angle));
        assert(bytes@ =~= spec_encode(EventView::RequestMovement(handle, x, y, angle)));
        bytes
    }

    pub fn decode_custom(data: &[u8]) -> (event: Option<Event>)
        ensures
            spec_view_of(event) == spec_decode_custom(data@),
    {
        if data.len() >= 4 {
            let kind = kind_from_bytes(&data[0..4]);
            let custom_data = slice_to_vec(&data[4..data.len()]);
            Some(Event::Custom(kind, custom_data))
        } else {
            None
        }
    }

    pub fn encode_custom(kind: u32, data: &[u8]) -> (bytes: Vec<u8>)
        ensures
            bytes@ == spec_encode(EventView::Custom(kind, data@)),
    {
        let mut bytes: Vec<u8> = Vec::new();
        bytes.push(TAG_CUSTOM);
        bytes.append(&mut u32_to_bytes(kind));
        bytes.extend_from_slice(data);
        assert(bytes@ =~= spec_encode(EventView::Custom(kind, data@)));
        bytes
    }

    pub fn decode_yield(data: &[u8]) -> (event: Option<Event>)
        ensures
            spec_view_of(event) == spec_decode_yield(data@),
    {
        if data.len() == 8 {
            let handle = handle_from_bytes(data);
            Some(Event::Yield(handle))
        } else {
            None
        }
    }

    pub fn encode_yield(handle: Handle) -> (bytes: Vec<u8>)
        ensures
            bytes@ == spec_encode(EventView::Yield(handle)),
    {
        let mut bytes: Vec<u8> = Vec::with_capacity(1 + 8);
        bytes.push(TAG_YIELD);
        bytes.append(&mut u64_to_bytes(handle));
        assert(bytes@ =~= spec_encode(EventView::Yield(handle)));
        bytes
    }

    pub fn decode_spawn(data: &[u8]) -> (event: Option<Event>)
        ensures
            spec_view_of(event) == spec_decode_spawn(data@),
    {
        if data.len() == 16 {
            let handle = handle_from_bytes(&data[0..8]);
            match mesh_from_bytes(&data[8..16]) {
                Some(mesh_type) => Some(Event::Spawn(handle, mesh_type)),
                None => None,
            }
        } else {
            None
        }
    }

    pub fn encode_spawn(handle: Handle, mesh_type: MeshType) -> (bytes: Vec<u8>)
        ensures
            bytes@ == spec_encode(EventView::Spawn(handle, mesh_type)),
    {
        let mut bytes: Vec<u8> = Vec::with_capacity(1 + 8 + 8);
        let mesh_index = mesh_index(mesh_type);
        bytes.push(TAG_SPAWN);
        bytes.append(&mut u64_to_bytes(handle));
        bytes.append(&mut usize_to_bytes(mesh_index));
        assert(bytes@ =~= spec_encode(EventView::Spawn(handle, mesh_type)));
        bytes
    }

    pub fn decode_pick_up(data: &[u8]) -> (event: Option<Event>)
        ensures
            spec_view_of(event) == spec_decode_pick_up(data@),
    {
        if data.len() == 16 {
            let handle = handle_from_bytes(&data[0..8]);
            match mesh_from_bytes(&data[8..16]) {
                Some(mesh_type) => Some(Event::PickUp(handle, mesh_type)),
                None => None,
            }
        } else {
            None
        }
    }

    pub fn encode_pick_up(handle: Handle, mesh_type: MeshType) -> (bytes: Vec<u8>)
        ensures
            bytes@ == spec_encode(EventView::PickUp(handle, mesh_type)),
    {
        let mut bytes: Vec<u8> = Vec::with_capacity(1 + 8 + 8);
        let mesh_index = mesh_index(mesh_type);
        bytes.push(TAG_PICK_UP);
        bytes.append(&mut u64_to_bytes(handle));
        bytes.append(&mut usize_to_bytes(mesh_index));
        assert(bytes@ =~= spec_encode(EventView::PickUp(handle, mesh_type)));
        bytes
    }

    pub fn decode_key_down(data: &[u8]) -> (event: Option<Event>)
        ensures
            spec_view_of(event) == spec_decode_key_down(data@),
    {
        if data.len() == 8 {
            match key_from_bytes(data) {
                Some(key_code) => Some(Event::KeyDown(key_code)),
                None => None,
            }
        } else {
            None
        }
    }

    pub fn encode_key_down(key_code: KeyCode) -> (bytes: Vec<u8>)
        ensures
            bytes@ == spec_encode(EventView::KeyDown(key_code)),
    {
        let key_index = key_index(key_code);
        let mut bytes: Vec<u8> = Vec::with_capacity(1 + 8);
        bytes.push(TAG_KEY_DOWN);
        bytes.append(&mut usize_to_bytes(key_index));
        assert(bytes@ =~= spec_encode(EventView::KeyDown(key_code)));
        bytes
    }

    pub fn decode_key_up(data: &[u8]) -> (event: Option<Event>)
        ensures
            spec_view_of(event) == spec_decode_key_up(data@),
    {
        if data.len() == 8 {
            match key_from_bytes(data) {
                Some(key_code) => Some(Event::KeyUp(key_code)),
                None => None,
            }
        } else {
            None
        }
    }

    pub fn encode_key_up(key_code: KeyCode) -> (bytes: Vec<u8>)
        ensures
            bytes@ == spec_encode(EventView::KeyUp(key_code)),
    {
        let key_index = key_index(key_code);
        let mut bytes: Vec<u8> = Vec::with_capacity(1 + 8);
        bytes.push(TAG_KEY_UP);
        bytes.append(&mut usize_to_bytes(key_index));
        assert(bytes@ =~= spec_encode(EventView::KeyUp(key_code)));
        bytes
    }

    pub fn decode_despawn(data: &[u8]) -> (event: Option<Event>)
        ensures
            spec_view_of(event) == spec_decode_despawn(data@),
    {
        if data.len() == 8 {
            let handle = handle_from_bytes(data);
            Some(Event::Despawn(handle))
        } else {
            None
        }
    }

    pub fn encode_despawn(handle: Handle) -> (bytes: Vec<u8>)
        ensures
            bytes@ == spec_encode(EventView::Despawn(handle)),
    {
        let mut bytes: Vec<u8> = Vec::with_capacity(1 + 8);
        bytes.push(TAG_DESPAWN);
        bytes.append(&mut u64_to_bytes(handle));
        assert(bytes@ =~= spec_encode(EventView::Despawn(handle)));
        bytes
    }

    pub fn decode_health(data: &[u8]) -> (event: Option<Event>)
        ensures
            spec_view_of(event) == spec_decode_health(data@),
    {
        if data.len() == 9 {
            let handle = handle_from_bytes(&data[0..8]);
            let health = data[8];
            Some(Event::Health(handle, health))
        } else {
            None
        }
    }

    pub fn encode_health(handle: Handle, health: u8) -> (bytes: Vec<u8>)
        ensures
            bytes@ == spec_encode(EventView::Health(handle, health)),
    {
        let mut bytes: Vec<u8> = Vec::with_capacity(1 + 8 + 1);
        bytes.push(TAG_HEALTH);
        bytes.append(&mut u64_to_bytes(handle));
        bytes.push(health);
        assert(bytes@ =~= spec_encode(EventView::Health(handle, health)));
        bytes
    }

    pub fn decode_color(data: &[u8]) -> (event: Option<Event>)
        ensures
            spec_view_of(event) == spec_decode_color(data@),
    {
        if data.len() == 12 {
            let handle = handle_from_bytes(&data[0..8]);
            let r = data[8];
            let g = data[9];
            let b = data[10];
            let a = data[11];
            Some(Event::Color(handle, Color::new(r, g, b, a)))
        } else {
            None
        }
    }

    pub fn encode_color(handle: Handle, color: Color) -> (bytes: Vec<u8>)
        ensures
            bytes@ == spec_encode(EventView::Color(handle, color)),
    {
        let mut bytes: Vec<u8> = Vec::with_capacity(1 + 8 + 4);
        bytes.push(TAG_COLOR);
        bytes.append(&mut u64_to_bytes(handle));
        bytes.push(color.r);
        bytes.push(color.g);
        bytes.push(color.b);
        bytes.push(color.a);
        assert(bytes@ =~= spec_encode(EventView::Color(handle, color)));
        bytes
    }

    pub fn decode_dimension(data: &[u8]) -> (event: Option<Event>)
        ensures
            spec_view_of(event) == spec_decode_dimension(data@),
    {
        if data.len() == 16 {
            let handle = handle_from_bytes(&data[0..8]);
            let width = scalar_from_bytes(&data[8..12]);
            let height = scalar_from_bytes(&data[12..16]);
            Some(Event::Dimension(handle, width, height))
        } else {
            None
        }
    }

    pub fn encode_dimension(handle: Handle, width: Scalar, height: Scalar) -> (bytes: Vec<u8>)
        ensures
            bytes@ == spec_encode(EventView::Dimension(handle, width, height)),
    {
        let mut bytes: Vec<u8> = Vec::new();
        bytes.push(TAG_DIMENSION);
        bytes.append(&mut u64_to_bytes(handle));
        bytes.append(&mut scalar_to_bytes(width));
        bytes.append(&mut scalar_to_bytes(height));
        assert(bytes@ =~= spec_encode(EventView::Dimension(handle, width, height)));
        bytes
    }

    pub fn decode_map(data: &[u8]) -> (event: Option<Event>)
        ensures
            spec_view_of(event) == spec_decode_map(data@),
    {
        if data.len() == 8 {
            let map_index = unsigned_from_bytes(data);
            if map_index <= usize::MAX as u128 {
                Some(Event::MapChoice(map_index as usize))
            } else {
                None
            }
        } else {
            None
        }
    }

    pub fn encode_map(map_index: usize) -> (bytes: Vec<u8>)
        ensures
            bytes@ == spec_encode(EventView::MapChoice(map_index)),
    {
        let mut bytes: Vec<u8> = Vec::with_capacity(1 + 8);
        bytes.push(TAG_MAP);
        bytes.append(&mut usize_to_bytes(map_index));
        assert(bytes@ =~= spec_encode(EventView::MapChoice(map_index)));
        bytes
    }
}

/// Reads a handle from eight bytes.
fn handle_from_bytes(bytes: &[u8]) -> (handle: Handle)
    requires
        bytes@.len() == 8,
    ensures
        handle == spec_be_value(bytes@),
        handle == spec_be_value(bytes@) as u64,
{
    proof {
        lemma_be_bytes_of_value(bytes@);
        lemma_limits();
    }
    unsigned_from_bytes(bytes) as Handle
}

/// Reads the kind of a custom event from four bytes.
fn kind_from_bytes(bytes: &[u8]) -> (kind: u32)
    requires
        bytes@.len() == 4,
    ensures
        kind == spec_be_value(bytes@),
        kind == spec_be_value(bytes@) as u32,
{
    proof {
        lemma_be_bytes_of_value(bytes@);
        lemma_limits();
    }
    unsigned_from_bytes(bytes) as u32
}

/// Reads the index of a mesh kind from eight bytes and looks it up.
fn mesh_from_bytes(bytes: &[u8]) -> (mesh_type: Option<MeshType>)
    requires
        bytes@.len() == 8,
    ensures
        mesh_type == spec_mesh_of(spec_be_value(bytes@)),
{
    let mesh_index = unsigned_from_bytes(bytes);
    if mesh_index < MESH_COUNT as u128 {
        mesh_at(mesh_index as usize)
    } else {
        None
    }
}

/// Reads the index of a key from eight bytes and looks it up.
fn key_from_bytes(bytes: &[u8]) -> (key_code: Option<KeyCode>)
    requires
        bytes@.len() == 8,
    ensures
        key_code == spec_key_of(spec_be_value(bytes@)),
{
    let key_index = unsigned_from_bytes(bytes);
    if key_index < KEY_COUNT as u128 {
        key_at(key_index as usize)
    } else {
        None
    }
}

/// A field of `width` bytes that follows `before` in a message and is
/// followed by `after` is read back as the number that was written.
proof fn lemma_field(before: Seq<u8>, value: nat, width: nat, after: Seq<u8>)
    requires
        value < spec_limit(width),
    ensures
        (before + spec_be_bytes(value, width) + after).subrange(
            before.len() as int,
            (before.len() + width) as int,
        ) == spec_be_bytes(value, width),
        spec_be_value(
            (before + spec_be_bytes(value, width) + after).subrange(
                before.len() as int,
                (before.len() + width) as int,
            ),
        ) == value,
        (before + spec_be_bytes(value, width) + after).len() == before.len() + width + after.len(),
{
    lemma_be_bytes_len(value, width);
    lemma_be_value_of_bytes(value, width);
    assert((before + spec_be_bytes(value, width) + after).subrange(
        before.len() as int,
        (before.len() + width) as int,
    ) =~= spec_be_bytes(value, width));
}

/// Decoding what was encoded gives back the event, whatever the event.
pub proof fn lemma_decode_encode(event: EventView)
    ensures
        spec_decode(spec_encode(event)) == Some(event),
{
    lemma_limits();
    let bytes = spec_encode(event);
    let data = bytes.skip(1);
    let none = Seq::<u8>::empty();
    match event {
        EventView::Ready | EventView::Standby | EventView::Start | EventView::GameOver => {
            assert(data.len() == 0);
        },
        EventView::Movement(handle, x, y, angle) => {
            let h = spec_be_bytes(handle as nat, 8);
            let bx = spec_be_bytes(x as nat, 4);
            let by = spec_be_bytes(y as nat, 4);
            let ba = spec_be_bytes(angle as nat, 4);
            lemma_be_bytes_len(handle as nat, 8);
            lemma_be_bytes_len(x as nat, 4);
            lemma_be_bytes_len(y as nat, 4);
            lemma_be_bytes_len(angle as nat, 4);
            assert(data =~= h + bx + by + ba);
            lemma_field(none, handle as nat, 8, bx + by + ba);
            lemma_field(h, x as nat, 4, by + ba);
            lemma_field(h + bx, y as nat, 4, ba);
            lemma_field(h + bx + by, angle as nat, 4, none);
            assert(data =~= none + h + (bx + by + ba));
            assert(data =~= h + bx + (by + ba));
            assert(data =~= h + bx + by + ba + none);
        },
        EventView::RequestMovement(handle, x, y, angle) => {
            let h = spec_be_bytes(handle as nat, 8);
            let bx = spec_be_bytes(x as nat, 4);
            let by = spec_be_bytes(y as nat, 4);
            let ba = spec_be_bytes(angle as nat, 4);
            lemma_be_bytes_len(handle as nat, 8);
            lemma_be_bytes_len(x as nat, 4);
            lemma_be_bytes_len(y as nat, 4);
            lemma_be_bytes_len(angle as nat, 4);
            assert(data =~= h + bx + by + ba);
            lemma_field(none, handle as nat, 8, bx + by + ba);
            lemma_field(h, x as nat, 4, by + ba);
            lemma_field(h + bx, y as nat, 4, ba);
            lemma_field(h + bx + by, angle as nat, 4, none);
            assert(data =~= none + h + (bx + by + ba));
            assert(data =~= h + bx + (by + ba));
            assert(data =~= h + bx + by + ba + none);
        },
        EventView::Custom(kind, payload) => {
            let k = spec_be_bytes(kind as nat, 4);
            lemma_be_bytes_len(kind as nat, 4);
            lemma_field(none, kind as nat, 4, payload);
            assert(data =~= none + k + payload);
            assert(data.subrange(4, data.len() as int) =~= payload);
        },
        EventView::Yield(handle) => {
            lemma_be_bytes_len(handle as nat, 8);
            lemma_be_value_of_bytes(handle as nat, 8);
            assert(data =~= spec_be_bytes(handle as nat, 8));
        },
        EventView::Despawn(handle) => {
            lemma_be_bytes_len(handle as nat, 8);
            lemma_be_value_of_bytes(handle as nat, 8);
            assert(data =~= spec_be_bytes(handle as nat, 8));
        },
        EventView::Spawn(handle, mesh_type) => {
            let h = spec_be_bytes(handle as nat, 8);
            let m = spec_be_bytes(spec_mesh_index(mesh_type) as nat, 8);
            lemma_be_bytes_len(handle as nat, 8);
            lemma_field(none, handle as nat, 8, m);
            lemma_field(h, spec_mesh_index(mesh_type) as nat, 8, none);
            assert(data =~= none + h + m);
            assert(data =~= h + m + none);
        },
        EventView::PickUp(handle, mesh_type) => {
            let h = spec_be_bytes(handle as nat, 8);
            let m = spec_be_bytes(spec_mesh_index(mesh_type) as nat, 8);
            lemma_be_bytes_len(handle as nat, 8);
            lemma_field(none, handle as nat, 8, m);
            lemma_field(h, spec_mesh_index(mesh_type) as nat, 8, none);
            assert(data =~= none + h + m);
            assert(data =~= h + m + none);
        },
        EventView::KeyDown(key_code) => {
            let index = spec_key_index(key_code) as nat;
            crate::game::keyboard::lemma_key_index_round_trip(key_code);
            lemma_be_bytes_len(index, 8);
            lemma_be_value_of_bytes(index, 8);
            assert(data =~= spec_be_bytes(index, 8));
        },
        EventView::KeyUp(key_code) => {
            let index = spec_key_index(key_code) as nat;
            crate::game::keyboard::lemma_key_index_round_trip(key_code);
            lemma_be_bytes_len(index, 8);
            lemma_be_value_of_bytes(index, 8);
            assert(data =~= spec_be_bytes(index, 8));
        },
        EventView::Health(handle, health) => {
            let h = spec_be_bytes(handle as nat, 8);
            lemma_be_bytes_len(handle as nat, 8);
            lemma_field(none, handle as nat, 8, seq![health]);
            assert(data =~= none + h + seq![health]);
        },
        EventView::Color(handle, color) => {
            let h = spec_be_bytes(handle as nat, 8);
            let channels = seq![color.r, color.g, color.b, color.a];
            lemma_be_bytes_len(handle as nat, 8);
            lemma_field(none, handle as nat, 8, channels);
            assert(data =~= none + h + channels);
        },
        EventView::Dimension(handle, width, height) => {
            let h = spec_be_bytes(handle as nat, 8);
            let w = spec_be_bytes(width as nat, 4);
            let t = spec_be_bytes(height as nat, 4);
            lemma_be_bytes_len(handle as nat, 8);
            lemma_be_bytes_len(width as nat, 4);
            lemma_be_bytes_len(height as nat, 4);
            lemma_field(none, handle as nat, 8, w + t);
            lemma_field(h, width as nat, 4, t);
            lemma_field(h + w, height as nat, 4, none);
            assert(data =~= none + h + (w + t));
            assert(data =~= h + w + t);
            assert(data =~= h + w + t + none);
        },
        EventView::MapChoice(map_index) => {
            lemma_be_bytes_len(map_index as nat, 8);
            lemma_be_value_of_bytes(map_index as nat, 8);
            assert(data =~= spec_be_bytes(map_index as nat, 8));
        },
    }
}

} // verus!

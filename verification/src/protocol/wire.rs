//! The building blocks of the schema's binary encoding.
//!
//! A message is a run of fields. A field starts with a key, the field's tag
//! times eight plus its wire type, written as a varint. Wire type 0 is
//! followed by a varint, 1 by eight bytes, 5 by four bytes, and 2 by a varint
//! length and that many bytes. Wire type 3 opens a group: fields follow, up to
//! a key of wire type 4 with the tag of the group. No message of the schema
//! holds a group; a reader passes over one, to a depth of `RECURSION_LIMIT`.
//! A varint holds seven bits of a number in each byte, lowest first, and marks
//! every byte but the last with the high bit.

use vstd::prelude::*;
use vstd::slice::{slice_subrange, slice_to_vec};
use vstd::utf8::{decode_utf8, valid_utf8};

verus! {

/// Wire type of a number written as a varint.
pub const WIRE_VARINT: u8 = 0;

/// Wire type of eight bytes.
pub const WIRE_FIXED64: u8 = 1;

/// Wire type of a length followed by that many bytes.
pub const WIRE_BYTES: u8 = 2;

/// Wire type of the key that opens a group.
pub const WIRE_START_GROUP: u8 = 3;

/// Wire type of the key that closes a group.
pub const WIRE_END_GROUP: u8 = 4;

/// Wire type of four bytes.
pub const WIRE_FIXED32: u8 = 5;

/// How deep a reader goes into messages within messages and groups within
/// groups: a message that is read by itself is read at this depth, a message
/// within it one below, and so are the fields of a group.
pub const RECURSION_LIMIT: u32 = 100;

/// The longest varint that is read.
pub const VARINT_MAX_LEN: usize = 10;

/// A number as a varint.
pub open spec fn varint(value: nat) -> Seq<u8>
    decreases value,
{
    if value < 128 {
        seq![value as u8]
    } else {
        seq![(value % 128 + 128) as u8] + varint(value / 128)
    }
}

/// The number that the varint at the start of `bytes` holds, and its length;
/// `None` where no varint of at most `limit` bytes starts there.
pub open spec fn varint_within(bytes: Seq<u8>, limit: nat) -> Option<(nat, nat)>
    decreases limit,
{
    if limit == 0 || bytes.len() == 0 {
        None
    } else if bytes[0] < 128 {
        Some((bytes[0] as nat, 1nat))
    } else {
        match varint_within(bytes.skip(1), (limit - 1) as nat) {
            Some((high, used)) => Some((((bytes[0] - 128) + 128 * high) as nat, used + 1)),
            None => None,
        }
    }
}

/// The number that the varint at the start of `bytes` holds, and its length.
/// `None` where `bytes` is empty, where the varint does not end within
/// `VARINT_MAX_LEN` bytes, and where its number does not fit 64 bits.
pub open spec fn parse_varint(bytes: Seq<u8>) -> Option<(u64, nat)> {
    match varint_within(bytes, VARINT_MAX_LEN as nat) {
        Some((value, used)) => if value <= u64::MAX {
            Some((value as u64, used))
        } else {
            None
        },
        None => None,
    }
}

/// What follows the key of a field.
pub enum FieldValue {
    /// A number.
    Varint(u64),
    /// Eight bytes.
    Fixed64(Seq<u8>),
    /// A run of bytes: a text or a message.
    Bytes(Seq<u8>),
    /// Four bytes.
    Fixed32(Seq<u8>),
    /// A group, of which nothing is kept.
    Group,
}

/// One field of a message: its tag, and what follows its key.
pub struct Field {
    pub tag: u32,
    pub value: FieldValue,
}

/// The key of a field.
pub open spec fn key(tag: u32, wire_type: u8) -> Seq<u8> {
    varint((tag * 8 + wire_type) as nat)
}

/// The key at the start of `bytes`: its tag, its wire type and its length.
/// `None` where the key is no varint or exceeds 32 bits, where the tag is 0,
/// and where the wire type is above 5.
pub open spec fn parse_key(bytes: Seq<u8>) -> Option<(u32, u8, nat)> {
    match parse_varint(bytes) {
        None => None,
        Some((key, used)) => if key > u32::MAX || key / 8 == 0 || key % 8 > 5 {
            None
        } else {
            Some(((key / 8) as u32, (key % 8) as u8, used))
        },
    }
}

/// The length of what follows the key of a field that is passed over at the
/// given depth. `None` at depth 0, where `bytes` ends before the field does,
/// and for a key that closes a group.
pub open spec fn skipped_len(bytes: Seq<u8>, tag: u32, wire_type: u8, depth: nat) -> Option<nat>
    decreases depth, bytes.len(), 1nat,
{
    if depth == 0 {
        None
    } else if wire_type == WIRE_VARINT {
        match parse_varint(bytes) {
            Some((_, used)) => Some(used),
            None => None,
        }
    } else if wire_type == WIRE_FIXED64 {
        if bytes.len() < 8 {
            None
        } else {
            Some(8)
        }
    } else if wire_type == WIRE_FIXED32 {
        if bytes.len() < 4 {
            None
        } else {
            Some(4)
        }
    } else if wire_type == WIRE_BYTES {
        match parse_varint(bytes) {
            Some((len, used)) => if bytes.len() - used < len {
                None
            } else {
                Some(used + len as nat)
            },
            None => None,
        }
    } else if wire_type == WIRE_START_GROUP {
        group_rest(bytes, tag, depth)
    } else {
        None
    }
}

/// The length of a group with the given tag from behind its opening key to
/// the end of its closing key: field after field is passed over, one level
/// deeper, until a closing key comes. `None` where a field cannot be passed
/// over, where `bytes` ends before the group does, and where the closing key
/// has another tag.
pub open spec fn group_rest(bytes: Seq<u8>, tag: u32, depth: nat) -> Option<nat>
    decreases depth, bytes.len(), 0nat,
{
    if depth == 0 {
        None
    } else {
        match parse_key(bytes) {
            None => None,
            Some((inner_tag, inner_type, key_len)) => if inner_type == WIRE_END_GROUP {
                if inner_tag == tag {
                    Some(key_len)
                } else {
                    None
                }
            } else if key_len == 0 || key_len > bytes.len() {
                None
            } else {
                match skipped_len(
                    bytes.skip(key_len as int),
                    inner_tag,
                    inner_type,
                    (depth - 1) as nat,
                ) {
                    None => None,
                    Some(inner_len) => if key_len + inner_len > bytes.len() {
                        None
                    } else {
                        match group_rest(bytes.skip((key_len + inner_len) as int), tag, depth) {
                            Some(others) => Some(key_len + inner_len + others),
                            None => None,
                        }
                    },
                }
            },
        }
    }
}

/// The field at the start of `bytes`, read at the given depth, and its
/// length. `None` where the key is none, where it closes a group, where
/// `bytes` ends before the field does, and where a group cannot be passed
/// over.
pub open spec fn parse_field(bytes: Seq<u8>, depth: nat) -> Option<(Field, nat)> {
    match parse_key(bytes) {
        None => None,
        Some((tag, wire_type, key_len)) => {
            let rest = bytes.skip(key_len as int);
            if wire_type == WIRE_VARINT {
                match parse_varint(rest) {
                    Some((value, used)) => Some(
                        (Field { tag, value: FieldValue::Varint(value) }, key_len + used),
                    ),
                    None => None,
                }
            } else if wire_type == WIRE_FIXED64 {
                if rest.len() < 8 {
                    None
                } else {
                    Some(
                        (
                            Field { tag, value: FieldValue::Fixed64(rest.subrange(0, 8)) },
                            key_len + 8,
                        ),
                    )
                }
            } else if wire_type == WIRE_FIXED32 {
                if rest.len() < 4 {
                    None
                } else {
                    Some(
                        (
                            Field { tag, value: FieldValue::Fixed32(rest.subrange(0, 4)) },
                            key_len + 4,
                        ),
                    )
                }
            } else if wire_type == WIRE_BYTES {
                match parse_varint(rest) {
                    Some((len, used)) => if rest.len() - used < len {
                        None
                    } else {
                        Some(
                            (
                                Field {
                                    tag,
                                    value: FieldValue::Bytes(
                                        rest.subrange(used as int, used + len),
                                    ),
                                },
                                key_len + used + len as nat,
                            ),
                        )
                    },
                    None => None,
                }
            } else if wire_type == WIRE_START_GROUP {
                match skipped_len(rest, tag, wire_type, depth) {
                    Some(len) => Some((Field { tag, value: FieldValue::Group }, key_len + len)),
                    None => None,
                }
            } else {
                None
            }
        },
    }
}

/// A message that is read field by field.
pub trait Fields: View + Sized {
    /// The message after `field` was taken into `message`; `None` where the
    /// field cannot be taken. A field with a tag that the message does not
    /// know leaves the message as it is.
    spec fn with(message: Self::V, field: Field) -> Option<Self::V>;

    /// Takes a field into this message.
    fn take_field(&mut self, tag: u32, value: FieldRef<'_>) -> (taken: bool)
        ensures
            match Self::with(old(self)@, (Field { tag, value: value@ })) {
                Some(next) => taken && final(self)@ == next,
                None => !taken,
            },
    ;
}

/// The message that a run of fields stands for, where one field after another
/// is read at the given depth and taken into `start`. `None` where `bytes` is
/// no run of fields, and where a field cannot be taken.
pub open spec fn parse_message<M: Fields>(bytes: Seq<u8>, start: M::V, depth: nat) -> Option<M::V>
    decreases bytes.len(),
{
    if bytes.len() == 0 {
        Some(start)
    } else {
        match parse_field(bytes, depth) {
            None => None,
            Some((field, used)) => if used == 0 || used > bytes.len() {
                None
            } else {
                match M::with(start, field) {
                    None => None,
                    Some(next) => parse_message::<M>(bytes.skip(used as int), next, depth),
                }
            },
        }
    }
}

/// What follows the key of a field, as it lies in a buffer.
pub enum FieldRef<'a> {
    /// A number.
    Varint(u64),
    /// Eight bytes.
    Fixed64(&'a [u8]),
    /// A run of bytes: a text or a message.
    Bytes(&'a [u8]),
    /// Four bytes.
    Fixed32(&'a [u8]),
    /// A group, of which nothing is kept.
    Group,
}

impl<'a> View for FieldRef<'a> {
    type V = FieldValue;

    open spec fn view(&self) -> FieldValue {
        match self {
            FieldRef::Varint(value) => FieldValue::Varint(*value),
            FieldRef::Fixed64(bytes) => FieldValue::Fixed64(bytes@),
            FieldRef::Bytes(bytes) => FieldValue::Bytes(bytes@),
            FieldRef::Fixed32(bytes) => FieldValue::Fixed32(bytes@),
            FieldRef::Group => FieldValue::Group,
        }
    }
}

/// Reads the key that starts at `at`: its tag, its wire type and its length.
pub fn read_key(bytes: &[u8], at: usize) -> (found: Option<(u32, u8, usize)>)
    requires
        at <= bytes@.len(),
    ensures
        match found {
            Some((tag, wire_type, used)) => parse_key(bytes@.skip(at as int)) == Some(
                (tag, wire_type, used as nat),
            ) && 1 <= used && at + used <= bytes@.len(),
            None => parse_key(bytes@.skip(at as int)) is None,
        },
{
    match read_varint(bytes, at) {
        None => None,
        Some((key, used)) => {
            if key > 0xffff_ffff || key / 8 == 0 || key % 8 > 5 {
                None
            } else {
                Some(((key / 8) as u32, (key % 8) as u8, used))
            }
        },
    }
}

/// The length of what follows the key of a field that is passed over, where
/// `at` is where the key ends.
pub fn skip_value(
    bytes: &[u8],
    at: usize,
    tag: u32,
    wire_type: u8,
    depth: u32,
) -> (len: Option<usize>)
    requires
        at <= bytes@.len(),
    ensures
        match len {
            Some(count) => skipped_len(bytes@.skip(at as int), tag, wire_type, depth as nat)
                == Some(count as nat) && at + count <= bytes@.len(),
            None => skipped_len(bytes@.skip(at as int), tag, wire_type, depth as nat) is None,
        },
    decreases depth, 1nat,
{
    if depth == 0 {
        return None;
    }
    let left = bytes.len() - at;
    if wire_type == WIRE_VARINT {
        match read_varint(bytes, at) {
            Some((_, used)) => Some(used),
            None => None,
        }
    } else if wire_type == WIRE_FIXED64 {
        if left < 8 {
            None
        } else {
            Some(8)
        }
    } else if wire_type == WIRE_FIXED32 {
        if left < 4 {
            None
        } else {
            Some(4)
        }
    } else if wire_type == WIRE_BYTES {
        match read_varint(bytes, at) {
            Some((len, used)) => {
                if ((left - used) as u64) < len {
                    None
                } else {
                    Some(used + len as usize)
                }
            },
            None => None,
        }
    } else if wire_type == WIRE_START_GROUP {
        skip_group(bytes, at, tag, depth)
    } else {
        None
    }
}

/// The length of a group with the given tag, from `at`, where its opening key
/// ends, to the end of its closing key.
pub fn skip_group(bytes: &[u8], at: usize, tag: u32, depth: u32) -> (len: Option<usize>)
    requires
        at <= bytes@.len(),
        depth >= 1,
    ensures
        match len {
            Some(count) => group_rest(bytes@.skip(at as int), tag, depth as nat) == Some(
                count as nat,
            ) && at + count <= bytes@.len(),
            None => group_rest(bytes@.skip(at as int), tag, depth as nat) is None,
        },
    decreases depth, 0nat,
{
    let total = bytes.len();
    let mut pos: usize = at;
    loop
        invariant
            at <= pos <= bytes@.len(),
            total == bytes@.len(),
            depth >= 1,
            group_rest(bytes@.skip(at as int), tag, depth as nat) == (match group_rest(
                bytes@.skip(pos as int),
                tag,
                depth as nat,
            ) {
                Some(others) => Some((pos - at + others) as nat),
                None => None,
            }),
        decreases bytes@.len() - pos,
    {
        let (inner_tag, inner_type, key_len) = match read_key(bytes, pos) {
            Some(key) => key,
            None => {
                return None;
            },
        };
        if inner_type == WIRE_END_GROUP {
            return if inner_tag == tag {
                Some(pos - at + key_len)
            } else {
                None
            };
        }
        let value = pos + key_len;
        proof {
            assert(bytes@.skip(pos as int).skip(key_len as int) =~= bytes@.skip(value as int));
        }
        let inner_len = match skip_value(bytes, value, inner_tag, inner_type, depth - 1) {
            Some(inner_len) => inner_len,
            None => {
                return None;
            },
        };
        proof {
            assert(bytes@.skip(pos as int).skip((key_len + inner_len) as int) =~= bytes@.skip(
                value + inner_len,
            ));
        }
        pos = value + inner_len;
    }
}

/// Reads the field that starts at `at`, at the given depth: its tag, what
/// follows its key, and its length.
pub fn read_field<'a>(
    bytes: &'a [u8],
    at: usize,
    depth: u32,
) -> (found: Option<(u32, FieldRef<'a>, usize)>)
    requires
        at <= bytes@.len(),
    ensures
        match found {
            Some((tag, value, used)) => parse_field(bytes@.skip(at as int), depth as nat) == Some(
                (Field { tag, value: value@ }, used as nat),
            ) && 1 <= used && at + used <= bytes@.len(),
            None => parse_field(bytes@.skip(at as int), depth as nat) is None,
        },
{
    let (tag, wire_type, key_len) = match read_key(bytes, at) {
        Some(key) => key,
        None => {
            return None;
        },
    };
    let total = bytes.len();
    let body = at + key_len;
    let left = total - body;
    proof {
        assert(bytes@.skip(at as int).skip(key_len as int) =~= bytes@.skip(body as int));
    }
    if wire_type == WIRE_VARINT {
        match read_varint(bytes, body) {
            Some((value, used)) => Some((tag, FieldRef::Varint(value), key_len + used)),
            None => None,
        }
    } else if wire_type == WIRE_FIXED64 {
        if left < 8 {
            None
        } else {
            let run = slice_subrange(bytes, body, body + 8);
            assert(run@ =~= bytes@.skip(body as int).subrange(0, 8));
            Some((tag, FieldRef::Fixed64(run), key_len + 8))
        }
    } else if wire_type == WIRE_FIXED32 {
        if left < 4 {
            None
        } else {
            let run = slice_subrange(bytes, body, body + 4);
            assert(run@ =~= bytes@.skip(body as int).subrange(0, 4));
            Some((tag, FieldRef::Fixed32(run), key_len + 4))
        }
    } else if wire_type == WIRE_BYTES {
        match read_varint(bytes, body) {
            Some((len, used)) => {
                if ((left - used) as u64) < len {
                    None
                } else {
                    let from = body + used;
                    let run = slice_subrange(bytes, from, from + len as usize);
                    assert(run@ =~= bytes@.skip(body as int).subrange(
                        used as int,
                        used + len,
                    ));
                    Some((tag, FieldRef::Bytes(run), key_len + used + len as usize))
                }
            },
            None => None,
        }
    } else if wire_type == WIRE_START_GROUP {
        match skip_value(bytes, body, tag, wire_type, depth) {
            Some(len) => Some((tag, FieldRef::Group, key_len + len)),
            None => None,
        }
    } else {
        None
    }
}

/// Reads a run of fields into `message`, at the given depth. Where the answer
/// is `false`, the bytes are no run of fields that the message can take, and
/// what `message` holds is of no use.
pub fn read_fields<M: Fields>(bytes: &[u8], message: &mut M, depth: u32) -> (read: bool)
    ensures
        match parse_message::<M>(bytes@, old(message)@, depth as nat) {
            Some(value) => read && final(message)@ == value,
            None => !read,
        },
{
    let mut at: usize = 0;
    assert(bytes@.skip(0) =~= bytes@);
    while at < bytes.len()
        invariant
            at <= bytes@.len(),
            parse_message::<M>(bytes@, old(message)@, depth as nat) == parse_message::<M>(
                bytes@.skip(at as int),
                message@,
                depth as nat,
            ),
        decreases bytes@.len() - at,
    {
        match read_field(bytes, at, depth) {
            None => {
                return false;
            },
            Some((tag, value, used)) => {
                if !message.take_field(tag, value) {
                    return false;
                }
                proof {
                    assert(bytes@.skip(at as int).skip(used as int) =~= bytes@.skip(at + used));
                }
                at = at + used;
            },
        }
    }
    true
}

/// The number that stands for a signed number in a varint: the number itself,
/// or, below zero, its two's complement in 64 bits.
pub open spec fn unsigned_of(value: int) -> nat {
    if value >= 0 {
        value as nat
    } else {
        (value + 0x1_0000_0000_0000_0000) as nat
    }
}

/// The signed 64-bit number that a varint's number stands for.
pub open spec fn signed64_of(value: u64) -> i64 {
    if value < 0x8000_0000_0000_0000 {
        value as i64
    } else {
        (value - 0x1_0000_0000_0000_0000) as i64
    }
}

/// The signed 32-bit number that a varint's number stands for: its low 32
/// bits.
pub open spec fn signed32_of(value: u64) -> i32 {
    let low = value % 0x1_0000_0000;
    if low < 0x8000_0000 {
        low as i32
    } else {
        (low - 0x1_0000_0000) as i32
    }
}

/// A field that holds a number.
pub open spec fn varint_field(tag: u32, value: nat) -> Seq<u8> {
    key(tag, WIRE_VARINT) + varint(value)
}

/// A field that holds a run of bytes.
pub open spec fn bytes_field(tag: u32, bytes: Seq<u8>) -> Seq<u8> {
    key(tag, WIRE_BYTES) + varint(bytes.len()) + bytes
}

/// Appends `value` as a varint.
pub fn put_varint(value: u64, out: &mut Vec<u8>)
    ensures
        final(out)@ == old(out)@ + varint(value as nat),
{
    let mut left: u64 = value;
    while left >= 128
        invariant
            old(out)@ + varint(value as nat) == out@ + varint(left as nat),
        decreases left,
    {
        out.push((left % 128 + 128) as u8);
        proof {
            assert(out@ + varint((left / 128) as nat) =~= old(out)@ + varint(value as nat));
        }
        left = left / 128;
    }
    out.push(left as u8);
    assert(out@ =~= old(out)@ + varint(value as nat));
}

/// The length of `value` as a varint.
pub fn varint_len(value: u64) -> (len: usize)
    ensures
        len == varint(value as nat).len(),
        1 <= len <= VARINT_MAX_LEN,
{
    proof {
        lemma_varint_len(value as nat);
    }
    let mut left: u64 = value;
    let mut len: usize = 1;
    while left >= 128
        invariant
            len + varint(left as nat).len() == 1 + varint(value as nat).len(),
            varint(value as nat).len() <= VARINT_MAX_LEN,
            1 <= len,
        decreases left,
    {
        left = left / 128;
        len = len + 1;
    }
    len
}

/// Reads the varint that starts at `at`, of at most `limit` bytes.
fn read_varint_within(bytes: &[u8], at: usize, limit: usize) -> (found: Option<(u128, usize)>)
    requires
        at <= bytes@.len(),
        limit <= VARINT_MAX_LEN,
    ensures
        match found {
            Some((value, used)) => varint_within(bytes@.skip(at as int), limit as nat) == Some(
                (value as nat, used as nat),
            ) && 1 <= used <= limit && at + used <= bytes@.len() && value < pow128(used as nat),
            None => varint_within(bytes@.skip(at as int), limit as nat) is None,
        },
    decreases limit,
{
    if limit == 0 || at >= bytes.len() {
        return None;
    }
    let first = bytes[at];
    assert(bytes@.skip(at as int)[0] == first);
    assert(bytes@.skip(at as int).skip(1) =~= bytes@.skip(at + 1));
    proof {
        reveal_with_fuel(pow128, 2);
    }
    if first < 128 {
        return Some((first as u128, 1));
    }
    match read_varint_within(bytes, at + 1, limit - 1) {
        None => None,
        Some((high, used)) => {
            proof {
                lemma_pow128_bound(used as nat);
                assert(128 * high + 128 <= 128 * pow128(used as nat)) by (nonlinear_arith)
                    requires
                        high < pow128(used as nat),
                ;
            }
            Some(((first - 128) as u128 + 128 * high, used + 1))
        },
    }
}

/// Reads the varint that starts at `at`.
pub fn read_varint(bytes: &[u8], at: usize) -> (found: Option<(u64, usize)>)
    requires
        at <= bytes@.len(),
    ensures
        match found {
            Some((value, used)) => parse_varint(bytes@.skip(at as int)) == Some(
                (value, used as nat),
            ) && 1 <= used <= VARINT_MAX_LEN && at + used <= bytes@.len(),
            None => parse_varint(bytes@.skip(at as int)) is None,
        },
{
    match read_varint_within(bytes, at, VARINT_MAX_LEN) {
        None => None,
        Some((value, used)) => {
            if value > 0xffff_ffff_ffff_ffff {
                None
            } else {
                Some((value as u64, used))
            }
        },
    }
}

/// 128 to the power of `exponent`.
pub open spec fn pow128(exponent: nat) -> nat
    decreases exponent,
{
    if exponent == 0 {
        1
    } else {
        128 * pow128((exponent - 1) as nat)
    }
}

/// Powers of 128 up to the tenth fit well within 128 bits.
proof fn lemma_pow128_bound(exponent: nat)
    requires
        exponent <= VARINT_MAX_LEN,
    ensures
        1 <= pow128(exponent) <= 0x40_0000_0000_0000_0000,
        exponent <= 9 ==> pow128(exponent) <= 0x8000_0000_0000_0000,
{
    reveal_with_fuel(pow128, 11);
}

/// A varint of a number below the `k`-th power of 128 has at most `k` bytes.
proof fn lemma_varint_len_below(value: nat, k: nat)
    requires
        k >= 1,
        value < pow128(k),
    ensures
        1 <= varint(value).len() <= k,
    decreases k,
{
    reveal_with_fuel(pow128, 2);
    if value >= 128 {
        assert(k >= 2);
        lemma_varint_len_below(value / 128, (k - 1) as nat);
    }
}

/// A varint of a 64-bit number has at most ten bytes.
pub proof fn lemma_varint_len(value: nat)
    requires
        value <= u64::MAX,
    ensures
        1 <= varint(value).len() <= VARINT_MAX_LEN,
{
    lemma_pow128_bound(10);
    assert(pow128(10) == 0x40_0000_0000_0000_0000) by {
        reveal_with_fuel(pow128, 11);
    }
    lemma_varint_len_below(value, 10);
}

/// Reading undoes writing: the varint of a number, followed by anything, is
/// read as that number and as long as it was written.
pub proof fn lemma_varint_within_round_trip(value: nat, rest: Seq<u8>, limit: nat)
    requires
        varint(value).len() <= limit,
    ensures
        varint_within(varint(value) + rest, limit) == Some((value, varint(value).len())),
    decreases value,
{
    let bytes = varint(value) + rest;
    if value < 128 {
        assert(bytes[0] == value as u8);
    } else {
        assert(bytes[0] == (value % 128 + 128) as u8);
        assert(bytes.skip(1) =~= varint(value / 128) + rest);
        lemma_varint_within_round_trip(value / 128, rest, (limit - 1) as nat);
    }
}

/// Reading undoes writing, for every 64-bit number.
pub proof fn lemma_varint_round_trip(value: u64, rest: Seq<u8>)
    ensures
        parse_varint(varint(value as nat) + rest) == Some((value, varint(value as nat).len())),
        1 <= varint(value as nat).len() <= VARINT_MAX_LEN,
{
    lemma_varint_len(value as nat);
    lemma_varint_within_round_trip(value as nat, rest, VARINT_MAX_LEN as nat);
}

/// The number that stands for `value` in a varint.
pub fn to_unsigned(value: i64) -> (number: u64)
    ensures
        number == unsigned_of(value as int),
{
    if value >= 0 {
        value as u64
    } else {
        0xffff_ffff_ffff_ffff - ((-(value + 1)) as u64)
    }
}

/// The signed 64-bit number that `number` stands for.
pub fn to_signed64(number: u64) -> (value: i64)
    ensures
        value == signed64_of(number),
{
    if number < 0x8000_0000_0000_0000 {
        number as i64
    } else {
        -((0xffff_ffff_ffff_ffff - number) as i64) - 1
    }
}

/// The signed 32-bit number that `number` stands for.
pub fn to_signed32(number: u64) -> (value: i32)
    ensures
        value == signed32_of(number),
{
    let low: u64 = number % 0x1_0000_0000;
    if low < 0x8000_0000 {
        low as i32
    } else {
        -((0xffff_ffff - low) as i32) - 1
    }
}

/// `String::from_utf8`: the text that `bytes` encode in UTF-8, `None` where
/// they encode none.
#[verifier::external_body]
pub(crate) fn text_of_utf8(bytes: Vec<u8>) -> (text: Option<String>)
    ensures
        match text {
            Some(text) => valid_utf8(bytes@) && text@ == decode_utf8(bytes@),
            None => !valid_utf8(bytes@),
        },
{
    String::from_utf8(bytes).ok()
}

/// The text that a field holds: the value must be a run of bytes that encode
/// a text in UTF-8.
pub open spec fn text_of_value(value: FieldValue) -> Option<Seq<char>> {
    match value {
        FieldValue::Bytes(bytes) => if valid_utf8(bytes) {
            Some(decode_utf8(bytes))
        } else {
            None
        },
        _ => None,
    }
}

/// The number that a field holds: the value must be a varint.
pub open spec fn number_of_value(value: FieldValue) -> Option<u64> {
    match value {
        FieldValue::Varint(number) => Some(number),
        _ => None,
    }
}

/// The run of bytes that a field holds.
pub open spec fn bytes_of_value(value: FieldValue) -> Option<Seq<u8>> {
    match value {
        FieldValue::Bytes(bytes) => Some(bytes),
        _ => None,
    }
}

/// The text that a field holds.
pub fn text_value(value: &FieldRef<'_>) -> (text: Option<String>)
    ensures
        match text {
            Some(text) => text_of_value(value@) == Some(text@),
            None => text_of_value(value@) is None,
        },
{
    match value {
        FieldRef::Bytes(bytes) => text_of_utf8(slice_to_vec(bytes)),
        _ => None,
    }
}

/// The number that a field holds.
pub fn number_value(value: &FieldRef<'_>) -> (number: Option<u64>)
    ensures
        number == number_of_value(value@),
{
    match value {
        FieldRef::Varint(number) => Some(*number),
        _ => None,
    }
}

/// Appends the key of a field.
pub fn put_key(tag: u32, wire_type: u8, out: &mut Vec<u8>)
    requires
        wire_type < 8,
    ensures
        final(out)@ == old(out)@ + key(tag, wire_type),
{
    put_varint(tag as u64 * 8 + wire_type as u64, out);
}

/// Appends a field that holds a number.
pub fn put_varint_field(tag: u32, value: u64, out: &mut Vec<u8>)
    ensures
        final(out)@ == old(out)@ + varint_field(tag, value as nat),
{
    put_key(tag, WIRE_VARINT, out);
    put_varint(value, out);
    assert(out@ =~= old(out)@ + varint_field(tag, value as nat));
}

/// Appends a field that holds a run of bytes.
pub fn put_bytes_field(tag: u32, bytes: &[u8], out: &mut Vec<u8>)
    ensures
        final(out)@ == old(out)@ + bytes_field(tag, bytes@),
{
    put_key(tag, WIRE_BYTES, out);
    put_varint(bytes.len() as u64, out);
    out.extend_from_slice(bytes);
    assert(out@ =~= old(out)@ + bytes_field(tag, bytes@));
}

/// The length of a field with the given tag that holds a number.
pub fn varint_field_len(tag: u32, value: u64) -> (len: usize)
    ensures
        len == varint_field(tag, value as nat).len(),
        len <= 2 * VARINT_MAX_LEN,
{
    varint_len(tag as u64 * 8 + WIRE_VARINT as u64) + varint_len(value)
}

/// The length of a field with the given tag that holds `count` bytes.
pub fn bytes_field_len(tag: u32, count: u64) -> (len: u128)
    ensures
        forall|bytes: Seq<u8>|
            bytes.len() == count ==> len == #[trigger] bytes_field(tag, bytes).len(),
        len <= count + 2 * VARINT_MAX_LEN,
{
    let head = varint_len(tag as u64 * 8 + WIRE_BYTES as u64) + varint_len(count);
    head as u128 + count as u128
}

/// A field that holds a number, followed by anything, is read as that field.
pub proof fn lemma_varint_field_parses(tag: u32, value: u64, rest: Seq<u8>, depth: nat)
    requires
        1 <= tag < 0x2000_0000,
    ensures
        parse_field(varint_field(tag, value as nat) + rest, depth) == Some(
            (
                Field { tag, value: FieldValue::Varint(value) },
                varint_field(tag, value as nat).len(),
            ),
        ),
        varint_field(tag, value as nat).len() >= 2,
{
    let number = (tag * 8 + WIRE_VARINT) as u64;
    let head = varint(number as nat);
    let bytes = varint_field(tag, value as nat) + rest;
    assert(bytes =~= head + (varint(value as nat) + rest));
    lemma_varint_round_trip(number, varint(value as nat) + rest);
    assert(bytes.skip(head.len() as int) =~= varint(value as nat) + rest);
    lemma_varint_round_trip(value, rest);
}

/// A field that holds a run of bytes, followed by anything, is read as that
/// field.
pub proof fn lemma_bytes_field_parses(tag: u32, run: Seq<u8>, rest: Seq<u8>, depth: nat)
    requires
        1 <= tag < 0x2000_0000,
        run.len() <= u64::MAX,
    ensures
        parse_field(bytes_field(tag, run) + rest, depth) == Some(
            (Field { tag, value: FieldValue::Bytes(run) }, bytes_field(tag, run).len()),
        ),
        bytes_field(tag, run).len() >= 2,
{
    let number = (tag * 8 + WIRE_BYTES) as u64;
    let head = varint(number as nat);
    let count = varint(run.len());
    let bytes = bytes_field(tag, run) + rest;
    assert(bytes =~= head + (count + (run + rest)));
    lemma_varint_round_trip(number, count + (run + rest));
    let after_key = bytes.skip(head.len() as int);
    assert(after_key =~= count + (run + rest));
    lemma_varint_round_trip(run.len() as u64, run + rest);
    assert(after_key.subrange(count.len() as int, (count.len() + run.len()) as int) =~= run);
}

/// One step of reading a message: a field at the start of the bytes moves
/// into the message, and reading goes on behind it.
pub proof fn lemma_parse_message_step<M: Fields>(
    field_bytes: Seq<u8>,
    field: Field,
    rest: Seq<u8>,
    start: M::V,
    next: M::V,
    depth: nat,
)
    requires
        field_bytes.len() >= 1,
        parse_field(field_bytes + rest, depth) == Some((field, field_bytes.len())),
        M::with(start, field) == Some(next),
    ensures
        parse_message::<M>(field_bytes + rest, start, depth) == parse_message::<M>(
            rest,
            next,
            depth,
        ),
{
    assert((field_bytes + rest).skip(field_bytes.len() as int) =~= rest);
}

} // verus!

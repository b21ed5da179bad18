//! The blur's per-level parameter and the uniform buffer that carries it.
//!
//! Every pass samples its source with a texel spread. The spread is either
//! tied to the level (it doubles with each level) or one number for all
//! levels. A spread tied to the level is a table of records, one per level,
//! each record padded to the stride at which the device can bind it, and a
//! pass binds the record of its level by its byte offset. A single spread is
//! one scalar and nothing else; every pass binds it as it is, and a change of
//! the number is written over it.

use vstd::prelude::*;
use crate::levels::MAX_LEVELS;
use crate::scalar::{be_bytes, bits_of_power_of_two, bits_same_value, is_native_encoding, is_zero,
    le_bytes, power_of_two_bits, same_value, scalar_bytes};

verus! {

/// The number of records of the table: one per level, level 0 included.
pub const RECORDS: u32 = MAX_LEVELS + 1;

/// The number of bytes of the scalar at the start of a record.
pub const SCALAR_SIZE: u32 = 4;

/// The binding of the parameter buffer in its bind group.
pub const PARAMETER_BINDING: u32 = 0;

/// The largest alignment that the table is laid out for. The whole table then
/// still fits the 32-bit offsets by which records are bound.
pub const MAX_ALIGNMENT: u32 = 0x0800_0000;

/// How far apart a pass samples its source.
#[derive(Clone, Copy, Debug, PartialEq, Eq, Structural)]
pub enum Spread {
    /// The spread of a level is two to the power of the level.
    Binary,
    /// The same spread at every level, as the bits of a single-precision number.
    Uniform(u32),
}

/// The spread of `level`, as the bits of a single-precision number.
pub open spec fn texel_bits(spread: Spread, level: nat) -> u32 {
    match spread {
        Spread::Binary => power_of_two_bits(level),
        Spread::Uniform(bits) => bits,
    }
}

/// The distance in bytes between two records: the smallest multiple of the
/// alignment that holds a scalar. An alignment outside
/// `1..=MAX_ALIGNMENT` counts as the nearer end of that range.
pub open spec fn record_stride(alignment: u32) -> u32 {
    if alignment > MAX_ALIGNMENT {
        MAX_ALIGNMENT
    } else if alignment >= SCALAR_SIZE {
        alignment
    } else if alignment == 3 {
        6
    } else {
        4
    }
}

/// Whether `stride` is a distance between records that a table can have.
pub open spec fn is_stride(stride: u32) -> bool {
    SCALAR_SIZE <= stride <= MAX_ALIGNMENT
}

/// The byte offset of the record that a pass of `level` binds; none where the
/// buffer is one scalar, bound as it is.
pub open spec fn parameter_offset(spread: Spread, level: nat, stride: u32) -> Option<int> {
    match spread {
        Spread::Binary => Some(record_start(level, stride)),
        Spread::Uniform(_) => None,
    }
}

/// What a change of parameter does to the buffer.
#[derive(Clone, Copy, Debug, PartialEq, Eq, Structural)]
pub enum Change {
    /// The buffer stays as it is.
    Keep,
    /// The scalar is written over the one that the buffer holds.
    Write,
    /// The buffer is created anew.
    Create,
}

/// The byte offset at which the record of `level` starts.
pub open spec fn record_start(level: nat, stride: u32) -> int {
    level * stride
}

/// The scalar at the start of the record of `level`.
pub open spec fn record_scalar(bytes: Seq<u8>, level: nat, stride: u32) -> Seq<u8> {
    bytes.subrange(record_start(level, stride), record_start(level, stride) + SCALAR_SIZE)
}

/// The bytes of the record of `level` behind its scalar.
pub open spec fn record_padding(bytes: Seq<u8>, level: nat, stride: u32) -> Seq<u8> {
    bytes.subrange(record_start(level, stride) + SCALAR_SIZE, record_start(level + 1, stride))
}

/// `count` bytes of zero.
pub open spec fn zeros(count: nat) -> Seq<u8> {
    Seq::new(count, |i: int| 0u8)
}

/// Whether `bytes` is the table of a spread tied to the level: one record per
/// level, each starting with two to the power of the level in the machine's
/// byte order, and zero behind it.
pub open spec fn is_table(bytes: Seq<u8>, stride: u32) -> bool {
    &&& bytes.len() == RECORDS * stride
    &&& forall|level: nat|
        level < RECORDS ==> is_native_encoding(
            #[trigger] record_scalar(bytes, level, stride),
            power_of_two_bits(level),
        )
    &&& forall|level: nat|
        level < RECORDS ==> #[trigger] record_padding(bytes, level, stride) == zeros(
            (stride - SCALAR_SIZE) as nat,
        )
}

/// Whether a buffer that holds `uploaded` gives every pass the spread that
/// `wanted` asks for: the same spread, or zero for zero of the other sign.
pub open spec fn serves(uploaded: Spread, wanted: Spread) -> bool {
    match (uploaded, wanted) {
        (Spread::Binary, Spread::Binary) => true,
        (Spread::Uniform(a), Spread::Uniform(b)) => a == b || (is_zero(a) && is_zero(b)),
        _ => false,
    }
}

/// What happens to a buffer that was written for `before` when the parameter
/// becomes `after`. A table is never written again. A scalar is kept for a
/// number that compares equal and overwritten for another. Between a table
/// and a scalar the buffer is created anew.
pub open spec fn change(before: Spread, after: Spread) -> Change {
    match (before, after) {
        (Spread::Binary, Spread::Binary) => Change::Keep,
        (Spread::Uniform(a), Spread::Uniform(b)) => if same_value(a, b) {
            Change::Keep
        } else {
            Change::Write
        },
        _ => Change::Create,
    }
}

/// Whether `bytes` is the whole buffer for `spread`: the table where the
/// spread is tied to the level, the one scalar otherwise.
pub open spec fn is_contents(bytes: Seq<u8>, spread: Spread, stride: u32) -> bool {
    match spread {
        Spread::Binary => is_table(bytes, stride),
        Spread::Uniform(bits) => is_native_encoding(bytes, bits),
    }
}

/// The scalar that a pass of `level` reads from `buffer`.
pub open spec fn bound_scalar(buffer: Seq<u8>, spread: Spread, level: nat, stride: u32) -> Seq<u8> {
    match parameter_offset(spread, level, stride) {
        Some(offset) => buffer.subrange(offset, offset + SCALAR_SIZE),
        None => buffer,
    }
}

/// The distance in bytes between two records for a device of `alignment`.
pub fn stride_for(alignment: u32) -> (stride: u32)
    ensures
        stride == record_stride(alignment),
        is_stride(stride),
{
    if alignment > MAX_ALIGNMENT {
        MAX_ALIGNMENT
    } else if alignment >= SCALAR_SIZE {
        alignment
    } else if alignment == 3 {
        6
    } else {
        4
    }
}

/// What happens to a buffer written for `before` when the parameter becomes
/// `after`.
pub fn change_of(before: Spread, after: Spread) -> (what: Change)
    ensures
        what == change(before, after),
{
    match (before, after) {
        (Spread::Binary, Spread::Binary) => Change::Keep,
        (Spread::Uniform(a), Spread::Uniform(b)) => if bits_same_value(a, b) {
            Change::Keep
        } else {
            Change::Write
        },
        _ => Change::Create,
    }
}

/// Whether passes bind the buffer of `spread` by the offset of a record.
pub fn binds_records(spread: Spread) -> (records: bool)
    ensures
        records == spread is Binary,
        forall|level: nat, stride: u32|
            records == #[trigger] parameter_offset(spread, level, stride) is Some,
{
    match spread {
        Spread::Binary => true,
        Spread::Uniform(_) => false,
    }
}

/// The byte offset of the record that a pass of `level` binds, if it binds
/// one.
pub(crate) fn offset_of_level(spread: Spread, level: u32, stride: u32) -> (offset: Option<u32>)
    requires
        level <= MAX_LEVELS,
        is_stride(stride),
    ensures
        offset is Some == parameter_offset(spread, level as nat, stride) is Some,
        offset matches Some(bytes) ==> parameter_offset(spread, level as nat, stride) == Some(
            bytes as int,
        ),
{
    match spread {
        Spread::Binary => {
            assert(level * stride <= 16 * 0x0800_0000) by (nonlinear_arith)
                requires
                    level <= 16,
                    stride <= 0x0800_0000,
            ;
            Some(level * stride)
        },
        Spread::Uniform(_) => None,
    }
}

/// Records lie behind one another: the record of `level` ends where the next
/// begins, and before the end of any table that holds a later record.
proof fn lemma_record_bounds(level: nat, records: nat, stride: u32)
    requires
        level < records,
    ensures
        0 <= record_start(level, stride),
        record_start(level + 1, stride) == record_start(level, stride) + stride,
        record_start(level + 1, stride) <= record_start(records, stride),
{
    let s = stride as int;
    assert(0 <= level * s) by (nonlinear_arith)
        requires
            s >= 0,
    ;
    assert((level + 1) * s == level * s + s) by (nonlinear_arith);
    assert((level + 1) * s <= records * s) by (nonlinear_arith)
        requires
            level + 1 <= records,
            s >= 0,
    ;
}

/// Appends the record of one scalar to `bytes`: the scalar, then zeros up to
/// the stride.
fn push_record(bytes: &mut Vec<u8>, bits: u32, stride: u32)
    requires
        is_stride(stride),
    ensures
        final(bytes)@.len() == old(bytes)@.len() + stride,
        final(bytes)@.subrange(0, old(bytes)@.len() as int) == old(bytes)@,
        is_native_encoding(
            final(bytes)@.subrange(
                old(bytes)@.len() as int,
                old(bytes)@.len() + SCALAR_SIZE as int,
            ),
            bits,
        ),
        final(bytes)@.subrange(
            old(bytes)@.len() + SCALAR_SIZE as int,
            old(bytes)@.len() + stride as int,
        ) == zeros((stride - SCALAR_SIZE) as nat),
{
    let mut scalar = scalar_bytes(bits);
    let ghost before = bytes@;
    let ghost encoded = scalar@;
    bytes.append(&mut scalar);
    let mut filled: u32 = SCALAR_SIZE;
    while filled < stride
        invariant
            SCALAR_SIZE <= filled <= stride,
            encoded.len() == SCALAR_SIZE,
            bytes@ == before + encoded + zeros((filled - SCALAR_SIZE) as nat),
        decreases stride - filled,
    {
        bytes.push(0);
        filled = filled + 1;
    }
    assert(bytes@.subrange(0, before.len() as int) == before);
    assert(bytes@.subrange(before.len() as int, before.len() + SCALAR_SIZE as int) == encoded);
    assert(bytes@.subrange(before.len() + SCALAR_SIZE as int, before.len() + stride as int)
        == zeros((stride - SCALAR_SIZE) as nat));
}

/// The table of a spread tied to the level.
fn table_bytes(stride: u32) -> (bytes: Vec<u8>)
    requires
        is_stride(stride),
    ensures
        is_table(bytes@, stride),
{
    let mut bytes: Vec<u8> = Vec::new();
    let mut level: u32 = 0;
    while level < RECORDS
        invariant
            level <= RECORDS,
            is_stride(stride),
            bytes@.len() == record_start(level as nat, stride),
            forall|l: nat|
                l < level ==> is_native_encoding(
                    #[trigger] record_scalar(bytes@, l, stride),
                    power_of_two_bits(l),
                ),
            forall|l: nat|
                l < level ==> #[trigger] record_padding(bytes@, l, stride) == zeros(
                    (stride - SCALAR_SIZE) as nat,
                ),
        decreases RECORDS - level,
    {
        let ghost before = bytes@;
        push_record(&mut bytes, bits_of_power_of_two(level), stride);
        proof {
            lemma_record_bounds(level as nat, RECORDS as nat, stride);
            assert forall|l: nat| l < level + 1 implies is_native_encoding(
                #[trigger] record_scalar(bytes@, l, stride),
                power_of_two_bits(l),
            ) by {
                if l < level {
                    lemma_record_bounds(l, level as nat, stride);
                    assert(record_scalar(bytes@, l, stride) == record_scalar(before, l, stride));
                }
            }
            assert forall|l: nat| l < level + 1 implies #[trigger] record_padding(
                bytes@,
                l,
                stride,
            ) == zeros((stride - SCALAR_SIZE) as nat) by {
                if l < level {
                    lemma_record_bounds(l, level as nat, stride);
                    assert(record_padding(bytes@, l, stride) == record_padding(
                        before,
                        l,
                        stride,
                    ));
                }
            }
        }
        level = level + 1;
    }
    bytes
}

/// The whole buffer for `spread`, as it is created with.
pub(crate) fn contents_bytes(spread: Spread, stride: u32) -> (bytes: Vec<u8>)
    requires
        is_stride(stride),
    ensures
        is_contents(bytes@, spread, stride),
{
    match spread {
        Spread::Binary => table_bytes(stride),
        Spread::Uniform(bits) => scalar_bytes(bits),
    }
}

/// The stride is a multiple of the alignment it was chosen for, it holds a
/// scalar, and no smaller multiple does.
pub proof fn law_stride_is_aligned(alignment: u32)
    requires
        1 <= alignment <= MAX_ALIGNMENT,
    ensures
        record_stride(alignment) as int % alignment as int == 0,
        record_stride(alignment) >= SCALAR_SIZE,
        record_stride(alignment) - alignment < SCALAR_SIZE,
{
    let a = alignment as int;
    if a == 1 {
        assert(4int % 1 == 0);
    } else if a == 2 {
        assert(4int % 2 == 0);
    } else if a == 3 {
        assert(6int % 3 == 0);
    } else {
        assert(a % a == 0) by (nonlinear_arith)
            requires
                a > 0,
        ;
    }
}

/// A pass that binds a record can bind it: the record starts at a multiple
/// of the stride, its offset fits 32 bits, and it lies within the table.
pub proof fn law_records_lie_within_the_table(stride: u32, level: nat)
    requires
        is_stride(stride),
        level <= MAX_LEVELS,
    ensures
        0 <= record_start(level, stride) <= u32::MAX,
        record_start(level, stride) % stride as int == 0,
        record_start(level, stride) + SCALAR_SIZE <= RECORDS * stride,
{
    lemma_record_bounds(level, RECORDS as nat, stride);
    let s = stride as int;
    assert((level * s) % s == 0) by (nonlinear_arith)
        requires
            s > 0,
    ;
    assert(17 * s <= 17 * 0x0800_0000);
}

/// A buffer with the contents for a spread gives every pass the spread of
/// its level; and a buffer for one number is that scalar and nothing else.
pub proof fn law_contents_serve_every_level(
    bytes: Seq<u8>,
    spread: Spread,
    stride: u32,
    level: nat,
)
    requires
        is_stride(stride),
        is_contents(bytes, spread, stride),
        level <= MAX_LEVELS,
    ensures
        is_native_encoding(bound_scalar(bytes, spread, level, stride), texel_bits(spread, level)),
        spread is Uniform ==> bytes.len() == SCALAR_SIZE,
        spread is Binary ==> bytes.len() == RECORDS * stride,
{
    match spread {
        Spread::Binary => {
            assert(bound_scalar(bytes, spread, level, stride) == record_scalar(
                bytes,
                level,
                stride,
            ));
        },
        Spread::Uniform(bits) => {
            assert(le_bytes(bits).len() == SCALAR_SIZE && be_bytes(bits).len() == SCALAR_SIZE);
        },
    }
}

/// A buffer that was written for one spread and is kept for another reads,
/// at every level, as a number equal to what the other asks for: the same
/// bits, or zero for zero.
pub proof fn law_kept_buffer_reads_equal(
    buffer: Seq<u8>,
    uploaded: Spread,
    wanted: Spread,
    stride: u32,
    level: nat,
)
    requires
        is_stride(stride),
        is_contents(buffer, uploaded, stride),
        serves(uploaded, wanted),
        level <= MAX_LEVELS,
    ensures
        is_native_encoding(
            bound_scalar(buffer, wanted, level, stride),
            texel_bits(uploaded, level),
        ),
        texel_bits(uploaded, level) == texel_bits(wanted, level) || (is_zero(
            texel_bits(uploaded, level),
        ) && is_zero(texel_bits(wanted, level))),
{
    law_contents_serve_every_level(buffer, uploaded, stride, level);
    assert(bound_scalar(buffer, wanted, level, stride) == bound_scalar(
        buffer,
        uploaded,
        level,
        stride,
    ));
}

} // verus!

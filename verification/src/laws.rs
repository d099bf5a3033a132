//! Library-wide laws, stated over the hasher's mathematical model and
//! proved once and for all. Together with the functional contracts of
//! `new`, `update`, `digest` and `hexdigest`, they pin down the
//! observable behaviour of the digest pipeline.

use vstd::prelude::*;

use crate::codec::spec_pack;
use crate::gates::spec_process;
use crate::hasher::{
    spec_absorb_chunks, spec_absorb_step, spec_init, spec_pad, spec_update, HasherModel, PAD_BYTE,
};

verus! {

/// Determinism: the whole pipeline is a function of the construction
/// parameters and the absorbed bytes alone. Since `new`, `update` and
/// `digest` pin their results to exactly these spec functions, two
/// hashers built with equal parameters and fed equal messages return
/// equal digests, however often they are rebuilt.
pub proof fn lemma_hash_deterministic(
    depth: nat,
    size: nat,
    standard: bool,
    m1: Seq<u8>,
    m2: Seq<u8>,
)
    requires
        m1 == m2,
    ensures
        spec_update(spec_init(depth, size, standard), m1) == spec_update(
            spec_init(depth, size, standard),
            m2,
        ),
        spec_pack(spec_update(spec_init(depth, size, standard), m1).digest_nibbles, size)
            == spec_pack(spec_update(spec_init(depth, size, standard), m2).digest_nibbles, size),
{
}

/// Absorbing an empty message is a no-op: no counter update, no chunk,
/// no finalize.
pub proof fn lemma_absorb_empty_noop(m: HasherModel)
    ensures
        spec_update(m, Seq::<u8>::empty()) == m,
{
}

/// Before any data is absorbed the digest state is all-zero nibbles,
/// so the digest is exactly `size / 8` zero bytes.
pub proof fn lemma_initial_digest_all_zero(depth: nat, size: nat, standard: bool)
    ensures
        spec_init(depth, size, standard).digest_nibbles == Seq::new(size / 4, |i: int| 0u8),
        spec_pack(spec_init(depth, size, standard).digest_nibbles, size) =~= Seq::new(
            size / 8,
            |i: int| 0u8,
        ),
{
    assert((0u8 << 4) | 0u8 == 0u8 && 0u8 << 4 == 0u8) by (bit_vector);
}

/// A message of exactly one chunk (32 bytes) absorbed into a hasher
/// with an empty buffer pushes the processed block into the key window
/// and makes that same block, unpadded, the digest state.
pub proof fn lemma_single_block_absorb(m: HasherModel, bytes: Seq<u8>)
    requires
        m.buffer.len() == 0,
        bytes.len() == 32,
        m.depth >= 1,
    ensures
        ({
            let hm = spec_process(bytes, m.key_layers, m.size);
            spec_update(m, bytes) == HasherModel {
                buffer: Seq::<u8>::empty(),
                counter: m.counter + 32,
                key_layers: (seq![hm] + m.key_layers).take(m.depth as int),
                digest_nibbles: hm,
                ..m
            }
        }),
{
    let filled = HasherModel { buffer: m.buffer + bytes, counter: m.counter + bytes.len(), ..m };
    assert(filled.buffer =~= bytes);
    assert(filled.buffer.take(32) =~= bytes);
    let stepped = spec_absorb_step(filled);
    assert(stepped.buffer =~= Seq::<u8>::empty());
    assert(spec_absorb_chunks(filled) == spec_absorb_chunks(stepped));
    assert(spec_absorb_chunks(stepped) == stepped);
    let hm = spec_process(bytes, m.key_layers, m.size);
    assert(stepped =~~= HasherModel {
        buffer: Seq::<u8>::empty(),
        counter: m.counter + 32,
        key_layers: (seq![hm] + m.key_layers).take(m.depth as int),
        digest_nibbles: hm,
        ..m
    });
}

/// A message of one full chunk plus a partial remainder (33 to 63
/// bytes) absorbed into a hasher with an empty buffer pushes the
/// processed first chunk into the key window, keeps the remainder
/// buffered, and finalizes over the padded remainder with the rotated
/// window.
pub proof fn lemma_block_and_remainder_absorb(m: HasherModel, bytes: Seq<u8>)
    requires
        m.buffer.len() == 0,
        32 < bytes.len() < 64,
        m.depth >= 1,
    ensures
        ({
            let hm = spec_process(bytes.take(32), m.key_layers, m.size);
            let rotated = (seq![hm] + m.key_layers).take(m.depth as int);
            spec_update(m, bytes) == HasherModel {
                buffer: bytes.skip(32),
                counter: m.counter + bytes.len(),
                key_layers: rotated,
                digest_nibbles: spec_process(spec_pad(bytes.skip(32)), rotated, m.size),
                ..m
            }
        }),
{
    let filled = HasherModel { buffer: m.buffer + bytes, counter: m.counter + bytes.len(), ..m };
    assert(filled.buffer =~= bytes);
    assert(filled.buffer.take(32) =~= bytes.take(32));
    let stepped = spec_absorb_step(filled);
    assert(stepped.buffer =~= bytes.skip(32));
    assert(spec_absorb_chunks(filled) == spec_absorb_chunks(stepped));
    assert(spec_absorb_chunks(stepped) == stepped);
    let hm = spec_process(bytes.take(32), m.key_layers, m.size);
    let rotated = (seq![hm] + m.key_layers).take(m.depth as int);
    assert(spec_update(m, bytes) =~~= HasherModel {
        buffer: bytes.skip(32),
        counter: m.counter + bytes.len(),
        key_layers: rotated,
        digest_nibbles: spec_process(spec_pad(bytes.skip(32)), rotated, m.size),
        ..m
    });
}

/// Finalizing a buffer of `L < 32` bytes pads it with exactly `32 - L`
/// bytes of the value `0x41` and touches nothing before position `L`.
pub proof fn lemma_padding(b: Seq<u8>)
    requires
        b.len() < 32,
    ensures
        spec_pad(b).len() == 32,
        spec_pad(b).take(b.len() as int) == b,
        forall|i: int| b.len() <= i < 32 ==> spec_pad(b)[i] == PAD_BYTE,
{
    assert(spec_pad(b).take(b.len() as int) =~= b);
}

} // verus!

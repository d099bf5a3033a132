//! The permutation core: a bit-addressable state driven through layers
//! of reversible three-wire gates (Toffoli and Fredkin, each in a
//! regular and a mirrored variant), selected and keyed by the round's
//! nibble layer.

use vstd::prelude::*;

use crate::codec::{layers_model, spec_unpack, unpack, valid_nibbles};

verus! {

/// Gate family selector: a Toffoli gate flips one wire when the other
/// two are set.
pub const TOFFOLI: u8 = 0;

/// Gate family selector: a Fredkin gate swaps two wires when a control
/// wire is set.
pub const FREDKIN: u8 = 1;

/// Wiring variant: the control wires come first.
pub const REGULAR: u8 = 0;

/// Wiring variant: the roles of the wires are reversed.
pub const MIRRORED: u8 = 1;

/// Wire index for gate `g` at in-gate offset `offset`: the second
/// sublayer is shifted two wires along, and everything wraps at `size`.
pub open spec fn spec_get_wire(g: int, first_sublayer: bool, offset: int, size: nat) -> int {
    (g * 4 + offset + (if first_sublayer {
        0int
    } else {
        2int
    })) % (size as int)
}

/// The bit at wire `wire`: bit `wire % 4` of nibble `wire / 4`; wires
/// past the end of the state read as zero.
pub open spec fn spec_get_bit(block: Seq<u8>, wire: int) -> u8 {
    if 0 <= wire / 4 < block.len() {
        (block[wire / 4] >> ((wire % 4) as u8)) & 1
    } else {
        0u8
    }
}

/// Write `bit` at wire `wire` (clear then set); writes past the end of
/// the state are dropped.
pub open spec fn spec_set_bit(block: Seq<u8>, wire: int, bit: u8) -> Seq<u8> {
    if 0 <= wire / 4 < block.len() {
        block.update(
            wire / 4,
            (block[wire / 4] & (15u8 ^ (1u8 << ((wire % 4) as u8)))) | (bit << ((wire % 4) as u8)),
        )
    } else {
        block
    }
}

/// One three-wire gate applied to the state. The decoded `gate_name`
/// picks Toffoli or Fredkin, `gate_symmetry` the regular or mirrored
/// wiring; a gate whose condition fails is the identity.
pub open spec fn spec_apply_gate(
    block: Seq<u8>,
    g: int,
    gate_name: u8,
    gate_symmetry: u8,
    first_sublayer: bool,
    layer: nat,
    size: nat,
) -> Seq<u8> {
    let off = (layer as int) % 2;
    let w1 = spec_get_wire(g, first_sublayer, off, size);
    let w2 = spec_get_wire(g, first_sublayer, off + 1, size);
    let w3 = spec_get_wire(g, first_sublayer, off + 2, size);
    let v1 = spec_get_bit(block, w1);
    let v2 = spec_get_bit(block, w2);
    let v3 = spec_get_bit(block, w3);
    if gate_name == TOFFOLI && gate_symmetry == REGULAR && v1 == 1 && v2 == 1 {
        spec_set_bit(block, w3, v3 ^ (v1 & v2))
    } else if gate_name == TOFFOLI && gate_symmetry == MIRRORED && v2 == 1 && v3 == 1 {
        spec_set_bit(block, w1, v1 ^ (v2 & v3))
    } else if gate_name == FREDKIN && gate_symmetry == REGULAR && v1 == 1 && v2 != v3 {
        spec_set_bit(spec_set_bit(block, w2, v3), w3, v2)
    } else if gate_name == FREDKIN && gate_symmetry == MIRRORED && v3 == 1 && v1 != v2 {
        spec_set_bit(spec_set_bit(block, w1, v2), w2, v1)
    } else {
        block
    }
}

/// The key-mix step: XOR each of the first `size / 4` nibbles of the
/// state with the round key, so an all-zero state cannot map to itself.
pub open spec fn spec_mix(block: Seq<u8>, key: Seq<u8>, size: nat) -> Seq<u8> {
    Seq::new(
        block.len(),
        |i: int|
            if i < size / 4 && i < key.len() {
                block[i] ^ key[i]
            } else {
                block[i]
            },
    )
}

/// Gate `g` of a sublayer: the first sublayer decodes the
/// low two bits of the key nibble, the second the high two bits.
pub open spec fn spec_gate_at(
    block: Seq<u8>,
    key: Seq<u8>,
    g: int,
    first_sublayer: bool,
    layer: nat,
    size: nat,
) -> Seq<u8> {
    if 0 <= g < key.len() {
        let gt = if first_sublayer {
            key[g] & 0x3
        } else {
            (key[g] & 0xC) >> 2
        };
        spec_apply_gate(block, g, gt & 1, gt >> 1, first_sublayer, layer, size)
    } else {
        block
    }
}

/// The first `g` gates of a sublayer, applied in increasing index order;
/// each gate sees the writes of the gates before it.
pub open spec fn spec_sublayer_to(
    block: Seq<u8>,
    key: Seq<u8>,
    first_sublayer: bool,
    layer: nat,
    size: nat,
    g: nat,
) -> Seq<u8>
    decreases g,
{
    if g == 0 {
        block
    } else {
        spec_gate_at(
            spec_sublayer_to(block, key, first_sublayer, layer, size, (g - 1) as nat),
            key,
            g - 1,
            first_sublayer,
            layer,
            size,
        )
    }
}

/// One full round: the key mix, then both sublayers of `size / 4` gates.
pub open spec fn spec_layer_pass(block: Seq<u8>, key: Seq<u8>, layer: nat, size: nat) -> Seq<u8> {
    let mixed = spec_mix(block, key, size);
    let s1 = spec_sublayer_to(mixed, key, true, layer, size, size / 4);
    spec_sublayer_to(s1, key, false, layer, size, size / 4)
}

/// The first `n` rounds, consuming key layers in index order.
pub open spec fn spec_rounds(block: Seq<u8>, layers: Seq<Seq<u8>>, size: nat, n: nat) -> Seq<u8>
    decreases n,
{
    if n == 0 {
        block
    } else {
        spec_layer_pass(spec_rounds(block, layers, size, (n - 1) as nat), layers[n - 1], (n - 1) as nat, size)
    }
}

/// The whole permutation network over a 32-byte chunk: unpack to
/// nibbles, then one round per key layer.
pub open spec fn spec_process(chunk: Seq<u8>, layers: Seq<Seq<u8>>, size: nat) -> Seq<u8> {
    spec_rounds(spec_unpack(chunk), layers, size, layers.len())
}

/// Wire index for gate `g` at in-gate offset `offset`.
fn get_wire(g: usize, first_sublayer: bool, offset: usize, size: usize) -> (r: usize)
    requires
        4 <= size,
        size % 4 == 0,
        g < size / 4,
        offset <= 3,
    ensures
        r == spec_get_wire(g as int, first_sublayer, offset as int, size as nat),
        r < size,
{
    proof {
        assert(4 * (size / 4) + size % 4 == size) by (nonlinear_arith);
        assert(4 * g <= 4 * (size / 4) - 4);
    }
    (g * 4 + offset + (if first_sublayer {
        0
    } else {
        2
    })) % size
}

/// Read the bit at wire `wire`.
fn get_bit(block: &Vec<u8>, wire: usize) -> (r: u8)
    ensures
        r == spec_get_bit(block@, wire as int),
        r <= 1,
{
    let r: u8 = if wire / 4 < block.len() {
        (block[wire / 4] >> ((wire % 4) as u8)) & 1
    } else {
        0
    };
    proof {
        let b = block@[wire as int / 4];
        let s = (wire as int % 4) as u8;
        assert((b >> s) & 1 <= 1) by (bit_vector);
    }
    r
}

/// Write `bit` at wire `wire`.
fn set_bit(block: &mut Vec<u8>, wire: usize, bit: u8)
    ensures
        final(block)@ == spec_set_bit(old(block)@, wire as int, bit),
{
    if wire / 4 < block.len() {
        let s = (wire % 4) as u8;
        let v = (block[wire / 4] & (15u8 ^ (1u8 << s))) | (bit << s);
        block.set(wire / 4, v);
    }
    proof {
        assert(block@ =~= spec_set_bit(old(block)@, wire as int, bit));
    }
}

/// A nibble stays in range under `spec_set_bit` when a single bit is
/// written.
pub proof fn lemma_set_bit_valid(block: Seq<u8>, wire: int, bit: u8)
    requires
        valid_nibbles(block),
        bit <= 1,
    ensures
        valid_nibbles(spec_set_bit(block, wire, bit)),
        spec_set_bit(block, wire, bit).len() == block.len(),
{
    if 0 <= wire / 4 < block.len() {
        let n = block[wire / 4];
        let s = (wire % 4) as u8;
        assert(s < 4);
        assert(n < 16 && bit <= 1 && s < 4 ==> ((n & (15u8 ^ (1u8 << s))) | (bit << s)) < 16)
            by (bit_vector);
    }
}

/// A gate keeps every nibble of the state in range and the state length
/// unchanged.
pub proof fn lemma_apply_gate_valid(
    block: Seq<u8>,
    g: int,
    gate_name: u8,
    gate_symmetry: u8,
    first_sublayer: bool,
    layer: nat,
    size: nat,
)
    requires
        valid_nibbles(block),
    ensures
        valid_nibbles(
            spec_apply_gate(block, g, gate_name, gate_symmetry, first_sublayer, layer, size),
        ),
        spec_apply_gate(block, g, gate_name, gate_symmetry, first_sublayer, layer, size).len()
            == block.len(),
{
    let off = (layer as int) % 2;
    let w1 = spec_get_wire(g, first_sublayer, off, size);
    let w2 = spec_get_wire(g, first_sublayer, off + 1, size);
    let w3 = spec_get_wire(g, first_sublayer, off + 2, size);
    let v1 = spec_get_bit(block, w1);
    let v2 = spec_get_bit(block, w2);
    let v3 = spec_get_bit(block, w3);
    lemma_get_bit_le_one(block, w1);
    lemma_get_bit_le_one(block, w2);
    lemma_get_bit_le_one(block, w3);
    assert(v1 <= 1 && v2 <= 1 && v3 <= 1 ==> (v3 ^ (v1 & v2)) <= 1 && (v1 ^ (v2 & v3)) <= 1)
        by (bit_vector);
    lemma_set_bit_valid(block, w3, v3 ^ (v1 & v2));
    lemma_set_bit_valid(block, w1, v1 ^ (v2 & v3));
    lemma_set_bit_valid(block, w2, v3);
    lemma_set_bit_valid(spec_set_bit(block, w2, v3), w3, v2);
    lemma_set_bit_valid(block, w1, v2);
    lemma_set_bit_valid(spec_set_bit(block, w1, v2), w2, v1);
}

/// A wire read is a single bit.
pub proof fn lemma_get_bit_le_one(block: Seq<u8>, wire: int)
    ensures
        spec_get_bit(block, wire) <= 1,
{
    if wire / 4 < block.len() {
        let b = block[wire / 4];
        let s = (wire % 4) as u8;
        assert((b >> s) & 1 <= 1) by (bit_vector);
    }
}

/// The key mix keeps every nibble in range when state and key are
/// nibble arrays.
pub proof fn lemma_mix_valid(block: Seq<u8>, key: Seq<u8>, size: nat)
    requires
        valid_nibbles(block),
        valid_nibbles(key),
    ensures
        valid_nibbles(spec_mix(block, key, size)),
        spec_mix(block, key, size).len() == block.len(),
{
    assert forall|i: int| 0 <= i < block.len() implies spec_mix(block, key, size)[i] < 16 by {
        if i < size / 4 && i < key.len() {
            let a = block[i];
            let b = key[i];
            assert(a < 16 && b < 16 ==> (a ^ b) < 16) by (bit_vector);
        }
    }
}

/// A sublayer prefix keeps the state a nibble array of unchanged length.
pub proof fn lemma_sublayer_valid(
    block: Seq<u8>,
    key: Seq<u8>,
    first_sublayer: bool,
    layer: nat,
    size: nat,
    g: nat,
)
    requires
        valid_nibbles(block),
    ensures
        valid_nibbles(spec_sublayer_to(block, key, first_sublayer, layer, size, g)),
        spec_sublayer_to(block, key, first_sublayer, layer, size, g).len() == block.len(),
    decreases g,
{
    if g > 0 {
        lemma_sublayer_valid(block, key, first_sublayer, layer, size, (g - 1) as nat);
        let prev = spec_sublayer_to(block, key, first_sublayer, layer, size, (g - 1) as nat);
        if 0 <= g - 1 < key.len() {
            let gt = if first_sublayer {
                key[g - 1] & 0x3
            } else {
                (key[g - 1] & 0xC) >> 2
            };
            lemma_apply_gate_valid(prev, g - 1, gt & 1, gt >> 1, first_sublayer, layer, size);
        }
    }
}

/// A full round keeps the state a nibble array of unchanged length.
pub proof fn lemma_layer_pass_valid(block: Seq<u8>, key: Seq<u8>, layer: nat, size: nat)
    requires
        valid_nibbles(block),
        valid_nibbles(key),
    ensures
        valid_nibbles(spec_layer_pass(block, key, layer, size)),
        spec_layer_pass(block, key, layer, size).len() == block.len(),
{
    let mixed = spec_mix(block, key, size);
    lemma_mix_valid(block, key, size);
    lemma_sublayer_valid(mixed, key, true, layer, size, size / 4);
    let s1 = spec_sublayer_to(mixed, key, true, layer, size, size / 4);
    lemma_sublayer_valid(s1, key, false, layer, size, size / 4);
}

/// Any number of rounds keeps the state a nibble array of unchanged
/// length.
pub proof fn lemma_rounds_valid(block: Seq<u8>, layers: Seq<Seq<u8>>, size: nat, n: nat)
    requires
        valid_nibbles(block),
        forall|i: int| 0 <= i < layers.len() ==> valid_nibbles(#[trigger] layers[i]),
        n <= layers.len(),
    ensures
        valid_nibbles(spec_rounds(block, layers, size, n)),
        spec_rounds(block, layers, size, n).len() == block.len(),
    decreases n,
{
    if n > 0 {
        lemma_rounds_valid(block, layers, size, (n - 1) as nat);
        let prev = spec_rounds(block, layers, size, (n - 1) as nat);
        lemma_layer_pass_valid(prev, layers[n - 1], (n - 1) as nat, size);
    }
}

/// The permutation network's output is a 64-entry nibble array.
pub proof fn lemma_process_valid(chunk: Seq<u8>, layers: Seq<Seq<u8>>, size: nat)
    requires
        forall|i: int| 0 <= i < layers.len() ==> valid_nibbles(#[trigger] layers[i]),
    ensures
        valid_nibbles(spec_process(chunk, layers, size)),
        spec_process(chunk, layers, size).len() == 64,
{
    crate::codec::lemma_unpack_valid(chunk);
    lemma_rounds_valid(spec_unpack(chunk), layers, size, layers.len());
}

/// Apply one decoded gate to the state in place.
#[verifier::loop_isolation(false)]
fn apply_gate(
    block: &mut Vec<u8>,
    g: usize,
    gate_name: u8,
    gate_symmetry: u8,
    first_sublayer: bool,
    layer: usize,
    size: usize,
)
    requires
        8 <= size,
        size % 8 == 0,
        g < size / 4,
    ensures
        final(block)@ == spec_apply_gate(
            old(block)@,
            g as int,
            gate_name,
            gate_symmetry,
            first_sublayer,
            layer as nat,
            size as nat,
        ),
{
    let off = layer % 2;
    let w1 = get_wire(g, first_sublayer, off, size);
    let w2 = get_wire(g, first_sublayer, off + 1, size);
    let w3 = get_wire(g, first_sublayer, off + 2, size);
    let v1 = get_bit(block, w1);
    let v2 = get_bit(block, w2);
    let v3 = get_bit(block, w3);
    if gate_name == TOFFOLI && gate_symmetry == REGULAR && v1 == 1 && v2 == 1 {
        set_bit(block, w3, v3 ^ (v1 & v2));
    } else if gate_name == TOFFOLI && gate_symmetry == MIRRORED && v2 == 1 && v3 == 1 {
        set_bit(block, w1, v1 ^ (v2 & v3));
    } else if gate_name == FREDKIN && gate_symmetry == REGULAR && v1 == 1 && v2 != v3 {
        set_bit(block, w2, v3);
        set_bit(block, w3, v2);
    } else if gate_name == FREDKIN && gate_symmetry == MIRRORED && v3 == 1 && v1 != v2 {
        set_bit(block, w1, v2);
        set_bit(block, w2, v1);
    }
}

/// Apply one full round (key mix, then both sublayers) in place.
#[verifier::loop_isolation(false)]
fn layer_pass(block: &mut Vec<u8>, key: &Vec<u8>, layer: usize, size: usize)
    requires
        8 <= size,
        size % 8 == 0,
    ensures
        final(block)@ == spec_layer_pass(old(block)@, key@, layer as nat, size as nat),
{
    let n = size / 4;
    let ghost mixed = spec_mix(old(block)@, key@, size as nat);
    let mut g: usize = 0;
    while g < n
        invariant
            g <= n,
            block@.len() == old(block)@.len(),
            forall|j: int| 0 <= j < g && j < block@.len() ==> block@[j] == mixed[j],
            forall|j: int| g <= j < block@.len() ==> block@[j] == old(block)@[j],
        decreases n - g,
    {
        if g < block.len() && g < key.len() {
            let v = block[g] ^ key[g];
            block.set(g, v);
        }
        g = g + 1;
    }
    proof {
        assert(block@ =~= mixed);
    }
    let ghost s1 = spec_sublayer_to(mixed, key@, true, layer as nat, size as nat, (size / 4) as nat);
    g = 0;
    while g < n
        invariant
            g <= n,
            block@ == spec_sublayer_to(mixed, key@, true, layer as nat, size as nat, g as nat),
        decreases n - g,
    {
        if g < key.len() {
            let gt = key[g] & 0x3;
            apply_gate(block, g, gt & 1, gt >> 1, true, layer, size);
        }
        g = g + 1;
    }
    g = 0;
    while g < n
        invariant
            g <= n,
            block@ == spec_sublayer_to(s1, key@, false, layer as nat, size as nat, g as nat),
        decreases n - g,
    {
        if g < key.len() {
            let gt = (key[g] & 0xC) >> 2;
            apply_gate(block, g, gt & 1, gt >> 1, false, layer, size);
        }
        g = g + 1;
    }
}

/// Run a 32-byte chunk through the whole gate network: one round per
/// key layer, in layer order.
#[verifier::loop_isolation(false)]
pub fn process_block(chunk: &Vec<u8>, layers: &Vec<Vec<u8>>, size: usize, depth: usize) -> (r: Vec<
    u8,
>)
    requires
        8 <= size,
        size % 8 == 0,
        chunk@.len() == 32,
        layers@.len() == depth,
        forall|i: int| 0 <= i < depth ==> valid_nibbles((#[trigger] layers@[i])@),
    ensures
        r@ == spec_process(chunk@, layers_model(layers@), size as nat),
        r@.len() == 64,
        valid_nibbles(r@),
{
    let mut block = unpack(chunk.as_slice());
    let ghost model = layers_model(layers@);
    let mut layer: usize = 0;
    while layer < depth
        invariant
            layer <= depth,
            block@ == spec_rounds(spec_unpack(chunk@), model, size as nat, layer as nat),
        decreases depth - layer,
    {
        layer_pass(&mut block, &layers[layer], layer, size);
        layer = layer + 1;
    }
    proof {
        lemma_process_valid(chunk@, model, size as nat);
    }
    block
}

} // verus!

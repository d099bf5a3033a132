//! The round-key schedule: `depth` nibble layers of length `size / 4`,
//! built before any data is absorbed, either from a fixed table of
//! prime cubic roots (standard mode) or from a seeded pseudorandom
//! draw (random mode).

use vstd::prelude::*;

use rand::rngs::StdRng;
use rand::{Rng, SeedableRng};

use crate::codec::{layers_model, valid_nibbles};

verus! {

/// Seed of the pseudorandom key schedule, fixed so that random-mode
/// digests are reproducible within one build.
pub const RANDOM_SCHEDULE_SEED: u64 = 777;

/// The number of entries in the cubic-root table.
pub const CUBIC_ROOT_TABLE_LEN: usize = 64;

/// Entry `i` of the fixed table of 64-bit fractional parts of prime
/// cubic roots ("nothing up my sleeve" constants).
pub open spec fn spec_cubic_root(i: usize) -> u64 {
    match i {
        0 => 0xa54ddd35b5,
        1 => 0xd48ef058b4,
        2 => 0x342640f4c9,
        3 => 0x51cd2de3e9,
        4 => 0x8503094982,
        5 => 0x9b9fd7c452,
        6 => 0xc47a643e0c,
        7 => 0xa8602fe35a,
        8 => 0x20eaf18d67,
        9 => 0x4d59f727fe,
        10 => 0x685bd4533f,
        11 => 0x7534dcd163,
        12 => 0x8dc0dcbb8b,
        13 => 0xb01624cb6d,
        14 => 0xcfeabbf181,
        15 => 0xda0b94f97e,
        16 => 0x8f4d86d1a9,
        17 => 0x20c96455af,
        18 => 0x29c172f7dd,
        19 => 0x43b770ba12,
        20 => 0x544d18005f,
        21 => 0x6c34f761a1,
        22 => 0x8a76ef782f,
        23 => 0x98f8d17ddc,
        24 => 0xa0151027c6,
        25 => 0xae080d4b7b,
        26 => 0xb4e03c992b,
        27 => 0xc251542f88,
        28 => 0x3dc28be52f,
        29 => 0xb75c7e128f,
        30 => 0x241edeb8f4,
        31 => 0x04317d07b2,
        32 => 0x46305e3a3d,
        33 => 0x4bafebecef,
        34 => 0x09308a3b6b,
        35 => 0x6bb275e451,
        36 => 0x76044f4b33,
        37 => 0x85311d5237,
        38 => 0x94051aaeb0,
        39 => 0x98e38ef4df,
        40 => 0xb0b5da348c,
        41 => 0xb55fd044a0,
        42 => 0xbe9b372069,
        43 => 0xc32ceea80e,
        44 => 0xddf799a193,
        45 => 0x0eee44484b,
        46 => 0x17529bf549,
        47 => 0x1b7b53489d,
        48 => 0x23ba4d74a0,
        49 => 0x2febef5a50,
        50 => 0x33f0db9016,
        51 => 0x47b5d89777,
        52 => 0x5352304156,
        53 => 0x5ec09f1622,
        54 => 0x6a02e0a83b,
        55 => 0x0af9027c88,
        56 => 0x78c3f873a6,
        57 => 0x8009496a17,
        58 => 0x83a5537ad2,
        59 => 0x95715f4210,
        60 => 0xadb0de7719,
        61 => 0xb47bab87d1,
        62 => 0xb7db7bc375,
        63 => 0xbe90221e69,
        _ => 0,
    }
}

/// Entry `i` of the cubic-root table.
pub fn cubic_root(i: usize) -> (r: u64)
    requires
        i < CUBIC_ROOT_TABLE_LEN,
    ensures
        r == spec_cubic_root(i),
{
    match i {
        0 => 0xa54ddd35b5,
        1 => 0xd48ef058b4,
        2 => 0x342640f4c9,
        3 => 0x51cd2de3e9,
        4 => 0x8503094982,
        5 => 0x9b9fd7c452,
        6 => 0xc47a643e0c,
        7 => 0xa8602fe35a,
        8 => 0x20eaf18d67,
        9 => 0x4d59f727fe,
        10 => 0x685bd4533f,
        11 => 0x7534dcd163,
        12 => 0x8dc0dcbb8b,
        13 => 0xb01624cb6d,
        14 => 0xcfeabbf181,
        15 => 0xda0b94f97e,
        16 => 0x8f4d86d1a9,
        17 => 0x20c96455af,
        18 => 0x29c172f7dd,
        19 => 0x43b770ba12,
        20 => 0x544d18005f,
        21 => 0x6c34f761a1,
        22 => 0x8a76ef782f,
        23 => 0x98f8d17ddc,
        24 => 0xa0151027c6,
        25 => 0xae080d4b7b,
        26 => 0xb4e03c992b,
        27 => 0xc251542f88,
        28 => 0x3dc28be52f,
        29 => 0xb75c7e128f,
        30 => 0x241edeb8f4,
        31 => 0x04317d07b2,
        32 => 0x46305e3a3d,
        33 => 0x4bafebecef,
        34 => 0x09308a3b6b,
        35 => 0x6bb275e451,
        36 => 0x76044f4b33,
        37 => 0x85311d5237,
        38 => 0x94051aaeb0,
        39 => 0x98e38ef4df,
        40 => 0xb0b5da348c,
        41 => 0xb55fd044a0,
        42 => 0xbe9b372069,
        43 => 0xc32ceea80e,
        44 => 0xddf799a193,
        45 => 0x0eee44484b,
        46 => 0x17529bf549,
        47 => 0x1b7b53489d,
        48 => 0x23ba4d74a0,
        49 => 0x2febef5a50,
        50 => 0x33f0db9016,
        51 => 0x47b5d89777,
        52 => 0x5352304156,
        53 => 0x5ec09f1622,
        54 => 0x6a02e0a83b,
        55 => 0x0af9027c88,
        56 => 0x78c3f873a6,
        57 => 0x8009496a17,
        58 => 0x83a5537ad2,
        59 => 0x95715f4210,
        60 => 0xadb0de7719,
        61 => 0xb47bab87d1,
        62 => 0xb7db7bc375,
        63 => 0xbe90221e69,
        _ => 0,
    }
}

/// The first eight hexadecimal digits of a table entry rendered as ten
/// zero-padded digits: digit `i` carries bits `36 - 4i` and up.
pub open spec fn spec_cubic_digits(cr: u64) -> Seq<u8> {
    Seq::new(8, |i: int| ((cr >> ((36 - 4 * i) as u64)) & 0xF) as u8)
}

/// Read a table entry as its first eight zero-padded hexadecimal
/// digits, one nibble per digit.
fn cubic_root_array(cr: u64) -> (r: Vec<u8>)
    ensures
        r@ == spec_cubic_digits(cr),
        r@.len() == 8,
        valid_nibbles(r@),
{
    let mut r: Vec<u8> = Vec::new();
    let mut i: usize = 0;
    while i < 8
        invariant
            i <= 8,
            r@.len() == i,
            forall|j: int| 0 <= j < i ==> r@[j] == spec_cubic_digits(cr)[j],
        decreases 8 - i,
    {
        let sh: u64 = (36 - 4 * i) as u64;
        r.push(((cr >> sh) & 0xF) as u8);
        i = i + 1;
    }
    proof {
        assert(r@ =~= spec_cubic_digits(cr));
        assert forall|j: int| 0 <= j < r@.len() implies r@[j] < 16 by {
            let s = ((36 - 4 * j) as u64);
            assert(((cr >> s) & 0xF) < 16) by (bit_vector);
        }
    }
    r
}

/// Layer `i` of the standard schedule: table entries seed the first
/// eight nibbles and the deterministic value `(i + 1) % 16` fills the
/// rest; past the table, position `j` holds `(i + j) % 16`.
pub open spec fn spec_standard_layer(i: int, npl: nat) -> Seq<u8> {
    if i < CUBIC_ROOT_TABLE_LEN as int {
        (spec_cubic_digits(spec_cubic_root(i as usize)) + Seq::new(
            if npl > 8 {
                (npl - 8) as nat
            } else {
                0
            },
            |j: int| ((i + 1) % 16) as u8,
        )).take(npl as int)
    } else {
        Seq::new(npl, |j: int| ((i + j) % 16) as u8)
    }
}

/// The standard schedule: `depth` layers of `npl` nibbles each.
pub open spec fn spec_standard_layers(depth: nat, npl: nat) -> Seq<Seq<u8>> {
    Seq::new(depth, |i: int| spec_standard_layer(i, npl))
}

/// Every standard layer is a nibble array of length `npl`.
pub proof fn lemma_standard_layer_wf(i: int, npl: nat)
    requires
        0 <= i,
    ensures
        spec_standard_layer(i, npl).len() == npl,
        valid_nibbles(spec_standard_layer(i, npl)),
{
    if i < CUBIC_ROOT_TABLE_LEN as int {
        let cr = spec_cubic_root(i as usize);
        assert forall|j: int| 0 <= j < 8 implies spec_cubic_digits(cr)[j] < 16 by {
            let s = ((36 - 4 * j) as u64);
            assert(((cr >> s) & 0xF) < 16) by (bit_vector);
        }
    }
}

/// Build the standard schedule.
#[verifier::loop_isolation(false)]
pub fn build_standard_layers(depth: usize, size: usize) -> (r: Vec<Vec<u8>>)
    requires
        8 <= size,
        size % 8 == 0,
    ensures
        layers_model(r@) == spec_standard_layers(depth as nat, (size / 4) as nat),
        r@.len() == depth,
        forall|i: int| 0 <= i < depth ==> (#[trigger] r@[i])@.len() == size / 4,
        forall|i: int| 0 <= i < depth ==> valid_nibbles(r@[i]@),
{
    let npl = size / 4;
    let mut layers: Vec<Vec<u8>> = Vec::new();
    let mut i: usize = 0;
    while i < depth
        invariant
            i <= depth,
            layers@.len() == i,
            forall|k: int| 0 <= k < i ==> (#[trigger] layers@[k])@ == spec_standard_layer(k, npl as nat),
        decreases depth - i,
    {
        let mut layer: Vec<u8>;
        if i < CUBIC_ROOT_TABLE_LEN {
            layer = cubic_root_array(cubic_root(i));
            let ghost digits = layer@;
            while layer.len() < npl
                invariant
                    8 <= layer@.len(),
                    layer@.len() <= (if npl > 8 { npl } else { 8 }),
                    layer@ =~= digits + Seq::new((layer@.len() - 8) as nat, |j: int| ((i as int + 1) % 16) as u8),
                decreases npl - layer@.len(),
            {
                layer.push(((i + 1) % 16) as u8);
                proof {
                    assert(layer@ =~= digits + Seq::new(
                        (layer@.len() - 8) as nat,
                        |j: int| ((i as int + 1) % 16) as u8,
                    ));
                }
            }
            layer.truncate(npl);
            proof {
                assert(layer@ =~= spec_standard_layer(i as int, npl as nat));
            }
        } else {
            layer = Vec::new();
            let mut j: usize = 0;
            while j < npl
                invariant
                    j <= npl,
                    layer@.len() == j,
                    forall|t: int| 0 <= t < j ==> layer@[t] == ((i as int + t) % 16) as u8,
                decreases npl - j,
            {
                proof {
                    vstd::arithmetic::div_mod::lemma_add_mod_noop(i as int, j as int, 16);
                }
                layer.push(((i % 16 + j % 16) % 16) as u8);
                j = j + 1;
            }
            proof {
                assert(layer@ =~= spec_standard_layer(i as int, npl as nat));
            }
        }
        layers.push(layer);
        i = i + 1;
    }
    proof {
        assert(layers_model(layers@) =~= spec_standard_layers(depth as nat, npl as nat));
        assert forall|k: int| 0 <= k < depth implies (#[trigger] layers@[k])@.len() == size / 4
            && valid_nibbles(layers@[k]@) by {
            lemma_standard_layer_wf(k, npl as nat);
        }
    }
    layers
}

/// The values a seeded generator hands out: a function of the seed,
/// the count and the bound alone, because the generator's algorithm is
/// fixed.
pub uninterp spec fn seeded_values(seed: u64, count: usize, bound: u8) -> Seq<u8>;

/// Relies on rand::rngs::StdRng::seed_from_u64 and rand::Rng::gen_range:
/// StdRng is a fixed deterministic algorithm, so the sequence drawn is
/// a function of the seed, the count and the bound alone, and every
/// value that gen_range(0..bound) returns lies below `bound`.
#[verifier::external_body]
fn draw_seeded_values(seed: u64, count: usize, bound: u8) -> (r: Vec<u8>)
    requires
        bound >= 1,
    ensures
        r@ == seeded_values(seed, count, bound),
        r@.len() == count,
        forall|i: int| 0 <= i < r@.len() ==> r@[i] < bound,
{
    let mut rng = StdRng::seed_from_u64(seed);
    let mut v: Vec<u8> = Vec::with_capacity(count);
    for _ in 0..count {
        v.push(rng.gen_range(0..bound));
    }
    v
}

/// The random-mode schedule: `depth * npl` nibbles drawn in order from
/// the seeded generator, cut into `depth` layers of `npl` nibbles.
pub open spec fn spec_random_layers(depth: nat, npl: nat) -> Seq<Seq<u8>> {
    let flat = seeded_values(RANDOM_SCHEDULE_SEED, (depth * npl) as usize, 16);
    Seq::new(depth, |i: int| flat.subrange(i * npl, (i + 1) * npl))
}

/// Build the random-mode schedule.
#[verifier::loop_isolation(false)]
pub fn build_random_layers(depth: usize, size: usize) -> (r: Vec<Vec<u8>>)
    requires
        8 <= size,
        size % 8 == 0,
        depth * (size / 4) <= usize::MAX,
    ensures
        layers_model(r@) == spec_random_layers(depth as nat, (size / 4) as nat),
        r@.len() == depth,
        forall|i: int| 0 <= i < depth ==> (#[trigger] r@[i])@.len() == size / 4,
        forall|i: int| 0 <= i < depth ==> valid_nibbles(r@[i]@),
{
    let npl = size / 4;
    proof {
        assert(depth * npl == (depth as nat * npl as nat) as usize);
    }
    let total = depth * npl;
    let flat = draw_seeded_values(RANDOM_SCHEDULE_SEED, total, 16);
    let mut layers: Vec<Vec<u8>> = Vec::new();
    let mut i: usize = 0;
    while i < depth
        invariant
            i <= depth,
            layers@.len() == i,
            forall|k: int| 0 <= k < i ==> (#[trigger] layers@[k])@ == flat@.subrange(
                k * npl,
                (k + 1) * npl,
            ),
        decreases depth - i,
    {
        proof {
            assert((i + 1) * npl <= total && i * npl + npl == (i + 1) * npl) by (nonlinear_arith)
                requires
                    i < depth,
                    total == depth * npl,
            ;
        }
        let mut layer: Vec<u8> = Vec::new();
        let mut j: usize = 0;
        while j < npl
            invariant
                j <= npl,
                layer@.len() == j,
                (i + 1) * npl <= total,
                i * npl + npl == (i + 1) * npl,
                forall|t: int| 0 <= t < j ==> layer@[t] == flat@[i * npl + t],
            decreases npl - j,
        {
            layer.push(flat[i * npl + j]);
            j = j + 1;
        }
        proof {
            assert(layer@ =~= flat@.subrange(i as int * npl as int, (i as int + 1) * npl as int));
        }
        layers.push(layer);
        i = i + 1;
    }
    proof {
        assert(layers_model(layers@) =~= spec_random_layers(depth as nat, npl as nat));
        assert forall|k: int| 0 <= k < depth implies (#[trigger] layers@[k])@.len() == size / 4
            && valid_nibbles(layers@[k]@) by {
            assert(0 <= k * npl && (k + 1) * npl <= total && k * npl + npl == (k + 1) * npl)
                by (nonlinear_arith)
                requires
                    0 <= k < depth,
                    total == depth * npl,
                    npl >= 0,
            ;
            assert(layers@[k]@.len() == npl);
            assert forall|t: int| 0 <= t < layers@[k]@.len() implies layers@[k]@[t] < 16 by {
                assert(layers@[k]@[t] == flat@[k * npl + t]);
            }
        }
    }
    layers
}

} // verus!

//! The hasher state and the absorption pipeline: buffered input bytes
//! are cut into 32-byte chunks that rotate the key-layer window, and
//! the trailing partial chunk, padded with `0x41`, determines the
//! externally visible digest.

use vstd::prelude::*;
use vstd::string::StringExecFns;
use vstd::string::StringSliceAdditionalSpecFns;

use crate::codec::{hex_chars, hex_encode_bytes, layers_model, pack, spec_pack, valid_nibbles};
use crate::gates::{process_block, spec_process};
use crate::schedule::{
    build_random_layers, build_standard_layers, spec_random_layers, spec_standard_layers,
};

verus! {

/// Number of rounds and key layers used when none is chosen.
pub const DEFAULT_DEPTH: usize = 128;

/// Bit width of the internal state used when none is chosen.
pub const DEFAULT_SIZE: usize = 256;

/// The byte appended to a trailing partial chunk until it is 32 bytes
/// long (the letter 'A').
pub const PAD_BYTE: u8 = 0x41;

/// The mathematical state of a hasher.
#[verifier::ext_equal]
pub struct HasherModel {
    /// Input bytes not yet cut into a full chunk.
    pub buffer: Seq<u8>,
    /// Total bytes ever absorbed (informational only).
    pub counter: nat,
    /// Number of rounds, and of key layers kept.
    pub depth: nat,
    /// Bit width of the permutation state.
    pub size: nat,
    /// Sliding window of `depth` round-key nibble layers, newest first.
    pub key_layers: Seq<Seq<u8>>,
    /// Nibble output of the most recent finalize, all zeros before one.
    pub digest_nibbles: Seq<u8>,
}

/// The key-layer window is full and holds nibble arrays: `depth` layers,
/// each of the initial length `size / 4` or the 64-nibble length of a
/// processed block.
pub open spec fn wf_layers(layers: Seq<Seq<u8>>, depth: nat, npl: nat) -> bool {
    &&& layers.len() == depth
    &&& forall|i: int|
        0 <= i < layers.len() ==> ((#[trigger] layers[i]).len() == npl || layers[i].len() == 64)
    &&& forall|i: int| 0 <= i < layers.len() ==> valid_nibbles(#[trigger] layers[i])
}

/// Well-formedness of a hasher state: valid parameters, a full key
/// window, and a buffer that stays below one chunk between calls.
pub open spec fn wf(m: HasherModel) -> bool {
    &&& m.depth >= 1
    &&& 8 <= m.size
    &&& m.size % 8 == 0
    &&& wf_layers(m.key_layers, m.depth, m.size / 4)
    &&& m.buffer.len() < 32
    &&& m.buffer.len() <= m.counter
    &&& valid_nibbles(m.digest_nibbles)
    &&& (m.digest_nibbles.len() == m.size / 4 || m.digest_nibbles.len() == 64)
}

/// A buffer of fewer than 32 bytes, padded with `PAD_BYTE` up to 32.
pub open spec fn spec_pad(b: Seq<u8>) -> Seq<u8> {
    if b.len() >= 32 {
        b
    } else {
        b + Seq::new((32 - b.len()) as nat, |i: int| PAD_BYTE)
    }
}

/// One absorption step: process the first 32 buffered bytes, push the
/// result onto the front of the key window (discarding the oldest
/// layer), record it as the latest digest state, and drop the chunk.
pub open spec fn spec_absorb_step(m: HasherModel) -> HasherModel {
    let hm = spec_process(m.buffer.take(32), m.key_layers, m.size);
    HasherModel {
        buffer: m.buffer.skip(32),
        key_layers: (seq![hm] + m.key_layers).take(m.depth as int),
        digest_nibbles: hm,
        ..m
    }
}

/// Absorb full chunks while at least 32 bytes are buffered.
pub open spec fn spec_absorb_chunks(m: HasherModel) -> HasherModel
    decreases m.buffer.len(),
{
    if m.buffer.len() >= 32 {
        spec_absorb_chunks(spec_absorb_step(m))
    } else {
        m
    }
}

/// One absorption call over `bytes`: an empty call is a no-op; otherwise
/// the bytes join the buffer, full chunks are absorbed, and if a partial
/// chunk remains it is padded and processed into the digest state
/// without being consumed.
pub open spec fn spec_update(m: HasherModel, bytes: Seq<u8>) -> HasherModel {
    if bytes.len() == 0 {
        m
    } else {
        let filled = HasherModel {
            buffer: m.buffer + bytes,
            counter: m.counter + bytes.len(),
            ..m
        };
        let drained = spec_absorb_chunks(filled);
        if drained.buffer.len() > 0 {
            HasherModel {
                digest_nibbles: spec_process(
                    spec_pad(drained.buffer),
                    drained.key_layers,
                    drained.size,
                ),
                ..drained
            }
        } else {
            drained
        }
    }
}

/// The state of a freshly built hasher, before any data is absorbed:
/// an empty buffer, a full key schedule of the chosen mode, and an
/// all-zero digest state.
pub open spec fn spec_init(depth: nat, size: nat, standard: bool) -> HasherModel {
    HasherModel {
        buffer: Seq::empty(),
        counter: 0,
        depth: depth,
        size: size,
        key_layers: if standard {
            spec_standard_layers(depth, size / 4)
        } else {
            spec_random_layers(depth, size / 4)
        },
        digest_nibbles: Seq::new(size / 4, |i: int| 0u8),
    }
}

/// The chosen depth, or the default.
pub open spec fn depth_or_default(depth: Option<usize>) -> nat {
    match depth {
        Some(d) => d as nat,
        None => DEFAULT_DEPTH as nat,
    }
}

/// The chosen state width, or the default.
pub open spec fn size_or_default(size: Option<usize>) -> nat {
    match size {
        Some(s) => s as nat,
        None => DEFAULT_SIZE as nat,
    }
}

/// The hexadecimal rendering of the digest, prefixed with "0x".
pub open spec fn spec_hex_digest(m: HasherModel) -> Seq<char> {
    seq!['0', 'x'] + hex_chars(spec_pack(m.digest_nibbles, m.size))
}

/// A well-formed key window, seen through `layers_model`, is a vector
/// of `depth` valid nibble arrays.
proof fn lemma_layers_valid_vecs(v: Seq<Vec<u8>>, depth: nat, npl: nat)
    requires
        wf_layers(layers_model(v), depth, npl),
    ensures
        v.len() == depth,
        forall|i: int| 0 <= i < depth ==> valid_nibbles((#[trigger] v[i])@),
{
    assert forall|i: int| 0 <= i < depth implies valid_nibbles((#[trigger] v[i])@) by {
        assert(layers_model(v)[i] == v[i]@);
        assert(valid_nibbles(layers_model(v)[i]));
    }
}

/// A Mirror256 hasher: buffered input, a sliding window of round-key
/// layers, and the nibble state of the most recent finalize.
pub struct Mirror256 {
    buffer: Vec<u8>,
    counter: usize,
    depth: usize,
    size: usize,
    last_hashes: Vec<Vec<u8>>,
    hashed: Vec<u8>,
}

impl View for Mirror256 {
    type V = HasherModel;

    closed spec fn view(&self) -> HasherModel {
        HasherModel {
            buffer: self.buffer@,
            counter: self.counter as nat,
            depth: self.depth as nat,
            size: self.size as nat,
            key_layers: layers_model(self.last_hashes@),
            digest_nibbles: self.hashed@,
        }
    }
}

impl Mirror256 {
    /// Build a hasher with the chosen depth and state width (or their
    /// defaults), the standard or the seeded random key schedule, and
    /// absorb the initial message if one is given. Parameters outside
    /// the valid domain (`depth >= 1`, `size` a positive multiple of 8)
    /// are rejected up front by precondition rather than at run time.
    pub fn new(
        m: Option<&str>,
        depth: Option<usize>,
        size: Option<usize>,
        use_standard_state: bool,
    ) -> (r: Self)
        requires
            match depth {
                Some(d) => d >= 1,
                None => true,
            },
            match size {
                Some(s) => 8 <= s && s % 8 == 0,
                None => true,
            },
            !use_standard_state ==> depth_or_default(depth) * (size_or_default(size) / 4)
                <= usize::MAX,
        ensures
            wf(r@),
            r@ == match m {
                Some(t) => spec_update(
                    spec_init(depth_or_default(depth), size_or_default(size), use_standard_state),
                    t.spec_bytes(),
                ),
                None => spec_init(
                    depth_or_default(depth),
                    size_or_default(size),
                    use_standard_state,
                ),
            },
    {
        let depth_v = match depth {
            Some(d) => d,
            None => DEFAULT_DEPTH,
        };
        let size_v = match size {
            Some(s) => s,
            None => DEFAULT_SIZE,
        };
        let last_hashes = if use_standard_state {
            build_standard_layers(depth_v, size_v)
        } else {
            build_random_layers(depth_v, size_v)
        };
        let mut hashed: Vec<u8> = Vec::new();
        let npl = size_v / 4;
        let mut i: usize = 0;
        while i < npl
            invariant
                i <= npl,
                hashed@.len() == i,
                forall|j: int| 0 <= j < i ==> hashed@[j] == 0u8,
            decreases npl - i,
        {
            hashed.push(0);
            i = i + 1;
        }
        let mut h = Mirror256 {
            buffer: Vec::new(),
            counter: 0,
            depth: depth_v,
            size: size_v,
            last_hashes,
            hashed,
        };
        proof {
            assert(h@ =~~= spec_init(
                depth_or_default(depth),
                size_or_default(size),
                use_standard_state,
            ));
        }
        if let Some(msg) = m {
            // A slice length is a usize, so the byte length of the
            // message cannot exceed the counter's machine limit.
            let _byte_len = msg.as_bytes().len();
            h.update(msg);
        }
        h
    }

    /// Absorb `m`: append its UTF-8 bytes to the buffer, run every full
    /// 32-byte chunk through the permutation network into the key window, and
    /// re-finalize the digest state from the remaining partial chunk.
    /// An empty `m` changes nothing. Chunks are cut on byte boundaries,
    /// so the digest depends on the byte stream alone; `&str` guarantees
    /// a valid encoding at the boundary, and no decoding step (and no
    /// decoding fallback) exists past it.
    #[verifier::loop_isolation(false)]
    pub fn update(&mut self, m: &str)
        requires
            wf(old(self)@),
            old(self)@.counter + m.spec_bytes().len() <= usize::MAX,
        ensures
            wf(final(self)@),
            final(self)@ == spec_update(old(self)@, m.spec_bytes()),
    {
        let bytes: &[u8] = m.as_bytes();
        if bytes.len() == 0 {
            return ;
        }
        let n = bytes.len();
        self.buffer.extend_from_slice(bytes);
        proof {
            assert(self.buffer@ =~= old(self)@.buffer + m.spec_bytes());
        }
        self.counter = self.counter + n;
        let ghost filled = HasherModel {
            buffer: old(self)@.buffer + m.spec_bytes(),
            counter: old(self)@.counter + m.spec_bytes().len(),
            ..old(self)@
        };
        proof {
            assert(self@ =~~= filled);
        }
        let ghost target = spec_absorb_chunks(filled);
        while self.buffer.len() >= 32
            invariant
                self@.depth == old(self)@.depth,
                self@.size == old(self)@.size,
                self@.counter == filled.counter,
                wf_layers(self@.key_layers, self@.depth, self@.size / 4),
                valid_nibbles(self@.digest_nibbles),
                self@.digest_nibbles.len() == self@.size / 4 || self@.digest_nibbles.len() == 64,
                self@.buffer.len() <= self@.counter,
                spec_absorb_chunks(self@) == target,
            decreases self@.buffer.len(),
        {
            let ghost pre = self@;
            let mut chunk: Vec<u8> = Vec::new();
            let mut i: usize = 0;
            while i < 32
                invariant
                    i <= 32,
                    chunk@.len() == i,
                    forall|j: int| 0 <= j < i ==> chunk@[j] == self.buffer@[j],
                decreases 32 - i,
            {
                chunk.push(self.buffer[i]);
                i = i + 1;
            }
            proof {
                assert(chunk@ =~= pre.buffer.take(32));
            }
            proof {
                lemma_layers_valid_vecs(
                    self.last_hashes@,
                    self@.depth,
                    self@.size / 4,
                );
            }
            let hm = process_block(&chunk, &self.last_hashes, self.size, self.depth);
            let ghost hm_spec = spec_process(pre.buffer.take(32), pre.key_layers, pre.size);
            self.last_hashes.insert(0, hm.clone());
            self.last_hashes.truncate(self.depth);
            let mut rest: Vec<u8> = Vec::new();
            let blen = self.buffer.len();
            let mut j: usize = 32;
            while j < blen
                invariant
                    32 <= j <= blen,
                    rest@.len() == j - 32,
                    forall|t: int| 32 <= t < j ==> rest@[t - 32] == self.buffer@[t],
                decreases blen - j,
            {
                rest.push(self.buffer[j]);
                j = j + 1;
            }
            self.buffer = rest;
            self.hashed = hm;
            proof {
                assert(self@.buffer =~= pre.buffer.skip(32));
                assert(self@.key_layers =~~= (seq![hm_spec] + pre.key_layers).take(
                    pre.depth as int,
                ));
                assert(self@ =~~= spec_absorb_step(pre));
                assert(spec_absorb_chunks(pre) == spec_absorb_chunks(spec_absorb_step(pre)));
            }
        }
        proof {
            assert(spec_absorb_chunks(self@) == self@);
            assert(self@ == target);
        }
        if self.buffer.len() > 0 {
            let ghost drained = self@;
            let mut padded = self.buffer.clone();
            proof {
                assert(padded@ =~= drained.buffer);
            }
            let buf_len = padded.len();
            while padded.len() < 32
                invariant
                    buf_len == drained.buffer.len(),
                    buf_len <= padded@.len() <= 32,
                    forall|t: int| 0 <= t < buf_len ==> padded@[t] == drained.buffer[t],
                    forall|t: int| buf_len <= t < padded@.len() ==> padded@[t] == PAD_BYTE,
                decreases 32 - padded@.len(),
            {
                padded.push(PAD_BYTE);
            }
            proof {
                assert(padded@ =~= spec_pad(drained.buffer));
            }
            proof {
                lemma_layers_valid_vecs(
                    self.last_hashes@,
                    self@.depth,
                    self@.size / 4,
                );
            }
            let hm = process_block(&padded, &self.last_hashes, self.size, self.depth);
            self.hashed = hm;
            proof {
                assert(self@ =~~= HasherModel {
                    digest_nibbles: spec_process(
                        spec_pad(drained.buffer),
                        drained.key_layers,
                        drained.size,
                    ),
                    ..drained
                });
            }
        }
        proof {
            assert(self@ =~~= spec_update(old(self)@, m.spec_bytes()));
        }
    }

    /// The digest of the most recent finalize: the latest nibble state
    /// packed into exactly `size / 8` bytes.
    pub fn digest(&self) -> (r: Vec<u8>)
        ensures
            r@ == spec_pack(self@.digest_nibbles, self@.size),
            r@.len() == self@.size / 8,
    {
        pack(&self.hashed, self.size)
    }

    /// The digest rendered as lowercase hexadecimal, prefixed "0x".
    pub fn hexdigest(&self) -> (r: String)
        ensures
            r@ == spec_hex_digest(self@),
    {
        let d = self.digest();
        let h = hex_encode_bytes(&d);
        let mut s = String::from_str("0x");
        proof {
            reveal_strlit("0x");
        }
        s.append(h.as_str());
        proof {
            assert(s@ =~= spec_hex_digest(self@));
        }
        s
    }
}

} // verus!

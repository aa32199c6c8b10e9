//! SHA-256 (FIPS 180-4) for the gateway contract, which hashes payloads
//! without a host crypto API: padding, the message schedule, the 64 rounds
//! of compression per block and the big-endian digest.
use vstd::prelude::*;

verus! {

/// The round constants.
pub const SHA256_K: [u32; 64] = [
    0x428a2f98, 0x71374491, 0xb5c0fbcf, 0xe9b5dba5, 0x3956c25b, 0x59f111f1, 0x923f82a4, 0xab1c5ed5,
    0xd807aa98, 0x12835b01, 0x243185be, 0x550c7dc3, 0x72be5d74, 0x80deb1fe, 0x9bdc06a7, 0xc19bf174,
    0xe49b69c1, 0xefbe4786, 0x0fc19dc6, 0x240ca1cc, 0x2de92c6f, 0x4a7484aa, 0x5cb0a9dc, 0x76f988da,
    0x983e5152, 0xa831c66d, 0xb00327c8, 0xbf597fc7, 0xc6e00bf3, 0xd5a79147, 0x06ca6351, 0x14292967,
    0x27b70a85, 0x2e1b2138, 0x4d2c6dfc, 0x53380d13, 0x650a7354, 0x766a0abb, 0x81c2c92e, 0x92722c85,
    0xa2bfe8a1, 0xa81a664b, 0xc24b8b70, 0xc76c51a3, 0xd192e819, 0xd6990624, 0xf40e3585, 0x106aa070,
    0x19a4c116, 0x1e376c08, 0x2748774c, 0x34b0bcb5, 0x391c0cb3, 0x4ed8aa4a, 0x5b9cca4f, 0x682e6ff3,
    0x748f82ee, 0x78a5636f, 0x84c87814, 0x8cc70208, 0x90befffa, 0xa4506ceb, 0xbef9a3f7, 0xc67178f2,
];

/// The initial hash value.
pub const SHA256_H0: [u32; 8] = [
    0x6a09e667, 0xbb67ae85, 0x3c6ef372, 0xa54ff53a, 0x510e527f, 0x9b05688c, 0x1f83d9ab, 0x5be0cd19,
];

/// The eight working words.
pub type Words8 = (u32, u32, u32, u32, u32, u32, u32, u32);

/// Rotation of a word right by `n` bits (`0 < n < 32`).
pub open spec fn rotr(x: u32, n: u32) -> u32 {
    (x >> n) | (x << ((32 - n) as u32))
}

pub open spec fn small_sigma0(x: u32) -> u32 {
    rotr(x, 7) ^ rotr(x, 18) ^ (x >> 3u32)
}

pub open spec fn small_sigma1(x: u32) -> u32 {
    rotr(x, 17) ^ rotr(x, 19) ^ (x >> 10u32)
}

pub open spec fn big_sigma0(x: u32) -> u32 {
    rotr(x, 2) ^ rotr(x, 13) ^ rotr(x, 22)
}

pub open spec fn big_sigma1(x: u32) -> u32 {
    rotr(x, 6) ^ rotr(x, 11) ^ rotr(x, 25)
}

pub open spec fn choose_bits(e: u32, f: u32, g: u32) -> u32 {
    (e & f) ^ (!e & g)
}

pub open spec fn majority(a: u32, b: u32, c: u32) -> u32 {
    (a & b) ^ (a & c) ^ (b & c)
}

/// Number of zero bytes after the `0x80` marker, so that the padded
/// length is 56 modulo 64.
pub open spec fn zero_padding(len: nat) -> nat {
    let rem = (len + 1) % 64;
    if rem <= 56 {
        (56 - rem) as nat
    } else {
        (120 - rem) as nat
    }
}

/// The eight big-endian bytes of a 64-bit number.
pub open spec fn be64(v: u64) -> Seq<u8> {
    Seq::new(8, |i: int| (v >> ((56 - 8 * i) as u64)) as u8)
}

/// The padded message: the data, `0x80`, zero bytes, and the bit length.
pub open spec fn padded(data: Seq<u8>) -> Seq<u8> {
    data.push(0x80u8) + Seq::new(zero_padding(data.len()), |i: int| 0u8) + be64((data.len() * 8) as u64)
}

/// The big-endian word at `off`.
pub open spec fn word_at(m: Seq<u8>, off: int) -> u32 {
    (m[off] * 16777216 + m[off + 1] * 65536 + m[off + 2] * 256 + m[off + 3]) as u32
}

/// Word `i` of the message schedule of the block at `base`.
pub open spec fn schedule(m: Seq<u8>, base: int, i: nat) -> u32
    decreases i,
{
    if i < 16 {
        word_at(m, base + 4 * i)
    } else {
        schedule(m, base, (i - 16) as nat).wrapping_add(small_sigma0(schedule(m, base, (i - 15) as nat))).wrapping_add(
            schedule(m, base, (i - 7) as nat),
        ).wrapping_add(small_sigma1(schedule(m, base, (i - 2) as nat)))
    }
}

/// One compression round with round constant `k` and schedule word `w`.
pub open spec fn round(s: Words8, k: u32, w: u32) -> Words8 {
    let t1 = s.7.wrapping_add(big_sigma1(s.4)).wrapping_add(choose_bits(s.4, s.5, s.6)).wrapping_add(k).wrapping_add(w);
    let t2 = big_sigma0(s.0).wrapping_add(majority(s.0, s.1, s.2));
    (t1.wrapping_add(t2), s.0, s.1, s.2, s.3.wrapping_add(t1), s.4, s.5, s.6)
}

/// The working words after the first `i` rounds on the block at `base`.
pub open spec fn rounds(h: Words8, m: Seq<u8>, base: int, i: nat) -> Words8
    decreases i,
{
    if i == 0 {
        h
    } else {
        round(rounds(h, m, base, (i - 1) as nat), SHA256_K@[i - 1], schedule(m, base, (i - 1) as nat))
    }
}

/// Word-wise sum of two states.
pub open spec fn add_words(h: Words8, s: Words8) -> Words8 {
    (
        h.0.wrapping_add(s.0),
        h.1.wrapping_add(s.1),
        h.2.wrapping_add(s.2),
        h.3.wrapping_add(s.3),
        h.4.wrapping_add(s.4),
        h.5.wrapping_add(s.5),
        h.6.wrapping_add(s.6),
        h.7.wrapping_add(s.7),
    )
}

/// The initial state.
pub open spec fn initial_state() -> Words8 {
    (SHA256_H0@[0], SHA256_H0@[1], SHA256_H0@[2], SHA256_H0@[3], SHA256_H0@[4], SHA256_H0@[5], SHA256_H0@[6], SHA256_H0@[7])
}

/// The state after the first `nb` blocks of the padded message.
pub open spec fn hash_blocks(m: Seq<u8>, nb: nat) -> Words8
    decreases nb,
{
    if nb == 0 {
        initial_state()
    } else {
        let h = hash_blocks(m, (nb - 1) as nat);
        add_words(h, rounds(h, m, 64 * (nb - 1), 64))
    }
}

/// Word `i` of a state.
pub open spec fn word_of(h: Words8, i: int) -> u32 {
    if i == 0 {
        h.0
    } else if i == 1 {
        h.1
    } else if i == 2 {
        h.2
    } else if i == 3 {
        h.3
    } else if i == 4 {
        h.4
    } else if i == 5 {
        h.5
    } else if i == 6 {
        h.6
    } else {
        h.7
    }
}

/// The 32 big-endian bytes of a state.
pub open spec fn state_bytes(h: Words8) -> Seq<u8> {
    Seq::new(32, |i: int| (word_of(h, i / 4) >> ((24 - 8 * (i % 4)) as u32)) as u8)
}

/// The SHA-256 digest of `data`.
pub open spec fn sha256(data: Seq<u8>) -> Seq<u8> {
    let m = padded(data);
    state_bytes(hash_blocks(m, m.len() / 64))
}

fn rotr_exec(x: u32, n: u32) -> (r: u32)
    requires
        0 < n < 32,
    ensures
        r == rotr(x, n),
{
    (x >> n) | (x << (32 - n))
}

/// Length of the padded message: a multiple of 64.
proof fn lemma_padded_len(len: nat)
    ensures
        (len + 1 + zero_padding(len) + 8) % 64 == 0,
{
}

/// Pad the data as SHA-256 does.
fn pad(data: &[u8]) -> (r: Vec<u8>)
    requires
        data@.len() * 8 <= u64::MAX,
    ensures
        r@ == padded(data@),
        r@.len() % 64 == 0,
{
    let mut msg: Vec<u8> = Vec::new();
    let mut i: usize = 0;
    while i < data.len()
        invariant
            i <= data@.len(),
            msg@ == data@.subrange(0, i as int),
        decreases data@.len() - i,
    {
        msg.push(data[i]);
        i = i + 1;
        assert(msg@ =~= data@.subrange(0, i as int));
    }
    assert(data@.subrange(0, data@.len() as int) =~= data@);
    msg.push(0x80);
    let rem = (data.len() % 64 + 1) % 64;
    let zeros: usize = if rem <= 56 {
        56 - rem
    } else {
        120 - rem
    };
    assert(rem == (data@.len() + 1) % 64) by {
        vstd::arithmetic::div_mod::lemma_add_mod_noop(data@.len() as int, 1, 64);
    }
    assert(zeros == zero_padding(data@.len()));
    let mut z: usize = 0;
    while z < zeros
        invariant
            z <= zeros,
            zeros == zero_padding(data@.len()),
            msg@ == data@.push(0x80u8) + Seq::new(z as nat, |i: int| 0u8),
        decreases zeros - z,
    {
        msg.push(0);
        z = z + 1;
        assert(msg@ =~= data@.push(0x80u8) + Seq::new(z as nat, |i: int| 0u8));
    }
    let bit_len: u64 = (data.len() as u64) * 8;
    let ghost prefix = msg@;
    let mut k: usize = 0;
    while k < 8
        invariant
            k <= 8,
            bit_len == data@.len() * 8,
            msg@ == prefix + be64(bit_len).subrange(0, k as int),
        decreases 8 - k,
    {
        let shift: u64 = 56 - 8 * (k as u64);
        msg.push((bit_len >> shift) as u8);
        k = k + 1;
        assert(msg@ =~= prefix + be64(bit_len).subrange(0, k as int));
    }
    assert(be64(bit_len).subrange(0, 8) =~= be64(bit_len));
    proof {
        lemma_padded_len(data@.len());
    }
    msg
}

/// The big-endian word at `off` of `m`.
fn word_at_exec(m: &Vec<u8>, off: usize) -> (r: u32)
    requires
        off + 4 <= m@.len() <= usize::MAX,
    ensures
        r == word_at(m@, off as int),
{
    (m[off] as u32) * 16777216u32 + (m[off + 1] as u32) * 65536u32 + (m[off + 2] as u32) * 256u32 + (m[off
        + 3] as u32)
}

/// The message schedule of the block at `base`.
fn message_schedule(m: &Vec<u8>, base: usize) -> (w: Vec<u32>)
    requires
        base + 64 <= m@.len() <= usize::MAX,
    ensures
        w@.len() == 64,
        forall|i: int| 0 <= i < 64 ==> w@[i] == schedule(m@, base as int, i as nat),
{
    let mut w: Vec<u32> = Vec::new();
    let mut i: usize = 0;
    while i < 64
        invariant
            i <= 64,
            base + 64 <= m@.len() <= usize::MAX,
            w@.len() == i,
            forall|j: int| 0 <= j < i ==> w@[j] == schedule(m@, base as int, j as nat),
        decreases 64 - i,
    {
        let x = if i < 16 {
            word_at_exec(m, base + 4 * i)
        } else {
            let w15 = w[i - 15];
            let w2 = w[i - 2];
            let s0 = rotr_exec(w15, 7) ^ rotr_exec(w15, 18) ^ (w15 >> 3u32);
            let s1 = rotr_exec(w2, 17) ^ rotr_exec(w2, 19) ^ (w2 >> 10u32);
            w[i - 16].wrapping_add(s0).wrapping_add(w[i - 7]).wrapping_add(s1)
        };
        assert(x == schedule(m@, base as int, i as nat));
        w.push(x);
        i = i + 1;
    }
    w
}

/// The 64 rounds of compression on the block at `base`, added to `h`.
fn compress(h: Words8, m: &Vec<u8>, base: usize) -> (r: Words8)
    requires
        base + 64 <= m@.len() <= usize::MAX,
    ensures
        r == add_words(h, rounds(h, m@, base as int, 64)),
{
    let w = message_schedule(m, base);
    let (mut a, mut b, mut c, mut d, mut e, mut f, mut g, mut hh) = h;
    let mut i: usize = 0;
    while i < 64
        invariant
            i <= 64,
            w@.len() == 64,
            forall|j: int| 0 <= j < 64 ==> w@[j] == schedule(m@, base as int, j as nat),
            (a, b, c, d, e, f, g, hh) == rounds(h, m@, base as int, i as nat),
        decreases 64 - i,
    {
        let s1 = rotr_exec(e, 6) ^ rotr_exec(e, 11) ^ rotr_exec(e, 25);
        let ch = (e & f) ^ (!e & g);
        let temp1 = hh.wrapping_add(s1).wrapping_add(ch).wrapping_add(SHA256_K[i]).wrapping_add(w[i]);
        let s0 = rotr_exec(a, 2) ^ rotr_exec(a, 13) ^ rotr_exec(a, 22);
        let maj = (a & b) ^ (a & c) ^ (b & c);
        let temp2 = s0.wrapping_add(maj);
        hh = g;
        g = f;
        f = e;
        e = d.wrapping_add(temp1);
        d = c;
        c = b;
        b = a;
        a = temp1.wrapping_add(temp2);
        i = i + 1;
    }
    (
        h.0.wrapping_add(a),
        h.1.wrapping_add(b),
        h.2.wrapping_add(c),
        h.3.wrapping_add(d),
        h.4.wrapping_add(e),
        h.5.wrapping_add(f),
        h.6.wrapping_add(g),
        h.7.wrapping_add(hh),
    )
}

/// The SHA-256 digest of `data`.
pub fn sha2_256(data: &[u8]) -> (r: [u8; 32])
    requires
        data@.len() * 8 <= u64::MAX,
    ensures
        r@ == sha256(data@),
{
    let msg = pad(data);
    let mlen = msg.len();
    let nb = mlen / 64;
    let mut h: Words8 = (
        SHA256_H0[0],
        SHA256_H0[1],
        SHA256_H0[2],
        SHA256_H0[3],
        SHA256_H0[4],
        SHA256_H0[5],
        SHA256_H0[6],
        SHA256_H0[7],
    );
    let mut blk: usize = 0;
    while blk < nb
        invariant
            blk <= nb,
            mlen == msg@.len(),
            nb == mlen / 64,
            msg@ == padded(data@),
            h == hash_blocks(msg@, blk as nat),
        decreases nb - blk,
    {
        h = compress(h, &msg, 64 * blk);
        blk = blk + 1;
    }
    let mut out = [0u8; 32];
    let mut i: usize = 0;
    while i < 32
        invariant
            i <= 32,
            out@.len() == 32,
            forall|j: int| 0 <= j < i ==> out@[j] == state_bytes(h)[j],
        decreases 32 - i,
    {
        let word = if i / 4 == 0 {
            h.0
        } else if i / 4 == 1 {
            h.1
        } else if i / 4 == 2 {
            h.2
        } else if i / 4 == 3 {
            h.3
        } else if i / 4 == 4 {
            h.4
        } else if i / 4 == 5 {
            h.5
        } else if i / 4 == 6 {
            h.6
        } else {
            h.7
        };
        let shift: u32 = 24 - 8 * ((i % 4) as u32);
        out.set(i, (word >> shift) as u8);
        i = i + 1;
    }
    assert(out@ =~= state_bytes(h));
    out
}

/// The digest of `data` as a byte vector.
pub fn sha256_hash(data: &[u8]) -> (r: Vec<u8>)
    requires
        data@.len() * 8 <= u64::MAX,
    ensures
        r@ == sha256(data@),
{
    let d = sha2_256(data);
    let mut v: Vec<u8> = Vec::new();
    let mut i: usize = 0;
    while i < 32
        invariant
            i <= 32,
            v@ == d@.subrange(0, i as int),
        decreases 32 - i,
    {
        v.push(d[i]);
        i = i + 1;
        assert(v@ =~= d@.subrange(0, i as int));
    }
    assert(d@.subrange(0, 32) =~= d@);
    v
}

} // verus!

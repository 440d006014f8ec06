//! The JieLi CRC-16 (CCITT polynomial 0x1021, no reflection, no final xor)
//! and the CRC-driven key stream cipher used for chip keys.

use vstd::prelude::*;

verus! {

/// One bit step of the CRC register.
pub open spec fn crc_shift(c: u16) -> u16 {
    if c & 0x8000u16 != 0 {
        ((c << 1u16) ^ 0x1021u16) as u16
    } else {
        (c << 1u16) as u16
    }
}

/// `n` bit steps of the CRC register.
pub open spec fn crc_shift_n(c: u16, n: nat) -> u16
    decreases n,
{
    if n == 0 {
        c
    } else {
        crc_shift(crc_shift_n(c, (n - 1) as nat))
    }
}

/// The register after feeding one byte, most significant bit first.
pub open spec fn crc_byte(c: u16, b: u8) -> u16 {
    crc_shift_n(c ^ ((b as u16) << 8u16), 8)
}

/// The CRC of `data` started from the register value `seed`.
pub open spec fn spec_crc16_seed(data: Seq<u8>, seed: u16) -> u16
    decreases data.len(),
{
    if data.len() == 0 {
        seed
    } else {
        crc_byte(spec_crc16_seed(data.drop_last(), seed), data.last())
    }
}

/// The CRC of `data` from a zero register: the checksum sent with data transfers.
pub open spec fn spec_crc16(data: Seq<u8>) -> u16 {
    spec_crc16_seed(data, 0)
}

/// The sixteen constant bytes that drive the key stream.
pub open spec fn cipher_magic() -> Seq<u8> {
    seq![
        0xC3u8, 0xCF, 0xC0, 0xE8, 0xCE, 0xD2, 0xB0, 0xAE, 0xC4, 0xE3, 0xA3, 0xAC, 0xD3, 0xF1, 0xC1,
        0xD6,
    ]
}

/// The register the key stream starts from: the CRC of the high half of `key`
/// (little endian) seeded with its low half.
pub open spec fn cipher_init(key: u32) -> u16 {
    spec_crc16_seed(
        seq![((key / 0x10000) % 0x100) as u8, (key / 0x1000000) as u8],
        (key % 0x10000) as u16,
    )
}

/// The register after the key stream has advanced over `i` magic bytes.
pub open spec fn cipher_state(key: u32, i: nat) -> u16
    decreases i,
{
    if i == 0 {
        cipher_init(key)
    } else {
        crc_byte(cipher_state(key, (i - 1) as nat), cipher_magic()[((i - 1) % 16) as int])
    }
}

/// The key stream byte that is combined with byte `i` of the data.
pub open spec fn keystream_byte(key: u32, i: nat) -> u8 {
    (cipher_state(key, i + 1) % 256) as u8
}

/// The cipher of `data` under `key`: each byte xored with its key stream byte.
pub open spec fn spec_cipher(data: Seq<u8>, key: u32) -> Seq<u8> {
    Seq::new(data.len(), |i: int| data[i] ^ keystream_byte(key, i as nat))
}

fn crc_feed_byte(crc: u16, b: u8) -> (r: u16)
    ensures
        r == crc_byte(crc, b),
{
    let start: u16 = crc ^ ((b as u16) << 8u16);
    let mut c: u16 = start;
    let mut j: usize = 0;
    while j < 8
        invariant
            j <= 8,
            c == crc_shift_n(start, j as nat),
        decreases 8 - j,
    {
        if c & 0x8000u16 != 0 {
            c = (c << 1u16) ^ 0x1021u16;
        } else {
            c = c << 1u16;
        }
        j = j + 1;
    }
    c
}

/// CRC-16 of `data` continued from the register value `crc`.
pub fn jl_crc16_seed(data: &[u8], crc: u16) -> (r: u16)
    ensures
        r == spec_crc16_seed(data@, crc),
{
    let mut c: u16 = crc;
    let mut i: usize = 0;
    while i < data.len()
        invariant
            i <= data.len(),
            c == spec_crc16_seed(data@.subrange(0, i as int), crc),
        decreases data.len() - i,
    {
        assert(data@.subrange(0, i + 1).drop_last() =~= data@.subrange(0, i as int));
        c = crc_feed_byte(c, data[i]);
        i = i + 1;
    }
    assert(data@.subrange(0, data.len() as int) =~= data@);
    c
}

/// CRC-16 of `data` from a zero register.
pub fn jl_crc16(data: &[u8]) -> (r: u16)
    ensures
        r == spec_crc16(data@),
{
    jl_crc16_seed(data, 0)
}

/// The bit-by-bit CRC-16 kept as an independent reference for `jl_crc16`.
pub fn legacy_jl_crc16_reference(data: &[u8]) -> (r: u16)
    ensures
        r == spec_crc16(data@),
{
    let mut crc: u16 = 0;
    let mut i: usize = 0;
    while i < data.len()
        invariant
            i <= data.len(),
            crc == spec_crc16_seed(data@.subrange(0, i as int), 0),
        decreases data.len() - i,
    {
        assert(data@.subrange(0, i + 1).drop_last() =~= data@.subrange(0, i as int));
        let byte = data[i];
        let start: u16 = crc ^ ((byte as u16) << 8u16);
        crc = start;
        let mut j: usize = 0;
        while j < 8
            invariant
                j <= 8,
                crc == crc_shift_n(start, j as nat),
            decreases 8 - j,
        {
            if (crc & 0x8000u16) != 0 {
                crc = (crc << 1u16) ^ 0x1021u16;
            } else {
                crc = crc << 1u16;
            }
            j = j + 1;
        }
        i = i + 1;
    }
    assert(data@.subrange(0, data.len() as int) =~= data@);
    crc
}

/// Applies the CRC key stream cipher for `key` to `data`; applying it twice
/// with the same key gives the data back.
pub fn jl_crc_cipher_bytes(data: &[u8], key: u32) -> (r: Vec<u8>)
    ensures
        r@ == spec_cipher(data@, key),
{
    let magic: [u8; 16] = [
        0xC3, 0xCF, 0xC0, 0xE8, 0xCE, 0xD2, 0xB0, 0xAE, 0xC4, 0xE3, 0xA3, 0xAC, 0xD3, 0xF1, 0xC1,
        0xD6,
    ];
    assert(magic@ =~= cipher_magic());
    let high: u32 = key / 0x10000;
    let key_bytes: [u8; 2] = [(high % 0x100) as u8, (high / 0x100) as u8];
    assert(key_bytes@ =~= seq![((key / 0x10000) % 0x100) as u8, (key / 0x1000000) as u8]);
    let mut crc = jl_crc16_seed(&key_bytes, (key % 0x10000) as u16);
    let mut out: Vec<u8> = Vec::new();
    let mut i: usize = 0;
    while i < data.len()
        invariant
            i <= data.len(),
            magic@ == cipher_magic(),
            crc == cipher_state(key, i as nat),
            out@.len() == i,
            forall|k: int| 0 <= k < i ==> out@[k] == data@[k] ^ keystream_byte(key, k as nat),
        decreases data.len() - i,
    {
        crc = crc_feed_byte(crc, magic[i % 16]);
        out.push(data[i] ^ (crc % 256) as u8);
        i = i + 1;
    }
    assert(out@ =~= spec_cipher(data@, key));
    out
}

/// Applying the key stream cipher twice with the same key restores the data.
pub proof fn lemma_cipher_involution(data: Seq<u8>, key: u32)
    ensures
        spec_cipher(spec_cipher(data, key), key) == data,
{
    let once = spec_cipher(data, key);
    let twice = spec_cipher(once, key);
    assert forall|i: int| 0 <= i < data.len() implies twice[i] == data[i] by {
        let a = data[i];
        let k = keystream_byte(key, i as nat);
        assert((a ^ k) ^ k == a) by (bit_vector);
    }
    assert(twice =~= data);
}

/// The CRC is computed in stream order: the CRC of `a` followed by `b` is the CRC
/// of `b` seeded with the CRC of `a`. This is what lets the key stream feed one
/// byte at a time.
pub proof fn lemma_crc16_chain(a: Seq<u8>, b: Seq<u8>, seed: u16)
    ensures
        spec_crc16_seed(a + b, seed) == spec_crc16_seed(b, spec_crc16_seed(a, seed)),
    decreases b.len(),
{
    if b.len() == 0 {
        assert(a + b =~= a);
    } else {
        lemma_crc16_chain(a, b.drop_last(), seed);
        assert((a + b).drop_last() =~= a + b.drop_last());
        assert((a + b).last() == b.last());
    }
}

/// The magic bytes the key stream feeds into the register, `n` of them, cycling
/// through the sixteen constants.
pub open spec fn magic_stream(n: nat) -> Seq<u8> {
    Seq::new(n, |j: int| cipher_magic()[j % 16])
}

/// The two key bytes the register starts from: the high half of the key, low byte first.
pub open spec fn key_high_bytes(key: u32) -> Seq<u8> {
    seq![((key / 0x10000) % 0x100) as u8, (key / 0x1000000) as u8]
}

/// The cipher register after `n` magic bytes is the plain CRC-16 of the key's high
/// half followed by those magic bytes, seeded with the key's low half.
proof fn lemma_cipher_state_is_crc(key: u32, n: nat)
    ensures
        cipher_state(key, n) == spec_crc16_seed(
            key_high_bytes(key) + magic_stream(n),
            (key % 0x10000) as u16,
        ),
    decreases n,
{
    if n == 0 {
        assert(key_high_bytes(key) + magic_stream(0) =~= key_high_bytes(key));
    } else {
        lemma_cipher_state_is_crc(key, (n - 1) as nat);
        let s = key_high_bytes(key) + magic_stream(n);
        assert(s.drop_last() =~= key_high_bytes(key) + magic_stream((n - 1) as nat));
        assert(s.last() == cipher_magic()[((n - 1) % 16) as int]);
    }
}

/// Byte `i` of the cipher is byte `i` of the data xored with the low eight bits of
/// the CRC register after it has taken in the key's high half and the first
/// `i + 1` magic bytes, starting from the key's low half.
pub proof fn lemma_cipher_keystream_is_low_register_byte(data: Seq<u8>, key: u32, i: int)
    requires
        0 <= i < data.len(),
    ensures
        spec_cipher(data, key).len() == data.len(),
        spec_cipher(data, key)[i] == data[i] ^ ((spec_crc16_seed(
            key_high_bytes(key) + magic_stream((i + 1) as nat),
            (key % 0x10000) as u16,
        ) & 0xff) as u8),
{
    lemma_cipher_state_is_crc(key, (i + 1) as nat);
    let reg = cipher_state(key, (i + 1) as nat);
    assert((reg % 256) as u8 == (reg & 0xff) as u8) by (bit_vector);
}

/// The chip key cipher under the all-ones key turns two zero bytes into `2f a4`.
pub proof fn lemma_cipher_known_answer()
    ensures
        keystream_byte(0xffff_ffffu32, 0) == 0x2Fu8,
        keystream_byte(0xffff_ffffu32, 1) == 0xA4u8,
        spec_cipher(seq![0u8, 0u8], 0xffff_ffffu32) == seq![0x2Fu8, 0xA4u8],
{
    reveal_with_fuel(crc_shift_n, 9);
    assert(crc_byte(0xffffu16, 0xffu8) == 0xff00u16) by (bit_vector);
    assert(crc_byte(0xff00u16, 0xffu8) == 0u16) by (bit_vector);
    assert(crc_byte(0u16, 0xC3u8) == 0xe92fu16) by (bit_vector);
    assert(crc_byte(0xe92fu16, 0xCFu8) == 0x6ba4u16) by (bit_vector);
    let key: u32 = 0xffff_ffff;
    let kb = seq![((key / 0x10000) % 0x100) as u8, (key / 0x1000000) as u8];
    assert(kb =~= seq![0xffu8, 0xffu8]);
    assert((key % 0x10000) as u16 == 0xffffu16);
    assert(kb.drop_last() =~= seq![0xffu8]);
    assert(kb.drop_last().drop_last() =~= Seq::<u8>::empty());
    assert(spec_crc16_seed(kb.drop_last().drop_last(), 0xffffu16) == 0xffffu16);
    assert(spec_crc16_seed(kb.drop_last(), 0xffffu16) == 0xff00u16);
    assert(spec_crc16_seed(kb, 0xffffu16) == 0u16);
    assert(cipher_init(0xffff_ffffu32) == 0u16);
    assert(cipher_magic()[0] == 0xC3u8);
    assert(cipher_magic()[1] == 0xCFu8);
    assert(cipher_state(0xffff_ffffu32, 0) == 0u16);
    assert(cipher_state(0xffff_ffffu32, 1) == 0xe92fu16);
    assert(cipher_state(0xffff_ffffu32, 2) == 0x6ba4u16);
    assert(keystream_byte(0xffff_ffffu32, 0) == 0x2Fu8);
    assert(keystream_byte(0xffff_ffffu32, 1) == 0xA4u8);
    assert((0u8 ^ 0x2Fu8) == 0x2Fu8 && (0u8 ^ 0xA4u8) == 0xA4u8) by (bit_vector);
    assert(spec_cipher(seq![0u8, 0u8], 0xffff_ffffu32) =~= seq![0x2Fu8, 0xA4u8]);
}

} // verus!

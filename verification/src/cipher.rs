//! The repeating-key XOR cipher that wraps every message on the wire.
//!
//! Sealing appends zero padding and a four-byte little-endian length trailer
//! so that the block is a whole number of key lengths, XORs the block with the
//! key repeated, and emits the result back to front.  Opening undoes this.
use vstd::arithmetic::div_mod::lemma_fundamental_div_mod;
use vstd::prelude::*;

verus! {

/// Length of a sealed block: the smallest multiple of `key_len` that leaves
/// room for the data and its four-byte trailer.
pub open spec fn sealed_len(data_len: nat, key_len: nat) -> nat {
    (data_len + key_len + 3) / key_len * key_len
}

/// The low 32 bits of `len`, least significant byte first.
pub open spec fn length_trailer(len: nat) -> Seq<u8> {
    let x = len as u64;
    seq![
        (x & 0xff) as u8,
        ((x >> 8u64) & 0xff) as u8,
        ((x >> 16u64) & 0xff) as u8,
        ((x >> 24u64) & 0xff) as u8,
    ]
}

/// The block that is masked: the data, zero padding, then the length trailer.
pub open spec fn plain_block(data: Seq<u8>, key_len: nat) -> Seq<u8> {
    let total = sealed_len(data.len(), key_len);
    data + Seq::new((total - data.len() - 4) as nat, |i: int| 0u8) + length_trailer(data.len())
}

/// What `encrypt` produces: byte `j` of the plain block is XORed with key byte
/// `j % key_len`, and the masked block is emitted in reverse order.
pub open spec fn sealed_bytes(data: Seq<u8>, key: Seq<u8>) -> Seq<u8> {
    let p = plain_block(data, key.len());
    Seq::new(p.len(), |i: int| p[p.len() - 1 - i] ^ key[(p.len() - 1 - i) % (key.len() as int)])
}

/// Byte `j` of the unmasked block of `sealed`: the `j`-th byte from the end,
/// XORed with key byte `j % key_len`.
pub open spec fn unmasked(sealed: Seq<u8>, key: Seq<u8>, j: int) -> u8 {
    sealed[sealed.len() - 1 - j] ^ key[j % (key.len() as int)]
}

/// The number of bytes of `sealed` that make whole key lengths.
pub open spec fn usable_len(sealed_len: nat, key_len: nat) -> nat {
    sealed_len / key_len * key_len
}

/// The length that the trailer of the unmasked block declares.
pub open spec fn declared_len(sealed: Seq<u8>, key: Seq<u8>) -> nat {
    let m = usable_len(sealed.len(), key.len()) as int;
    let b0 = unmasked(sealed, key, m - 4);
    let b1 = unmasked(sealed, key, m - 3);
    let b2 = unmasked(sealed, key, m - 2);
    let b3 = unmasked(sealed, key, m - 1);
    (((b3 as u32) << 24u32) + ((b2 as u32) << 16u32) + ((b1 as u32) << 8u32) + (b0 as u32)) as nat
}

/// The inputs on which `decrypt` is defined: a non-empty key, at least one
/// trailer's worth of whole key lengths, and a declared length that fits.
pub open spec fn can_open(sealed: Seq<u8>, key: Seq<u8>) -> bool {
    &&& key.len() > 0
    &&& usable_len(sealed.len(), key.len()) >= 4
    &&& declared_len(sealed, key) <= usable_len(sealed.len(), key.len())
}

/// What `decrypt` produces: the first `declared_len` bytes of the unmasked block.
pub open spec fn opened_bytes(sealed: Seq<u8>, key: Seq<u8>) -> Seq<u8> {
    Seq::new(declared_len(sealed, key), |j: int| unmasked(sealed, key, j))
}

proof fn lemma_sealed_len_bounds(data_len: nat, key_len: nat)
    requires
        key_len > 0,
    ensures
        sealed_len(data_len, key_len) >= data_len + 4,
        sealed_len(data_len, key_len) <= data_len + key_len + 3,
        sealed_len(data_len, key_len) % key_len == 0,
        usable_len(sealed_len(data_len, key_len), key_len) == sealed_len(data_len, key_len),
{
    let x = (data_len + key_len + 3) as int;
    let k = key_len as int;
    let q = x / k;
    lemma_fundamental_div_mod(x, k);
    assert(0 <= x % k < k);
    assert(q * k == k * q) by (nonlinear_arith);
    assert(q * k % k == 0 && (q * k) / k == q) by (nonlinear_arith)
        requires
            k > 0,
    ;
}

proof fn lemma_usable_le(n: nat, key_len: nat)
    requires
        key_len > 0,
    ensures
        usable_len(n, key_len) <= n,
{
    let q = (n as int) / (key_len as int);
    lemma_fundamental_div_mod(n as int, key_len as int);
    assert(q * (key_len as int) == (key_len as int) * q) by (nonlinear_arith);
}

proof fn lemma_trailer_roundtrip(len: nat)
    requires
        len < 0x1_0000_0000,
    ensures
        ({
            let t = length_trailer(len);
            (((t[3] as u32) << 24u32) + ((t[2] as u32) << 16u32) + ((t[1] as u32) << 8u32) + (
            t[0] as u32)) == len
        }),
{
    let x = len as u64;
    assert(x == len);
    assert(x < 0x1_0000_0000 ==> (((((x >> 24u64) & 0xff) as u8) as u32) << 24u32) + (((((x
        >> 16u64) & 0xff) as u8) as u32) << 16u32) + (((((x >> 8u64) & 0xff) as u8) as u32)
        << 8u32) + (((x & 0xff) as u8) as u32) == x) by (bit_vector);
}

proof fn lemma_xor_twice(a: u8, b: u8)
    ensures
        (a ^ b) ^ b == a,
{
    assert((a ^ b) ^ b == a) by (bit_vector);
}

/// Opening a sealed message with the key that sealed it gives the message
/// back, for every non-empty key and every message shorter than 2^32 bytes.
pub proof fn lemma_open_sealed(data: Seq<u8>, key: Seq<u8>)
    requires
        key.len() > 0,
        data.len() < 0x1_0000_0000,
    ensures
        can_open(sealed_bytes(data, key), key),
        opened_bytes(sealed_bytes(data, key), key) == data,
{
    let kl = key.len();
    let n = sealed_len(data.len(), kl);
    lemma_sealed_len_bounds(data.len(), kl);
    let p = plain_block(data, kl);
    let s = sealed_bytes(data, key);
    assert(p.len() == n);
    assert(s.len() == n);
    assert(usable_len(s.len(), kl) == n);
    assert forall|j: int| 0 <= j < n implies #[trigger] unmasked(s, key, j) == p[j] by {
        let i = n - 1 - j;
        assert(s[i] == p[j] ^ key[j % (kl as int)]);
        lemma_xor_twice(p[j], key[j % (kl as int)]);
    }
    let t = length_trailer(data.len());
    assert(p[n - 4] == t[0]);
    assert(p[n - 3] == t[1]);
    assert(p[n - 2] == t[2]);
    assert(p[n - 1] == t[3]);
    assert(unmasked(s, key, n - 4) == t[0]);
    assert(unmasked(s, key, n - 3) == t[1]);
    assert(unmasked(s, key, n - 2) == t[2]);
    assert(unmasked(s, key, n - 1) == t[3]);
    lemma_trailer_roundtrip(data.len());
    assert(declared_len(s, key) == data.len());
    assert forall|j: int| 0 <= j < data.len() implies #[trigger] opened_bytes(s, key)[j]
        == data[j] by {
        assert(unmasked(s, key, j) == p[j]);
    }
    assert(opened_bytes(s, key) =~= data);
}

/// The layout of a sealed block, byte by byte on the wire: a whole number of
/// key lengths with room for the data and four more bytes; read from the end,
/// first the data, then zero padding, then the data's length as four
/// little-endian bytes (least significant first), each byte XORed with the
/// key byte of its position in the block.
pub proof fn lemma_sealed_layout(data: Seq<u8>, key: Seq<u8>)
    requires
        key.len() > 0,
        data.len() < 0x1_0000_0000,
    ensures
        ({
            let s = sealed_bytes(data, key);
            let n = s.len() as int;
            let k = key.len() as int;
            let len = data.len() as u64;
            &&& n % k == 0
            &&& data.len() + 4 <= n <= data.len() + k + 3
            &&& forall|j: int| 0 <= j < data.len() ==> #[trigger] s[n - 1 - j] == data[j] ^ key[j % k]
            &&& forall|j: int| data.len() <= j < n - 4 ==> #[trigger] s[n - 1 - j] == key[j % k]
            &&& s[3] == (len & 0xffu64) as u8 ^ key[(n - 4) % k]
            &&& s[2] == ((len >> 8u64) & 0xffu64) as u8 ^ key[(n - 3) % k]
            &&& s[1] == ((len >> 16u64) & 0xffu64) as u8 ^ key[(n - 2) % k]
            &&& s[0] == ((len >> 24u64) & 0xffu64) as u8 ^ key[(n - 1) % k]
        }),
{
    let kl = key.len();
    let n = sealed_len(data.len(), kl);
    lemma_sealed_len_bounds(data.len(), kl);
    let p = plain_block(data, kl);
    let s = sealed_bytes(data, key);
    assert(p.len() == n);
    assert(s.len() == n);
    assert forall|j: int| data.len() <= j < n - 4 implies #[trigger] s[n - 1 - j] == key[j % (
    kl as int)] by {
        assert(p[j] == 0u8);
        let b = key[j % (kl as int)];
        assert(0u8 ^ b == b) by (bit_vector);
    }
    assert(s[3] == p[n - 4] ^ key[(n - 4) % (kl as int)]);
    assert(s[2] == p[n - 3] ^ key[(n - 3) % (kl as int)]);
    assert(s[1] == p[n - 2] ^ key[(n - 2) % (kl as int)]);
    assert(s[0] == p[n - 1] ^ key[(n - 1) % (kl as int)]);
}

/// Seals `original_data` under `key`.
pub fn encrypt(original_data: &Vec<u8>, key: &Vec<u8>) -> (result: Vec<u8>)
    requires
        key.len() > 0,
        original_data.len() + key.len() + 3 <= usize::MAX,
    ensures
        result@ == sealed_bytes(original_data@, key@),
        result.len() % key.len() == 0,
        original_data.len() + 4 <= result.len() <= original_data.len() + key.len() + 3,
{
    let data_len = original_data.len();
    let key_len = key.len();
    proof {
        lemma_sealed_len_bounds(data_len as nat, key_len as nat);
        let x = (data_len + key_len + 3) as int;
        lemma_fundamental_div_mod(x, key_len as int);
        assert(x / (key_len as int) * (key_len as int) == (key_len as int) * (x / (key_len as int))) by (nonlinear_arith);
    }
    let total = (data_len + key_len + 3) / key_len * key_len;
    let ghost plain = plain_block(original_data@, key_len as nat);
    assert(total == sealed_len(data_len as nat, key_len as nat));

    let mut data: Vec<u8> = Vec::new();
    let mut i: usize = 0;
    while i < data_len
        invariant
            i <= data_len,
            data_len == original_data.len(),
            data@ =~= original_data@.subrange(0, i as int),
        decreases data_len - i,
    {
        data.push(original_data[i]);
        i += 1;
    }
    let padding = total - data_len - 4;
    let mut z: usize = 0;
    while z < padding
        invariant
            z <= padding,
            data@ =~= original_data@ + Seq::new(z as nat, |k: int| 0u8),
        decreases padding - z,
    {
        data.push(0);
        z += 1;
    }
    let len64 = data_len as u64;
    data.push((len64 & 0xff) as u8);
    data.push(((len64 >> 8) & 0xff) as u8);
    data.push(((len64 >> 16) & 0xff) as u8);
    data.push(((len64 >> 24) & 0xff) as u8);
    assert(data@ =~= plain);

    let mut result: Vec<u8> = Vec::new();
    let mut r: usize = 0;
    while r < total
        invariant
            r <= total,
            total == plain.len(),
            data@ == plain,
            key_len == key.len(),
            key_len > 0,
            result@.len() == r,
            forall|t: int|
                0 <= t < r ==> #[trigger] result@[t] == plain[total - 1 - t] ^ key@[(total - 1
                    - t) % (key_len as int)],
        decreases total - r,
    {
        let j = total - 1 - r;
        result.push(data[j] ^ key[j % key_len]);
        r += 1;
    }
    assert(result@ =~= sealed_bytes(original_data@, key@));
    result
}

/// Tells whether `decrypt` is defined on `encrypted_data` and `key`.
pub fn can_decrypt(encrypted_data: &Vec<u8>, key: &Vec<u8>) -> (ok: bool)
    ensures
        ok == can_open(encrypted_data@, key@),
{
    let n = encrypted_data.len();
    let key_len = key.len();
    if key_len == 0 {
        return false;
    }
    proof {
        lemma_usable_le(n as nat, key_len as nat);
    }
    let usable = n / key_len * key_len;
    if usable < 4 {
        return false;
    }
    let declared = declared_length(encrypted_data, key, usable);
    declared as usize <= usable
}

fn declared_length(encrypted_data: &Vec<u8>, key: &Vec<u8>, usable: usize) -> (declared: u32)
    requires
        key.len() > 0,
        usable == usable_len(encrypted_data.len() as nat, key.len() as nat),
        usable >= 4,
        usable <= encrypted_data.len(),
    ensures
        declared == declared_len(encrypted_data@, key@),
{
    let n = encrypted_data.len();
    let key_len = key.len();
    let v0 = encrypted_data[n - 1 - (usable - 4)] ^ key[(usable - 4) % key_len];
    let v1 = encrypted_data[n - 1 - (usable - 3)] ^ key[(usable - 3) % key_len];
    let v2 = encrypted_data[n - 1 - (usable - 2)] ^ key[(usable - 2) % key_len];
    let v3 = encrypted_data[n - 1 - (usable - 1)] ^ key[(usable - 1) % key_len];
    assert(((v3 as u32) << 24u32) + ((v2 as u32) << 16u32) + ((v1 as u32) << 8u32) + (v0 as u32)
        <= u32::MAX) by (bit_vector);
    ((v3 as u32) << 24) + ((v2 as u32) << 16) + ((v1 as u32) << 8) + (v0 as u32)
}

/// Opens `encrypted_data` sealed under `key`.
pub fn decrypt(encrypted_data: &Vec<u8>, key: &Vec<u8>) -> (result: Vec<u8>)
    requires
        can_open(encrypted_data@, key@),
    ensures
        result@ == opened_bytes(encrypted_data@, key@),
{
    let n = encrypted_data.len();
    let key_len = key.len();
    proof {
        lemma_usable_le(n as nat, key_len as nat);
    }
    let usable = n / key_len * key_len;
    let declared = declared_length(encrypted_data, key, usable) as usize;
    let mut result: Vec<u8> = Vec::new();
    let mut j: usize = 0;
    while j < declared
        invariant
            j <= declared,
            declared <= usable,
            usable <= n,
            n == encrypted_data.len(),
            key_len == key.len(),
            key_len > 0,
            result@.len() == j,
            forall|t: int| 0 <= t < j ==> #[trigger] result@[t] == unmasked(encrypted_data@, key@, t),
        decreases declared - j,
    {
        result.push(encrypted_data[n - 1 - j] ^ key[j % key_len]);
        j += 1;
    }
    assert(result@ =~= opened_bytes(encrypted_data@, key@));
    result
}

} // verus!

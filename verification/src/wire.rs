//! The fixed-width little-endian encoding that instruction data is written in:
//! integers in little-endian order, sequences and strings after a `u64` length,
//! options after a one-byte tag, enums after a `u32` variant index.
use vstd::prelude::*;
use vstd::slice::slice_subrange;
use vstd::utf8::{decode_utf8, valid_utf8};

verus! {

/// A parse result of the executable decoder agrees with that of the spec
/// decoder: the same value and the same position, or failure in both.
pub open spec fn agrees<T>(r: Option<(T, usize)>, s: Option<(T, int)>) -> bool {
    match r {
        Some((v, q)) => s == Some((v, q as int)),
        None => s is None,
    }
}

/// Like [`agrees`], for a decoded value that is compared by its view.
pub open spec fn agrees_view<T: View>(r: Option<(T, usize)>, s: Option<(T::V, int)>) -> bool {
    match r {
        Some((v, q)) => s == Some((v@, q as int)),
        None => s is None,
    }
}

pub open spec fn u8_at(s: Seq<u8>, p: int) -> Option<(u8, int)> {
    if 0 <= p < s.len() {
        Some((s[p], p + 1))
    } else {
        None
    }
}

pub open spec fn le_u32(b0: u8, b1: u8, b2: u8, b3: u8) -> u32 {
    (b0 as u32) | ((b1 as u32) << 8u32) | ((b2 as u32) << 16u32) | ((b3 as u32) << 24u32)
}

pub open spec fn u32_at(s: Seq<u8>, p: int) -> Option<(u32, int)> {
    if 0 <= p && p + 4 <= s.len() {
        Some((le_u32(s[p], s[p + 1], s[p + 2], s[p + 3]), p + 4))
    } else {
        None
    }
}

pub open spec fn le_u64(s: Seq<u8>, p: int) -> u64 {
    (s[p] as u64) | ((s[p + 1] as u64) << 8u64) | ((s[p + 2] as u64) << 16u64) | ((s[p + 3] as u64)
        << 24u64) | ((s[p + 4] as u64) << 32u64) | ((s[p + 5] as u64) << 40u64) | ((s[p + 6] as u64)
        << 48u64) | ((s[p + 7] as u64) << 56u64)
}

pub open spec fn u64_at(s: Seq<u8>, p: int) -> Option<(u64, int)> {
    if 0 <= p && p + 8 <= s.len() {
        Some((le_u64(s, p), p + 8))
    } else {
        None
    }
}

pub open spec fn i64_at(s: Seq<u8>, p: int) -> Option<(i64, int)> {
    match u64_at(s, p) {
        Some((v, q)) => Some((v as i64, q)),
        None => None,
    }
}

/// Thirty-two raw bytes (an address or a hash).
pub open spec fn bytes32_at(s: Seq<u8>, p: int) -> Option<(Seq<u8>, int)> {
    if 0 <= p && p + 32 <= s.len() {
        Some((s.subrange(p, p + 32), p + 32))
    } else {
        None
    }
}

/// The tag of an option: `0` for none, `1` for some; any other byte is refused.
pub open spec fn option_tag_at(s: Seq<u8>, p: int) -> Option<(bool, int)> {
    match u8_at(s, p) {
        Some((0u8, q)) => Some((false, q)),
        Some((1u8, q)) => Some((true, q)),
        _ => None,
    }
}

pub open spec fn option_u64_at(s: Seq<u8>, p: int) -> Option<(Option<u64>, int)> {
    match option_tag_at(s, p) {
        Some((false, q)) => Some((None, q)),
        Some((true, q)) => match u64_at(s, q) {
            Some((v, r)) => Some((Some(v), r)),
            None => None,
        },
        None => None,
    }
}

pub open spec fn option_i64_at(s: Seq<u8>, p: int) -> Option<(Option<i64>, int)> {
    match option_tag_at(s, p) {
        Some((false, q)) => Some((None, q)),
        Some((true, q)) => match i64_at(s, q) {
            Some((v, r)) => Some((Some(v), r)),
            None => None,
        },
        None => None,
    }
}

/// A `u64` count followed by that many `u64`s.
pub open spec fn u64_list_at(s: Seq<u8>, p: int) -> Option<(Seq<u64>, int)> {
    match u64_at(s, p) {
        Some((n, q)) => if q + 8 * n <= s.len() {
            Some((Seq::new(n as nat, |i: int| le_u64(s, q + 8 * i)), q + 8 * n))
        } else {
            None
        },
        None => None,
    }
}

/// A `u64` byte count followed by that many bytes of UTF-8 text.
pub open spec fn string_at(s: Seq<u8>, p: int) -> Option<(Seq<char>, int)> {
    match u64_at(s, p) {
        Some((n, q)) => if q + n <= s.len() && valid_utf8(s.subrange(q, q + n)) {
            Some((decode_utf8(s.subrange(q, q + n)), q + n))
        } else {
            None
        },
        None => None,
    }
}

pub fn read_u8(data: &[u8], pos: usize) -> (res: Option<(u8, usize)>)
    ensures
        agrees(res, u8_at(data@, pos as int)),
{
    if pos < data.len() {
        Some((data[pos], pos + 1))
    } else {
        None
    }
}

pub fn read_u32(data: &[u8], pos: usize) -> (res: Option<(u32, usize)>)
    ensures
        agrees(res, u32_at(data@, pos as int)),
{
    if pos <= data.len() && data.len() - pos >= 4 {
        let v = (data[pos] as u32) | ((data[pos + 1] as u32) << 8u32) | ((data[pos + 2] as u32)
            << 16u32) | ((data[pos + 3] as u32) << 24u32);
        Some((v, pos + 4))
    } else {
        None
    }
}

/// The `u64` stored at `pos`, which the caller has shown to be in bounds.
fn le_u64_exec(data: &[u8], pos: usize) -> (v: u64)
    requires
        pos + 8 <= data@.len(),
    ensures
        v == le_u64(data@, pos as int),
{
    (data[pos] as u64) | ((data[pos + 1] as u64) << 8u64) | ((data[pos + 2] as u64) << 16u64) | ((
    data[pos + 3] as u64) << 24u64) | ((data[pos + 4] as u64) << 32u64) | ((data[pos + 5] as u64)
        << 40u64) | ((data[pos + 6] as u64) << 48u64) | ((data[pos + 7] as u64) << 56u64)
}

pub fn read_u64(data: &[u8], pos: usize) -> (res: Option<(u64, usize)>)
    ensures
        agrees(res, u64_at(data@, pos as int)),
{
    if pos <= data.len() && data.len() - pos >= 8 {
        Some((le_u64_exec(data, pos), pos + 8))
    } else {
        None
    }
}

pub fn read_i64(data: &[u8], pos: usize) -> (res: Option<(i64, usize)>)
    ensures
        agrees(res, i64_at(data@, pos as int)),
{
    match read_u64(data, pos) {
        Some((v, q)) => Some((v as i64, q)),
        None => None,
    }
}

/// Thirty-two bytes at `pos`, as an array.
pub fn read_bytes32(data: &[u8], pos: usize) -> (res: Option<([u8; 32], usize)>)
    ensures
        match res {
            Some((a, q)) => bytes32_at(data@, pos as int) == Some((a@, q as int)),
            None => bytes32_at(data@, pos as int) is None,
        },
{
    if pos <= data.len() && data.len() - pos >= 32 {
        let mut a = [0u8; 32];
        let mut i: usize = 0;
        while i < 32
            invariant
                i <= 32,
                pos + 32 <= data@.len(),
                data@.len() <= usize::MAX,
                a@.len() == 32,
                forall|j: int| 0 <= j < i ==> a@[j] == data@[pos + j],
            decreases 32 - i,
        {
            a[i] = data[pos + i];
            i = i + 1;
        }
        assert(a@ =~= data@.subrange(pos as int, pos + 32));
        Some((a, pos + 32))
    } else {
        None
    }
}

pub fn read_option_tag(data: &[u8], pos: usize) -> (res: Option<(bool, usize)>)
    ensures
        agrees(res, option_tag_at(data@, pos as int)),
{
    match read_u8(data, pos) {
        Some((0u8, q)) => Some((false, q)),
        Some((1u8, q)) => Some((true, q)),
        _ => None,
    }
}

pub fn read_option_u64(data: &[u8], pos: usize) -> (res: Option<(Option<u64>, usize)>)
    ensures
        agrees(res, option_u64_at(data@, pos as int)),
{
    match read_option_tag(data, pos) {
        Some((false, q)) => Some((None, q)),
        Some((true, q)) => match read_u64(data, q) {
            Some((v, r)) => Some((Some(v), r)),
            None => None,
        },
        None => None,
    }
}

pub fn read_option_i64(data: &[u8], pos: usize) -> (res: Option<(Option<i64>, usize)>)
    ensures
        agrees(res, option_i64_at(data@, pos as int)),
{
    match read_option_tag(data, pos) {
        Some((false, q)) => Some((None, q)),
        Some((true, q)) => match read_i64(data, q) {
            Some((v, r)) => Some((Some(v), r)),
            None => None,
        },
        None => None,
    }
}

pub fn read_u64_list(data: &[u8], pos: usize) -> (res: Option<(Vec<u64>, usize)>)
    ensures
        match res {
            Some((v, q)) => u64_list_at(data@, pos as int) == Some((v@, q as int)),
            None => u64_list_at(data@, pos as int) is None,
        },
{
    let (n, q) = match read_u64(data, pos) {
        Some(r) => r,
        None => return None,
    };
    let room = (data.len() - q) as u64 / 8;
    if n > room {
        assert(q + 8 * n > data@.len()) by (nonlinear_arith)
            requires
                n > room,
                room == (data@.len() - q) / 8,
                q <= data@.len(),
        ;
        return None;
    }
    assert(q + 8 * n <= data@.len()) by (nonlinear_arith)
        requires
            n <= room,
            room == (data@.len() - q) / 8,
            q <= data@.len(),
    ;
    let count = n as usize;
    let mut items: Vec<u64> = Vec::new();
    let mut i: usize = 0;
    while i < count
        invariant
            i <= count,
            count == n,
            q + 8 * n <= data@.len(),
            data@.len() <= usize::MAX,
            items@ =~= Seq::new(i as nat, |j: int| le_u64(data@, q + 8 * j)),
        decreases count - i,
    {
        assert(q + 8 * i + 8 <= data@.len() && 8 * i <= 8 * n) by (nonlinear_arith)
            requires
                i < n,
                q + 8 * n <= data@.len(),
        ;
        let v = le_u64_exec(data, q + 8 * i);
        items.push(v);
        i = i + 1;
    }
    Some((items, q + 8 * count))
}

/// `String::from_utf8`: the bytes as text when they are valid UTF-8.
#[verifier::external_body]
fn utf8_to_string(bytes: &[u8]) -> (res: Option<String>)
    ensures
        res is Some <==> valid_utf8(bytes@),
        res matches Some(text) ==> text@ == decode_utf8(bytes@),
{
    String::from_utf8(bytes.to_vec()).ok()
}

pub fn read_string(data: &[u8], pos: usize) -> (res: Option<(String, usize)>)
    ensures
        match res {
            Some((text, q)) => string_at(data@, pos as int) == Some((text@, q as int)),
            None => string_at(data@, pos as int) is None,
        },
{
    let (n, q) = match read_u64(data, pos) {
        Some(r) => r,
        None => return None,
    };
    if n > (data.len() - q) as u64 {
        return None;
    }
    let end = q + n as usize;
    let bytes = slice_subrange(data, q, end);
    match utf8_to_string(bytes) {
        Some(text) => Some((text, end)),
        None => None,
    }
}

/// The compact length prefix of a short vector: one to three bytes, seven bits
/// each, least significant group first, the high bit set on every byte but the
/// last. A zero byte after the first, a third byte with its high bit set, and
/// values above `u16::MAX` are refused.
pub open spec fn short_u16_at(s: Seq<u8>, p: int) -> Option<(u16, int)> {
    if !(0 <= p < s.len()) {
        None
    } else if s[p] < 0x80 {
        Some((s[p] as u16, p + 1))
    } else if p + 1 >= s.len() || s[p + 1] == 0 {
        None
    } else if s[p + 1] < 0x80 {
        Some((((s[p] - 0x80) + s[p + 1] * 0x80) as u16, p + 2))
    } else if p + 2 >= s.len() || s[p + 2] == 0 || s[p + 2] >= 0x80 {
        None
    } else {
        let v = (s[p] - 0x80) + (s[p + 1] - 0x80) * 0x80 + s[p + 2] * 0x4000;
        if v > u16::MAX {
            None
        } else {
            Some((v as u16, p + 3))
        }
    }
}

pub fn read_short_u16(data: &[u8], pos: usize) -> (res: Option<(u16, usize)>)
    ensures
        agrees(res, short_u16_at(data@, pos as int)),
{
    if pos >= data.len() {
        return None;
    }
    let b0 = data[pos];
    if b0 < 0x80 {
        return Some((b0 as u16, pos + 1));
    }
    if pos + 1 >= data.len() || data[pos + 1] == 0 {
        return None;
    }
    let b1 = data[pos + 1];
    if b1 < 0x80 {
        return Some(((b0 - 0x80) as u16 + (b1 as u16) * 0x80, pos + 2));
    }
    if pos + 2 >= data.len() || data[pos + 2] == 0 || data[pos + 2] >= 0x80 {
        return None;
    }
    let b2 = data[pos + 2];
    let v: u32 = (b0 - 0x80) as u32 + ((b1 - 0x80) as u32) * 0x80 + (b2 as u32) * 0x4000;
    if v > 0xffff {
        None
    } else {
        Some((v as u16, pos + 3))
    }
}

/// `128` to the power `k`.
pub open spec fn pow128(k: nat) -> nat
    decreases k,
{
    if k == 0 {
        1
    } else {
        128 * pow128((k - 1) as nat)
    }
}

/// The groups `k..` of a variable-length `u64` that starts at `p`: seven value
/// bits per byte, least significant group first, the high bit set on every byte
/// but the last. At most ten bytes; the tenth may carry only the value bit that
/// fits; a final zero byte is refused unless it is the only byte. The result is
/// the value of these groups (weighted by their place) and the end position.
pub open spec fn varint_groups(s: Seq<u8>, p: int, k: nat) -> Option<(int, int)>
    decreases 10 - k,
{
    if k >= 10 || !(0 <= p + k < s.len()) {
        None
    } else if s[p + k] < 0x80 {
        if s[p + k] == 0 && k > 0 {
            None
        } else if k == 9 && s[p + k] > 1 {
            None
        } else {
            Some((s[p + k] * pow128(k), p + k + 1))
        }
    } else {
        match varint_groups(s, p, k + 1) {
            Some((v, e)) => Some(((s[p + k] - 0x80) * pow128(k) + v, e)),
            None => None,
        }
    }
}

/// A variable-length `u64` (see [`varint_groups`]).
pub open spec fn varint_at(s: Seq<u8>, p: int) -> Option<(u64, int)> {
    match varint_groups(s, p, 0) {
        Some((v, e)) => Some((v as u64, e)),
        None => None,
    }
}

proof fn lemma_pow128_bounds(k: nat)
    requires
        k <= 9,
    ensures
        1 <= pow128(k) <= 0x8000_0000_0000_0000,
        k <= 8 ==> pow128(k) <= 0x100_0000_0000_0000,
        k == 9 ==> pow128(k) == 0x8000_0000_0000_0000,
    decreases k,
{
    reveal_with_fuel(pow128, 10);
    if k > 0 {
        lemma_pow128_bounds((k - 1) as nat);
    }
}

pub fn read_varint_u64(data: &[u8], pos: usize) -> (res: Option<(u64, usize)>)
    ensures
        agrees(res, varint_at(data@, pos as int)),
{
    if pos > data.len() {
        return None;
    }
    let ghost s = data@;
    let mut out: u64 = 0;
    let mut mult: u64 = 1;
    let mut k: usize = 0;
    while k < 10
        invariant
            k < 10,
            pos <= data@.len(),
            s == data@,
            data@.len() <= usize::MAX,
            mult == pow128(k as nat),
            out < pow128(k as nat),
            varint_groups(s, pos as int, 0) == match varint_groups(s, pos as int, k as nat) {
                Some((v, e)) => Some((out + v, e)),
                None => None::<(int, int)>,
            },
        decreases 10 - k,
    {
        proof {
            lemma_pow128_bounds(k as nat);
        }
        if k >= data.len() - pos {
            return None;
        }
        let b = data[pos + k];
        if b < 0x80 {
            if b == 0 && k > 0 {
                return None;
            }
            if k == 9 && b > 1 {
                return None;
            }
            assert(out + b * mult < 0x1_0000_0000_0000_0000) by (nonlinear_arith)
                requires
                    out < mult,
                    b < 0x80,
                    k <= 8 ==> mult <= 0x100_0000_0000_0000,
                    k == 9 ==> mult == 0x8000_0000_0000_0000 && b <= 1,
                    k <= 9,
            ;
            return Some((out + (b as u64) * mult, pos + k + 1));
        }
        if k == 9 {
            return None;
        }
        assert(out + (b - 0x80) * mult < 128 * mult && 128 * mult <= 0x8000_0000_0000_0000)
            by (nonlinear_arith)
            requires
                out < mult,
                0x80 <= b < 0x100,
                mult <= 0x100_0000_0000_0000,
        ;
        out = out + ((b - 0x80) as u64) * mult;
        mult = mult * 128;
        k = k + 1;
    }
    None
}

/// Bytes appended after position `q` leave the `u64` stored before `q` unchanged.
pub proof fn lemma_le_u64_prefix(s: Seq<u8>, extra: Seq<u8>, p: int)
    requires
        0 <= p,
        p + 8 <= s.len(),
    ensures
        le_u64(s + extra, p) == le_u64(s, p),
{
}

pub proof fn lemma_u64_at_prefix(s: Seq<u8>, extra: Seq<u8>, p: int)
    requires
        u64_at(s, p) is Some,
    ensures
        u64_at(s + extra, p) == u64_at(s, p),
{
    lemma_le_u64_prefix(s, extra, p);
}

pub proof fn lemma_u32_at_prefix(s: Seq<u8>, extra: Seq<u8>, p: int)
    requires
        u32_at(s, p) is Some,
    ensures
        u32_at(s + extra, p) == u32_at(s, p),
{
}

pub proof fn lemma_u8_at_prefix(s: Seq<u8>, extra: Seq<u8>, p: int)
    requires
        u8_at(s, p) is Some,
    ensures
        u8_at(s + extra, p) == u8_at(s, p),
{
}

pub proof fn lemma_bytes32_at_prefix(s: Seq<u8>, extra: Seq<u8>, p: int)
    requires
        bytes32_at(s, p) is Some,
    ensures
        bytes32_at(s + extra, p) == bytes32_at(s, p),
{
    assert((s + extra).subrange(p, p + 32) =~= s.subrange(p, p + 32));
}

pub proof fn lemma_option_u64_at_prefix(s: Seq<u8>, extra: Seq<u8>, p: int)
    requires
        option_u64_at(s, p) is Some,
    ensures
        option_u64_at(s + extra, p) == option_u64_at(s, p),
{
    lemma_u8_at_prefix(s, extra, p);
    if option_tag_at(s, p) == Some((true, p + 1)) {
        lemma_u64_at_prefix(s, extra, p + 1);
    }
}

pub proof fn lemma_option_i64_at_prefix(s: Seq<u8>, extra: Seq<u8>, p: int)
    requires
        option_i64_at(s, p) is Some,
    ensures
        option_i64_at(s + extra, p) == option_i64_at(s, p),
{
    lemma_u8_at_prefix(s, extra, p);
    if option_tag_at(s, p) == Some((true, p + 1)) {
        lemma_u64_at_prefix(s, extra, p + 1);
    }
}

pub proof fn lemma_u64_list_at_prefix(s: Seq<u8>, extra: Seq<u8>, p: int)
    requires
        u64_list_at(s, p) is Some,
    ensures
        u64_list_at(s + extra, p) == u64_list_at(s, p),
{
    lemma_u64_at_prefix(s, extra, p);
    let (n, q) = u64_at(s, p).unwrap();
    assert forall|i: int| 0 <= i < n implies #[trigger] le_u64(s + extra, q + 8 * i) == le_u64(s, q + 8 * i) by {
        assert(q + 8 * i + 8 <= q + 8 * n) by (nonlinear_arith)
            requires
                0 <= i < n,
        ;
        lemma_le_u64_prefix(s, extra, q + 8 * i);
    }
    assert(Seq::new(n as nat, |i: int| le_u64(s + extra, q + 8 * i)) =~= Seq::new(
        n as nat,
        |i: int| le_u64(s, q + 8 * i),
    ));
}

pub proof fn lemma_string_at_prefix(s: Seq<u8>, extra: Seq<u8>, p: int)
    requires
        string_at(s, p) is Some,
    ensures
        string_at(s + extra, p) == string_at(s, p),
{
    lemma_u64_at_prefix(s, extra, p);
    let (n, q) = u64_at(s, p).unwrap();
    assert((s + extra).subrange(q, q + n) =~= s.subrange(q, q + n));
}

pub proof fn lemma_short_u16_at_prefix(s: Seq<u8>, extra: Seq<u8>, p: int)
    requires
        short_u16_at(s, p) is Some,
    ensures
        short_u16_at(s + extra, p) == short_u16_at(s, p),
{
}

proof fn lemma_varint_groups_prefix(s: Seq<u8>, extra: Seq<u8>, p: int, k: nat)
    requires
        varint_groups(s, p, k) is Some,
    ensures
        varint_groups(s + extra, p, k) == varint_groups(s, p, k),
    decreases 10 - k,
{
    if k < 10 && 0 <= p + k < s.len() && s[p + k] >= 0x80 {
        lemma_varint_groups_prefix(s, extra, p, k + 1);
    }
}

pub proof fn lemma_varint_at_prefix(s: Seq<u8>, extra: Seq<u8>, p: int)
    requires
        varint_at(s, p) is Some,
    ensures
        varint_at(s + extra, p) == varint_at(s, p),
{
    lemma_varint_groups_prefix(s, extra, p, 0);
}

} // verus!

//! ASCII byte helpers shared by the HTTP and MQTT text handling: decimal
//! number parsing and printing, hex rendering of a MAC address, whitespace
//! trimming and case-insensitive comparison.

use vstd::prelude::*;
use vstd::string::StringSliceAdditionalSpecFns;
use vstd::utf8::valid_utf8;

verus! {

/// Relies on `core::str::from_utf8`: it accepts exactly valid UTF-8 and
/// returns a string of the same bytes.
#[verifier::external_body]
pub(crate) fn utf8_from_bytes(v: &[u8]) -> (r: Option<&str>)
    ensures
        r is Some <==> valid_utf8(v@),
        r matches Some(s) ==> s.spec_bytes() == v@,
{
    core::str::from_utf8(v).ok()
}

pub const CR: u8 = 13;
pub const LF: u8 = 10;
pub const SP: u8 = 32;
pub const COLON: u8 = 58;

// ---------------------------------------------------------------------------
// Decimal digits
// ---------------------------------------------------------------------------

pub open spec fn is_digit(b: u8) -> bool {
    48 <= b <= 57
}

pub open spec fn all_digits(s: Seq<u8>) -> bool {
    forall|i: int| 0 <= i < s.len() ==> is_digit(#[trigger] s[i])
}

/// The number denoted by a sequence of decimal digit bytes, most significant
/// first. The empty sequence denotes 0.
pub open spec fn digits_val(s: Seq<u8>) -> int
    decreases s.len(),
{
    if s.len() == 0 {
        0
    } else {
        digits_val(s.drop_last()) * 10 + (s.last() - 48)
    }
}

/// The shortest decimal digit rendering of `n` (so `0` is rendered `"0"`).
pub open spec fn dec_bytes(n: int) -> Seq<u8>
    decreases n,
{
    if n < 10 {
        seq![(48 + if n >= 0 { n } else { 0 }) as u8]
    } else {
        dec_bytes(n / 10).push((48 + n % 10) as u8)
    }
}

pub proof fn lemma_dec_bytes_digits(n: int)
    requires
        n >= 0,
    ensures
        all_digits(dec_bytes(n)),
        dec_bytes(n).len() >= 1,
        digits_val(dec_bytes(n)) == n,
    decreases n,
{
    if n < 10 {
        let s = dec_bytes(n);
        assert(s =~= seq![(48 + n) as u8]);
        assert(s.drop_last() =~= Seq::<u8>::empty());
        assert(digits_val(s) == digits_val(s.drop_last()) * 10 + (s.last() - 48));
    } else {
        lemma_dec_bytes_digits(n / 10);
        let s = dec_bytes(n);
        assert(s.drop_last() =~= dec_bytes(n / 10));
        assert(forall|i: int| 0 <= i < s.len() ==> is_digit(#[trigger] s[i])) by {
            assert(forall|i: int|
                0 <= i < s.len() - 1 ==> s[i] == #[trigger] dec_bytes(n / 10)[i]);
        }
    }
}

/// Parses an unsigned decimal number. Returns `None` when any byte is not a
/// digit, or when the value does not fit in a `u32`.
pub fn atoi(data: &[u8]) -> (r: Option<u32>)
    ensures
        r matches Some(v) ==> all_digits(data@) && digits_val(data@) == v,
        r is None ==> !all_digits(data@) || digits_val(data@) > u32::MAX,
{
    let mut val: u32 = 0;
    let mut i: usize = 0;
    while i < data.len()
        invariant
            0 <= i <= data@.len(),
            all_digits(data@.subrange(0, i as int)),
            digits_val(data@.subrange(0, i as int)) == val,
        decreases data@.len() - i,
    {
        let b = data[i];
        proof {
            assert(data@.subrange(0, i + 1).drop_last() =~= data@.subrange(0, i as int));
            assert(data@.subrange(0, i + 1).last() == data@[i as int]);
        }
        if b < 48 || b > 57 {
            proof {
                assert(!is_digit(data@[i as int]));
            }
            return None;
        }
        let d: u32 = (b - 48) as u32;
        proof {
            assert(all_digits(data@.subrange(0, i + 1)));
            assert(digits_val(data@.subrange(0, i + 1)) == val * 10 + d);
        }
        if val > (u32::MAX - d) / 10 {
            proof {
                assert(val * 10 + d > u32::MAX) by (nonlinear_arith)
                    requires
                        val > (u32::MAX - d) / 10,
                        0 <= d <= 9,
                ;
                if all_digits(data@) {
                    lemma_digits_val_prefix_le(data@, i + 1);
                }
            }
            return None;
        }
        val = val * 10 + d;
        i += 1;
    }
    proof {
        assert(data@.subrange(0, data@.len() as int) =~= data@);
    }
    Some(val)
}

pub proof fn lemma_digits_val_nonneg(s: Seq<u8>)
    requires
        all_digits(s),
    ensures
        digits_val(s) >= 0,
    decreases s.len(),
{
    if s.len() > 0 {
        assert(all_digits(s.drop_last())) by {
            assert(forall|i: int| 0 <= i < s.len() - 1 ==> s.drop_last()[i] == #[trigger] s[i]);
        }
        lemma_digits_val_nonneg(s.drop_last());
    }
}

/// A digit string is at least as large as the number denoted by any prefix.
pub proof fn lemma_digits_val_prefix_le(s: Seq<u8>, n: int)
    requires
        all_digits(s),
        0 <= n <= s.len(),
    ensures
        digits_val(s.subrange(0, n)) <= digits_val(s),
    decreases s.len() - n,
{
    assert(all_digits(s.subrange(0, n)));
    if n == s.len() {
        assert(s.subrange(0, n) == s);
    } else {
        lemma_digits_val_prefix_le(s, n + 1);
        let p = s.subrange(0, n + 1);
        assert(p.drop_last() == s.subrange(0, n));
        lemma_digits_val_nonneg(s.subrange(0, n));
        assert(digits_val(p) == digits_val(s.subrange(0, n)) * 10 + (s[n] - 48));
    }
}

// ---------------------------------------------------------------------------
// AsciiInt: decimal rendering of a u64
// ---------------------------------------------------------------------------

/// A decimal rendering of an unsigned integer, held as ASCII digit bytes.
pub struct AsciiInt(Vec<u8>);

impl View for AsciiInt {
    type V = Seq<u8>;

    closed spec fn view(&self) -> Seq<u8> {
        self.0@
    }
}

impl AsciiInt {
    /// Renders `value` in decimal.
    pub fn from_u64(value: u64) -> (r: AsciiInt)
        ensures
            r@ == dec_bytes(value as int),
    {
        let mut digits: Vec<u8> = Vec::new();
        let mut rest: u64 = value;
        loop
            invariant_except_break
                dec_bytes(value as int) == dec_bytes(rest as int) + digits@,
            ensures
                dec_bytes(value as int) == digits@,
            decreases rest,
        {
            let digit: u8 = (rest % 10) as u8;
            let next = rest / 10;
            let ghost pre = digits@;
            digits.insert(0, 48 + digit);
            proof {
                assert(digits@ =~= seq![(48 + rest % 10) as u8] + pre);
                if next > 0 {
                    assert(dec_bytes(rest as int) == dec_bytes(next as int).push(
                        (48 + rest % 10) as u8,
                    ));
                    assert(dec_bytes(next as int) + digits@ =~= dec_bytes(rest as int) + pre);
                } else {
                    assert(dec_bytes(rest as int) =~= seq![(48 + rest % 10) as u8]);
                    assert(digits@ =~= dec_bytes(rest as int) + pre);
                }
            }
            if next == 0 {
                break;
            }
            rest = next;
        }
        AsciiInt(digits)
    }

    /// The digit bytes.
    pub fn as_bytes(&self) -> (r: &[u8])
        ensures
            r@ == self@,
    {
        self.0.as_slice()
    }

    /// The digits as a string.
    pub fn as_str(&self) -> (r: &str)
        ensures
            valid_utf8(self@) ==> r.spec_bytes() == self@,
            !valid_utf8(self@) ==> r.spec_bytes().len() == 0,
    {
        match utf8_from_bytes(self.0.as_slice()) {
            Some(s) => s,
            None => {
                let empty = "";
                proof {
                    reveal_strlit("");
                    assert(empty@.len() == 0);
                    assert(empty.spec_bytes() =~= Seq::<u8>::empty());
                }
                empty
            },
        }
    }
}

// ---------------------------------------------------------------------------
// Hexadecimal rendering
// ---------------------------------------------------------------------------

/// The lower-case hex digit for a nybble.
pub open spec fn hex_digit(n: u8) -> u8 {
    if n < 10 {
        (48 + n) as u8
    } else {
        (97 + (n - 10)) as u8
    }
}

/// Renders a byte as two lower-case hex digits.
pub fn u8_to_hex(u: u8) -> (r: [u8; 2])
    ensures
        r@ == seq![hex_digit(u / 16), hex_digit(u % 16)],
{
    let upper = u >> 4;
    let lower = u & 0x0f;
    proof {
        assert(u >> 4 == u / 16 && (u & 0x0f) == u % 16) by (bit_vector);
    }
    let hi = if upper < 10 {
        48 + upper
    } else {
        97 + (upper - 10)
    };
    let lo = if lower < 10 {
        48 + lower
    } else {
        97 + (lower - 10)
    };
    [hi, lo]
}

/// The 12 hex digits of a 6-byte MAC address.
pub open spec fn mac_hex(mac: Seq<u8>) -> Seq<u8> {
    Seq::new(12, |i: int| {
        let b = mac[i / 2];
        if i % 2 == 0 {
            hex_digit(b / 16)
        } else {
            hex_digit(b % 16)
        }
    })
}

/// Renders a MAC address as 12 lower-case hex digits.
pub fn mac_to_hex(mac: [u8; 6]) -> (r: [u8; 12])
    ensures
        r@ == mac_hex(mac@),
{
    let mut hex: [u8; 12] = [0u8; 12];
    let mut idx: usize = 0;
    while idx < 6
        invariant
            0 <= idx <= 6,
            hex@.len() == 12,
            forall|i: int| 0 <= i < 2 * idx ==> hex@[i] == #[trigger] mac_hex(mac@)[i],
        decreases 6 - idx,
    {
        let pair = u8_to_hex(mac[idx]);
        hex[idx * 2] = pair[0];
        hex[idx * 2 + 1] = pair[1];
        idx += 1;
    }
    proof {
        assert(hex@ =~= mac_hex(mac@));
    }
    hex
}

// ---------------------------------------------------------------------------
// Whitespace trimming
// ---------------------------------------------------------------------------

/// ASCII whitespace, as `char::is_whitespace` classifies bytes below 0x80.
pub open spec fn is_ws(b: u8) -> bool {
    b == 32 || (9 <= b <= 13)
}

pub open spec fn trim_front(s: Seq<u8>) -> Seq<u8>
    decreases s.len(),
{
    if s.len() > 0 && is_ws(s[0]) {
        trim_front(s.drop_first())
    } else {
        s
    }
}

pub open spec fn trim_back(s: Seq<u8>) -> Seq<u8>
    decreases s.len(),
{
    if s.len() > 0 && is_ws(s.last()) {
        trim_back(s.drop_last())
    } else {
        s
    }
}

/// `s` with leading and trailing ASCII whitespace removed.
pub open spec fn trim_spec(s: Seq<u8>) -> Seq<u8> {
    trim_back(trim_front(s))
}

proof fn lemma_trim_front_drop(s: Seq<u8>, k: int)
    requires
        0 <= k <= s.len(),
        forall|i: int| 0 <= i < k ==> is_ws(#[trigger] s[i]),
    ensures
        trim_front(s) == trim_front(s.subrange(k, s.len() as int)),
    decreases k,
{
    if k > 0 {
        assert(trim_front(s) == trim_front(s.drop_first()));
        assert(s.drop_first() =~= s.subrange(1, s.len() as int));
        lemma_trim_front_drop(s.subrange(1, s.len() as int), k - 1);
        assert(s.subrange(1, s.len() as int).subrange(k - 1, s.len() - 1)
            =~= s.subrange(k, s.len() as int));
    } else {
        assert(s.subrange(0, s.len() as int) =~= s);
    }
}

proof fn lemma_trim_back_drop(s: Seq<u8>, k: int)
    requires
        0 <= k <= s.len(),
        forall|i: int| k <= i < s.len() ==> is_ws(#[trigger] s[i]),
    ensures
        trim_back(s) == trim_back(s.subrange(0, k)),
    decreases s.len() - k,
{
    if k < s.len() {
        assert(is_ws(s.last()));
        assert(trim_back(s) == trim_back(s.drop_last()));
        assert(s.drop_last() =~= s.subrange(0, s.len() - 1));
        lemma_trim_back_drop(s.subrange(0, s.len() - 1), k);
        assert(s.subrange(0, s.len() - 1).subrange(0, k) =~= s.subrange(0, k));
    } else {
        assert(s.subrange(0, k) =~= s);
    }
}

/// Whether a byte is ASCII whitespace.
pub fn is_ws_byte(b: u8) -> (r: bool)
    ensures
        r == is_ws(b),
{
    b == 32 || (9 <= b && b <= 13)
}

/// Copies `data` with leading and trailing ASCII whitespace removed.
pub fn trim_bytes(data: &[u8]) -> (r: Vec<u8>)
    ensures
        r@ == trim_spec(data@),
{
    let mut lo: usize = 0;
    while lo < data.len() && is_ws_byte(data[lo])
        invariant
            0 <= lo <= data@.len(),
            forall|i: int| 0 <= i < lo ==> is_ws(#[trigger] data@[i]),
        decreases data@.len() - lo,
    {
        lo += 1;
    }
    let mut hi: usize = data.len();
    while hi > lo && is_ws_byte(data[hi - 1])
        invariant
            lo <= hi <= data@.len(),
            forall|i: int| 0 <= i < lo ==> is_ws(#[trigger] data@[i]),
            forall|i: int| hi <= i < data@.len() ==> is_ws(#[trigger] data@[i]),
        decreases hi,
    {
        hi -= 1;
    }
    proof {
        lemma_trim_front_drop(data@, lo as int);
        let rest = data@.subrange(lo as int, data@.len() as int);
        if hi > lo {
            assert(!is_ws(data@[lo as int]));
            assert(rest[0] == data@[lo as int]);
            assert(trim_front(rest) == rest);
            lemma_trim_back_drop(rest, hi - lo);
            assert(rest.subrange(0, hi - lo) =~= data@.subrange(lo as int, hi as int));
            assert(!is_ws(data@[hi - 1]));
            assert(data@.subrange(lo as int, hi as int).last() == data@[hi - 1]);
            assert(trim_back(data@.subrange(lo as int, hi as int))
                == data@.subrange(lo as int, hi as int));
        } else {
            assert(rest.len() == data@.len() - lo);
            if rest.len() > 0 {
                assert(rest[0] == data@[lo as int]);
                assert(is_ws(rest[0]));
                lemma_trim_front_drop(data@, data@.len() as int);
                assert(data@.subrange(data@.len() as int, data@.len() as int).len() == 0);
            }
            assert(trim_spec(data@).len() == 0);
            assert(data@.subrange(lo as int, hi as int).len() == 0);
            assert(trim_spec(data@) =~= data@.subrange(lo as int, hi as int));
        }
    }
    slice_to_vec_u8(data, lo, hi)
}

/// Copies `data[lo..hi]` into a fresh vector.
pub fn slice_to_vec_u8(data: &[u8], lo: usize, hi: usize) -> (r: Vec<u8>)
    requires
        0 <= lo <= hi <= data@.len(),
    ensures
        r@ == data@.subrange(lo as int, hi as int),
{
    let mut out: Vec<u8> = Vec::new();
    let mut i: usize = lo;
    while i < hi
        invariant
            lo <= i <= hi <= data@.len(),
            out@ == data@.subrange(lo as int, i as int),
        decreases hi - i,
    {
        proof {
            assert(data@.subrange(lo as int, i + 1)
                =~= data@.subrange(lo as int, i as int).push(data@[i as int]));
        }
        out.push(data[i]);
        i += 1;
    }
    out
}

// ---------------------------------------------------------------------------
// Case-insensitive comparison
// ---------------------------------------------------------------------------

/// Lower-cases an ASCII letter; any other byte is unchanged.
pub open spec fn ascii_lower(b: u8) -> u8 {
    if 65 <= b <= 90 {
        (b + 32) as u8
    } else {
        b
    }
}

/// ASCII case-insensitive equality of byte sequences.
pub open spec fn eq_ignore_case(a: Seq<u8>, b: Seq<u8>) -> bool {
    a.len() == b.len() && forall|i: int|
        0 <= i < a.len() ==> ascii_lower(a[i]) == ascii_lower(#[trigger] b[i])
}

/// Compares two byte strings ignoring ASCII case.
pub fn eq_ignore_ascii_case(a: &[u8], b: &[u8]) -> (r: bool)
    ensures
        r == eq_ignore_case(a@, b@),
{
    if a.len() != b.len() {
        return false;
    }
    let mut i: usize = 0;
    while i < a.len()
        invariant
            0 <= i <= a@.len(),
            a@.len() == b@.len(),
            forall|j: int| 0 <= j < i ==> ascii_lower(a@[j]) == ascii_lower(#[trigger] b@[j]),
        decreases a@.len() - i,
    {
        let mut x = a[i];
        let mut y = b[i];
        if 65 <= x && x <= 90 {
            x = x + 32;
        }
        if 65 <= y && y <= 90 {
            y = y + 32;
        }
        if x != y {
            return false;
        }
        i += 1;
    }
    true
}

/// The index of the first occurrence of `b` in `s` at or after `from`.
pub open spec fn find_byte(s: Seq<u8>, b: u8, from: int) -> Option<int>
    decreases s.len() - from,
{
    if from < 0 || from >= s.len() {
        None
    } else if s[from] == b {
        Some(from)
    } else {
        find_byte(s, b, from + 1)
    }
}

/// Scans for the first occurrence of a byte.
pub fn find_byte_exec(data: &[u8], b: u8, from: usize) -> (r: Option<usize>)
    ensures
        match r {
            Some(i) => find_byte(data@, b, from as int) == Some(i as int) && from <= i
                < data@.len() && data@[i as int] == b,
            None => find_byte(data@, b, from as int) is None,
        },
{
    let mut i: usize = from;
    while i < data.len() && data[i] != b
        invariant
            from <= i,
            i <= data@.len() || i == from,
            find_byte(data@, b, from as int) == find_byte(data@, b, i as int),
        decreases data@.len() - i,
    {
        i += 1;
    }
    if i < data.len() {
        Some(i)
    } else {
        None
    }
}

/// Plain equality of byte strings.
pub fn bytes_eq(a: &[u8], b: &[u8]) -> (r: bool)
    ensures
        r == (a@ == b@),
{
    if a.len() != b.len() {
        proof {
            assert(a@.len() != b@.len());
        }
        return false;
    }
    let mut i: usize = 0;
    while i < a.len()
        invariant
            0 <= i <= a@.len(),
            a@.len() == b@.len(),
            forall|j: int| 0 <= j < i ==> a@[j] == #[trigger] b@[j],
        decreases a@.len() - i,
    {
        if a[i] != b[i] {
            return false;
        }
        i += 1;
    }
    proof {
        assert(a@ =~= b@);
    }
    true
}

} // verus!

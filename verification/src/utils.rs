//! Byte-string helpers used by the registry: ASCII lower-casing, trimming of
//! spaces and tabs, concatenation and decimal rendering of integers.
//!
//! Every text value of the registry (ids, titles, descriptions, addresses) is
//! handled as the sequence of its UTF-8 bytes.
use vstd::prelude::*;

verus! {

/// The bytes that `trim` strips: space (32) and horizontal tab (9).
pub open spec fn is_blank(b: u8) -> bool {
    b == 32 || b == 9
}

/// ASCII lower-casing of one byte: `A`..=`Z` map to `a`..=`z`, every other
/// byte (including the bytes of multi-byte UTF-8 characters) is kept.
pub open spec fn ascii_lower(b: u8) -> u8 {
    if 65 <= b && b <= 90 {
        (b + 32) as u8
    } else {
        b
    }
}

/// The byte string with every ASCII capital letter lower-cased.
pub open spec fn lowercase(s: Seq<u8>) -> Seq<u8> {
    s.map_values(|b: u8| ascii_lower(b))
}

/// `s` without its leading blanks.
pub open spec fn trim_start(s: Seq<u8>) -> Seq<u8>
    decreases s.len(),
{
    if s.len() > 0 && is_blank(s[0]) {
        trim_start(s.drop_first())
    } else {
        s
    }
}

/// `s` without its trailing blanks.
pub open spec fn trim_end(s: Seq<u8>) -> Seq<u8>
    decreases s.len(),
{
    if s.len() > 0 && is_blank(s.last()) {
        trim_end(s.drop_last())
    } else {
        s
    }
}

/// `s` without leading and trailing blanks.
pub open spec fn trimmed(s: Seq<u8>) -> Seq<u8> {
    trim_end(trim_start(s))
}

/// The ASCII bytes of the decimal notation of `n`, without sign or leading zeros.
pub open spec fn decimal(n: nat) -> Seq<u8>
    decreases n,
{
    if n < 10 {
        seq![(48 + n) as u8]
    } else {
        decimal(n / 10).push((48 + n % 10) as u8)
    }
}

/// The views of a list of byte strings.
pub open spec fn views(parts: Seq<Vec<u8>>) -> Seq<Seq<u8>> {
    parts.map_values(|p: Vec<u8>| p@)
}

/// Returns a copy of `s` in which the ASCII capital letters are lower-cased.
pub fn to_lowercase(s: &Vec<u8>) -> (result: Vec<u8>)
    ensures
        result@ == lowercase(s@),
{
    let len = s.len();
    let mut result: Vec<u8> = Vec::with_capacity(len);
    let mut i: usize = 0;
    while i < len
        invariant
            len == s@.len(),
            i <= len,
            result@.len() == i,
            forall|j: int| 0 <= j < i ==> result@[j] == ascii_lower(#[trigger] s@[j]),
        decreases len - i,
    {
        let byte = s[i];
        if byte >= 65 && byte <= 90 {
            result.push(byte + 32);
        } else {
            result.push(byte);
        }
        i += 1;
    }
    assert(result@ =~= lowercase(s@));
    result
}

/// Returns the concatenation of `strings`, in order.
pub fn concat_strings(strings: &Vec<Vec<u8>>) -> (result: Vec<u8>)
    ensures
        result@ == views(strings@).flatten(),
{
    let ghost parts = views(strings@);
    let mut result: Vec<u8> = Vec::new();
    let mut i: usize = 0;
    while i < strings.len()
        invariant
            parts == views(strings@),
            i <= strings@.len(),
            result@ == parts.take(i as int).flatten(),
        decreases strings@.len() - i,
    {
        let part = &strings[i];
        let ghost before = result@;
        let mut j: usize = 0;
        while j < part.len()
            invariant
                j <= part@.len(),
                result@ == before + part@.take(j as int),
            decreases part@.len() - j,
        {
            result.push(part[j]);
            assert(part@.take(j + 1) =~= part@.take(j as int).push(part@[j as int]));
            j += 1;
        }
        proof {
            assert(part@.take(part@.len() as int) =~= part@);
            assert(parts.take(i + 1) =~= parts.take(i as int).push(parts[i as int]));
            parts.take(i as int).lemma_flatten_push(parts[i as int]);
        }
        i += 1;
    }
    assert(parts.take(strings@.len() as int) =~= parts);
    result
}

/// Returns the decimal notation of `n` (`"0"` for zero).
pub fn u128_to_string(n: u128) -> (result: Vec<u8>)
    ensures
        result@ == decimal(n as nat),
{
    if n == 0 {
        let zero: Vec<u8> = vec![48u8];
        assert(zero@ =~= decimal(0));
        return zero;
    }
    let mut digits: Vec<u8> = Vec::new();
    let mut num: u128 = n;
    while num > 0
        invariant
            num > 0 ==> decimal(n as nat) == decimal(num as nat) + digits@,
            num == 0 ==> decimal(n as nat) == digits@,
        decreases num,
    {
        let digit: u8 = (num % 10) as u8;
        let ghost old_digits = digits@;
        digits.insert(0, 48 + digit);
        proof {
            assert(digits@ =~= seq![(48 + digit) as u8] + old_digits);
            if num >= 10 {
                assert(decimal(num as nat) == decimal((num / 10) as nat).push(
                    (48 + num % 10) as u8,
                ));
                assert(decimal((num / 10) as nat).push((48 + num % 10) as u8) + old_digits
                    =~= decimal((num / 10) as nat) + digits@);
            } else {
                assert(decimal(num as nat) =~= seq![(48 + num) as u8]);
            }
        }
        num = num / 10;
    }
    digits
}

/// Returns the decimal notation of `n` (`"0"` for zero).
pub fn u32_to_string(n: u32) -> (result: Vec<u8>)
    ensures
        result@ == decimal(n as nat),
{
    u128_to_string(n as u128)
}

/// Returns `s` without leading and trailing spaces and tabs.
///
/// Strings longer than 1024 bytes do not fit the working buffer and are not
/// accepted.
pub fn trim(s: &Vec<u8>) -> (result: Vec<u8>)
    requires
        s@.len() <= 1024,
    ensures
        result@ == trimmed(s@),
{
    let len = s.len();
    let mut start: usize = 0;
    assert(s@.skip(0) =~= s@);
    while start < len && (s[start] == 32 || s[start] == 9)
        invariant
            len == s@.len(),
            start <= len,
            trim_start(s@) == trim_start(s@.skip(start as int)),
        decreases len - start,
    {
        assert(s@.skip(start as int).drop_first() =~= s@.skip(start + 1));
        start += 1;
    }
    assert(trim_start(s@) == s@.subrange(start as int, len as int)) by {
        assert(s@.skip(start as int) =~= s@.subrange(start as int, len as int));
    }
    let mut end: usize = len;
    while end > start && (s[end - 1] == 32 || s[end - 1] == 9)
        invariant
            len == s@.len(),
            start <= end <= len,
            trimmed(s@) == trim_end(s@.subrange(start as int, end as int)),
        decreases end,
    {
        assert(s@.subrange(start as int, end as int).drop_last() =~= s@.subrange(
            start as int,
            end - 1,
        ));
        end -= 1;
    }
    let mut result: Vec<u8> = Vec::with_capacity(end - start);
    let mut i: usize = start;
    while i < end
        invariant
            len == s@.len(),
            start <= i <= end <= len,
            result@ == s@.subrange(start as int, i as int),
        decreases end - i,
    {
        result.push(s[i]);
        assert(s@.subrange(start as int, i + 1) =~= s@.subrange(start as int, i as int).push(
            s@[i as int],
        ));
        i += 1;
    }
    result
}

/// Returns whether `a` and `b` hold the same bytes.
pub fn bytes_equal(a: &Vec<u8>, b: &Vec<u8>) -> (result: bool)
    ensures
        result == (a@ == b@),
{
    if a.len() != b.len() {
        return false;
    }
    let mut i: usize = 0;
    while i < a.len()
        invariant
            a@.len() == b@.len(),
            i <= a@.len(),
            forall|j: int| 0 <= j < i ==> a@[j] == b@[j],
        decreases a@.len() - i,
    {
        if a[i] != b[i] {
            return false;
        }
        i += 1;
    }
    assert(a@ =~= b@);
    true
}

/// Returns a fresh copy of `s`.
pub fn copy_bytes(s: &Vec<u8>) -> (result: Vec<u8>)
    ensures
        result@ == s@,
{
    let mut result: Vec<u8> = Vec::with_capacity(s.len());
    let mut i: usize = 0;
    while i < s.len()
        invariant
            i <= s@.len(),
            result@ == s@.take(i as int),
        decreases s@.len() - i,
    {
        result.push(s[i]);
        assert(s@.take(i + 1) =~= s@.take(i as int).push(s@[i as int]));
        i += 1;
    }
    assert(s@.take(s@.len() as int) =~= s@);
    result
}

} // verus!

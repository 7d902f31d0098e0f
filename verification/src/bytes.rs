//! Matching of byte patterns in a buffer: prefixes, occurrences within a
//! leading window, ASCII case folding and blank skipping.

use vstd::prelude::*;

verus! {

/// `data` begins with the bytes of `sig`.
pub open spec fn starts_with(data: Seq<u8>, sig: Seq<u8>) -> bool {
    sig.len() <= data.len() && forall|i: int| 0 <= i < sig.len() ==> data[i] == sig[i]
}

/// `needle` occurs in `hay` at offset `at`.
pub open spec fn occurs_at(hay: Seq<u8>, needle: Seq<u8>, at: int) -> bool {
    0 <= at && at + needle.len() <= hay.len() && forall|j: int|
        0 <= j < needle.len() ==> hay[at + j] == needle[j]
}

/// `needle` occurs somewhere in `hay`.
pub open spec fn contains(hay: Seq<u8>, needle: Seq<u8>) -> bool {
    exists|at: int| occurs_at(hay, needle, at)
}

/// The first `n` bytes of `data`, or all of it where it is shorter.
pub open spec fn head(data: Seq<u8>, n: int) -> Seq<u8> {
    if data.len() <= n {
        data
    } else {
        data.take(n)
    }
}

/// An ASCII capital as its small letter, any other byte unchanged.
pub open spec fn lower_byte(b: u8) -> u8 {
    if 0x41 <= b <= 0x5a {
        (b + 0x20) as u8
    } else {
        b
    }
}

/// `data` with every ASCII capital replaced by its small letter.
pub open spec fn lowered(data: Seq<u8>) -> Seq<u8> {
    Seq::new(data.len(), |i: int| lower_byte(data[i]))
}

/// `data`, case-folded where `fold` is set.
pub open spec fn folded(data: Seq<u8>, fold: bool) -> Seq<u8> {
    if fold {
        lowered(data)
    } else {
        data
    }
}

/// Space, tab, line feed or carriage return.
pub open spec fn is_blank(b: u8) -> bool {
    b == 0x20 || b == 0x09 || b == 0x0a || b == 0x0d
}

/// The first byte of `data` that is not blank opens a JSON object or array.
pub open spec fn opens_json(data: Seq<u8>) -> bool {
    exists|i: int|
        0 <= i < data.len() && (#[trigger] data[i] == 0x7b || data[i] == 0x5b) && forall|j: int|
            0 <= j < i ==> is_blank(data[j])
}

/// Tells whether `data` begins with `sig`.
pub fn has_prefix(data: &[u8], sig: &[u8]) -> (found: bool)
    ensures
        found == starts_with(data@, sig@),
{
    if sig.len() > data.len() {
        return false;
    }
    let mut i: usize = 0;
    while i < sig.len()
        invariant
            i <= sig.len() <= data.len(),
            forall|k: int| 0 <= k < i ==> data@[k] == sig@[k],
        decreases sig.len() - i,
    {
        if data[i] != sig[i] {
            return false;
        }
        i += 1;
    }
    true
}

/// An ASCII capital as its small letter, any other byte unchanged.
pub fn to_lower_byte(b: u8) -> (r: u8)
    ensures
        r == lower_byte(b),
{
    if 0x41 <= b && b <= 0x5a {
        b + 0x20
    } else {
        b
    }
}

/// Tells whether `needle` occurs at offset `at` of the first `limit` bytes
/// of `data`, case-folded where `fold` is set.
fn matches_at(data: &[u8], limit: usize, at: usize, needle: &[u8], fold: bool) -> (found: bool)
    requires
        limit <= data.len(),
        at + needle.len() <= limit,
    ensures
        found == occurs_at(folded(head(data@, limit as int), fold), needle@, at as int),
{
    let ghost window = folded(head(data@, limit as int), fold);
    let mut j: usize = 0;
    while j < needle.len()
        invariant
            j <= needle.len(),
            limit <= data.len(),
            at + needle.len() <= limit,
            window == folded(head(data@, limit as int), fold),
            forall|k: int| 0 <= k < j ==> window[at + k] == needle@[k],
        decreases needle.len() - j,
    {
        let b = if fold {
            to_lower_byte(data[at + j])
        } else {
            data[at + j]
        };
        assert(window[at + j] == b);
        if b != needle[j] {
            return false;
        }
        j += 1;
    }
    true
}

/// Tells whether `needle` occurs within the first `limit` bytes of `data`,
/// case-folded where `fold` is set.
pub fn window_contains(data: &[u8], limit: usize, needle: &[u8], fold: bool) -> (found: bool)
    ensures
        found == contains(folded(head(data@, limit as int), fold), needle@),
{
    let end = if data.len() <= limit {
        data.len()
    } else {
        limit
    };
    let ghost window = folded(head(data@, limit as int), fold);
    assert(head(data@, limit as int) == head(data@, end as int));
    assert(window.len() == end);
    if needle.len() > end {
        assert(forall|at: int| !occurs_at(window, needle@, at));
        return false;
    }
    let last = end - needle.len();
    let mut at: usize = 0;
    while at <= last
        invariant
            at <= last + 1,
            last == end - needle.len(),
            end <= data.len(),
            head(data@, limit as int) == head(data@, end as int),
            window == folded(head(data@, limit as int), fold),
            window.len() == end,
            forall|k: int| 0 <= k < at ==> !occurs_at(window, needle@, k),
        decreases last + 1 - at,
    {
        if matches_at(data, end, at, needle, fold) {
            assert(occurs_at(window, needle@, at as int));
            return true;
        }
        at += 1;
    }
    assert(forall|k: int| !occurs_at(window, needle@, k));
    false
}

/// Tells whether the first byte of `data` that is not blank is `{` or `[`.
pub fn starts_json(data: &[u8]) -> (found: bool)
    ensures
        found == opens_json(data@),
{
    let mut i: usize = 0;
    while i < data.len()
        invariant
            i <= data.len(),
            forall|j: int| 0 <= j < i ==> is_blank(data@[j]),
        decreases data.len() - i,
    {
        let b = data[i];
        if !(b == 0x20 || b == 0x09 || b == 0x0a || b == 0x0d) {
            return b == 0x7b || b == 0x5b;
        }
        i += 1;
    }
    false
}

/// `data` ends with the bytes of `sig`.
pub open spec fn ends_with(data: Seq<u8>, sig: Seq<u8>) -> bool {
    sig.len() <= data.len() && forall|i: int|
        0 <= i < sig.len() ==> data[data.len() - sig.len() + i] == sig[i]
}

/// Tells whether `data` ends with `sig`.
pub fn has_suffix(data: &[u8], sig: &[u8]) -> (found: bool)
    ensures
        found == ends_with(data@, sig@),
{
    if sig.len() > data.len() {
        return false;
    }
    let base = data.len() - sig.len();
    let mut i: usize = 0;
    while i < sig.len()
        invariant
            i <= sig.len() <= data.len(),
            base == data.len() - sig.len(),
            forall|k: int| 0 <= k < i ==> data@[base + k] == sig@[k],
        decreases sig.len() - i,
    {
        if data[base + i] != sig[i] {
            return false;
        }
        i += 1;
    }
    true
}

/// A decimal digit in ASCII.
pub open spec fn is_digit(b: u8) -> bool {
    0x30 <= b <= 0x39
}

/// The number that a run of decimal digits stands for; zero for no digits.
pub open spec fn digits_value(digits: Seq<u8>) -> nat
    decreases digits.len(),
{
    if digits.len() == 0 {
        0
    } else {
        digits_value(digits.drop_last()) * 10 + (digits.last() - 0x30) as nat
    }
}

/// The digits of a numeral: what follows its plus sign, where it has one.
pub open spec fn unsigned_part(text: Seq<u8>) -> Seq<u8> {
    if text.len() > 0 && text[0] == 0x2b {
        text.drop_first()
    } else {
        text
    }
}

/// The number that `text` stands for: an optional plus sign and at least
/// one decimal digit, with a value that fits the machine word. Nothing
/// else is a number.
pub open spec fn parsed_number(text: Seq<u8>) -> Option<nat> {
    let digits = unsigned_part(text);
    if digits.len() > 0 && (forall|i: int| 0 <= i < digits.len() ==> is_digit(digits[i]))
        && digits_value(digits) <= usize::MAX {
        Some(digits_value(digits))
    } else {
        None
    }
}

/// A run of digits stands for no less than any run that it begins with.
proof fn lemma_digits_value_grows(digits: Seq<u8>, n: int)
    requires
        0 <= n <= digits.len(),
        forall|i: int| 0 <= i < digits.len() ==> is_digit(digits[i]),
    ensures
        digits_value(digits.take(n)) <= digits_value(digits),
    decreases digits.len() - n,
{
    if n < digits.len() {
        lemma_digits_value_grows(digits, n + 1);
        assert(digits.take(n + 1).drop_last() =~= digits.take(n));
    } else {
        assert(digits.take(n) =~= digits);
    }
}

/// Reads the bytes of `data` between `from` and `to` as a number.
pub fn parse_number(data: &[u8], from: usize, to: usize) -> (number: Option<usize>)
    requires
        from <= to <= data.len(),
    ensures
        match number {
            Some(n) => parsed_number(data@.subrange(from as int, to as int)) == Some(n as nat),
            None => parsed_number(data@.subrange(from as int, to as int)) is None,
        },
{
    let ghost text = data@.subrange(from as int, to as int);
    let start = if from < to && data[from] == 0x2b {
        from + 1
    } else {
        from
    };
    let ghost digits = unsigned_part(text);
    assert(digits =~= data@.subrange(start as int, to as int));
    if start == to {
        return None;
    }
    let mut value: usize = 0;
    let mut i: usize = start;
    assert(digits.take(0) =~= Seq::<u8>::empty());
    while i < to
        invariant
            from <= start <= i <= to <= data.len(),
            start < to,
            text == data@.subrange(from as int, to as int),
            digits == unsigned_part(text),
            digits == data@.subrange(start as int, to as int),
            forall|k: int| 0 <= k < i - start ==> is_digit(digits[k]),
            value == digits_value(digits.take(i - start)),
        decreases to - i,
    {
        let b = data[i];
        if b < 0x30 || b > 0x39 {
            assert(!is_digit(digits[i - start]));
            return None;
        }
        let d = (b - 0x30) as usize;
        proof {
            assert(digits.take(i - start + 1).drop_last() =~= digits.take(i - start));
        }
        if value > (usize::MAX - d) / 10 {
            proof {
                if forall|k: int| 0 <= k < digits.len() ==> is_digit(digits[k]) {
                    lemma_digits_value_grows(digits, i - start + 1);
                }
            }
            return None;
        }
        value = value * 10 + d;
        i += 1;
    }
    assert(digits.take(to - start) =~= digits);
    Some(value)
}

} // verus!

//! Parsing of the `Range` request header into one inclusive byte interval.

use crate::text::{chars_of, decimal, digit_char};
use vstd::prelude::*;

verus! {

/// The unit prefix that every honoured range header starts with.
pub open spec fn range_prefix() -> Seq<char> {
    seq!['b', 'y', 't', 'e', 's', '=']
}

pub open spec fn is_digit(c: char) -> bool {
    '0' <= c && c <= '9'
}

pub open spec fn digit_value(c: char) -> nat {
    (c as u32 - '0' as u32) as nat
}

/// The value of a string of decimal digits, most significant digit first.
pub open spec fn digits_value(s: Seq<char>) -> nat
    decreases s.len(),
{
    if s.len() == 0 {
        0
    } else {
        digits_value(s.drop_last()) * 10 + digit_value(s.last())
    }
}

pub open spec fn all_digits(s: Seq<char>) -> bool {
    forall|i: int| 0 <= i < s.len() ==> is_digit(#[trigger] s[i])
}

/// The digits of a number: what follows its optional plus sign.
pub open spec fn number_digits(s: Seq<char>) -> Seq<char> {
    if s.len() > 0 && s[0] == '+' {
        s.skip(1)
    } else {
        s
    }
}

/// A number is an optional plus sign followed by one or more decimal digits.
pub open spec fn is_number(s: Seq<char>) -> bool {
    number_digits(s).len() > 0 && all_digits(number_digits(s))
}

/// The value of a number, however large.
pub open spec fn number_value(s: Seq<char>) -> nat {
    digits_value(number_digits(s))
}

/// `d` is the position of the first dash of `s`.
pub open spec fn first_dash(s: Seq<char>, d: int) -> bool {
    &&& 0 <= d < s.len()
    &&& s[d] == '-'
    &&& forall|i: int| 0 <= i < d ==> s[i] != '-'
}

/// The interval that the two sides of the dash denote in a file of
/// `file_size` bytes, or `None` where they denote none.
///
/// `start-end` keeps `start` and clamps `end` to the last byte; `start-`
/// runs to the last byte; `-suffix` is the last `suffix` bytes.
pub open spec fn interval_of(left: Seq<char>, right: Seq<char>, file_size: u64) -> Option<
    (u64, u64),
> {
    if is_number(left) && is_number(right) {
        let start = number_value(left);
        let end = number_value(right);
        if start <= end && start < file_size {
            Some((start as u64, if end < file_size { end as u64 } else { (file_size - 1) as u64 }))
        } else {
            None
        }
    } else if is_number(left) && right.len() == 0 {
        let start = number_value(left);
        if start < file_size {
            Some((start as u64, (file_size - 1) as u64))
        } else {
            None
        }
    } else if left.len() == 0 && is_number(right) {
        let suffix = number_value(right);
        if 0 < suffix && suffix <= file_size {
            Some(((file_size - suffix) as u64, (file_size - 1) as u64))
        } else {
            None
        }
    } else {
        None
    }
}

/// The interval that a range header asks for, or `None` where the header is
/// not honoured and the whole file is to be served.
pub open spec fn range_of(header: Seq<char>, file_size: u64) -> Option<(u64, u64)> {
    let rest = header.skip(6);
    if header.len() >= 6 && header.take(6) == range_prefix() && !rest.contains(',') && exists|
        d: int,
    |
        first_dash(rest, d) {
        let d = choose|d: int| first_dash(rest, d);
        interval_of(rest.take(d), rest.skip(d + 1), file_size)
    } else {
        None
    }
}

/// What `parse_number` found in a piece of text.
#[derive(Clone, Copy, Debug, PartialEq, Eq, Structural)]
pub enum Number {
    /// The text is no number.
    Malformed,
    /// The text is a number that a `u64` holds.
    Value(u64),
    /// The text is a number above every `u64`.
    Huge,
}

pub open spec fn number_of(s: Seq<char>) -> Number {
    if !is_number(s) {
        Number::Malformed
    } else if number_value(s) <= u64::MAX {
        Number::Value(number_value(s) as u64)
    } else {
        Number::Huge
    }
}

/// Reads `text[from..to]` as a number.
pub fn parse_number(text: &[char], from: usize, to: usize) -> (r: Number)
    requires
        from <= to <= text.len(),
    ensures
        r == number_of(text@.subrange(from as int, to as int)),
{
    let ghost s = text@.subrange(from as int, to as int);
    let mut i: usize = from;
    if i < to && text[i] == '+' {
        i += 1;
    }
    let start: usize = i;
    let ghost digits = text@.subrange(start as int, to as int);
    assert(digits == number_digits(s));
    if start == to {
        return Number::Malformed;
    }
    let mut value: u64 = 0;
    let mut huge: bool = false;
    while i < to
        invariant
            from <= start <= i <= to <= text.len(),
            s == text@.subrange(from as int, to as int),
            digits == text@.subrange(start as int, to as int),
            digits == number_digits(s),
            all_digits(digits.take(i - start)),
            !huge ==> value == digits_value(digits.take(i - start)),
            huge ==> digits_value(digits.take(i - start)) > u64::MAX,
        decreases to - i,
    {
        let c = text[i];
        let ghost before = digits.take(i - start);
        let ghost after = digits.take(i + 1 - start);
        assert(after.drop_last() == before);
        assert(after.last() == c);
        if !(c >= '0' && c <= '9') {
            assert(!is_digit(digits[i - start]));
            return Number::Malformed;
        }
        let d: u64 = (c as u32 - '0' as u32) as u64;
        if !huge {
            match value.checked_mul(10) {
                Some(tens) => match tens.checked_add(d) {
                    Some(sum) => {
                        value = sum;
                    },
                    None => {
                        huge = true;
                    },
                },
                None => {
                    huge = true;
                },
            }
        }
        i += 1;
    }
    assert(digits.take(to - start) == digits);
    if huge {
        Number::Huge
    } else {
        Number::Value(value)
    }
}

/// Reads a `Range` header against a file of `file_size` bytes.
///
/// The header is honoured when it is `bytes=` followed by `start-end`,
/// `start-` or `-suffix` and the interval lies in the file; every other
/// header yields `None`, on which the whole file is served.
pub fn parse_range(range_str: &str, file_size: u64) -> (r: Option<(u64, u64)>)
    ensures
        r == range_of(range_str@, file_size),
{
    let text = chars_of(range_str);
    let n = text.len();
    if n < 6 || text[0] != 'b' || text[1] != 'y' || text[2] != 't' || text[3] != 'e' || text[4]
        != 's' || text[5] != '=' {
        assert(text@.len() >= 6 ==> text@.take(6) != range_prefix()) by {
            if text@.len() >= 6 {
                assert(text@.take(6)[0] == text@[0]);
                assert(text@.take(6)[1] == text@[1]);
                assert(text@.take(6)[2] == text@[2]);
                assert(text@.take(6)[3] == text@[3]);
                assert(text@.take(6)[4] == text@[4]);
                assert(text@.take(6)[5] == text@[5]);
            }
        }
        return None;
    }
    assert(text@.take(6) =~= range_prefix());
    let ghost rest = text@.skip(6);
    let mut dash: Option<usize> = None;
    let mut i: usize = 6;
    while i < n
        invariant
            6 <= i <= n,
            n == text.len(),
            text@ == range_str@,
            text@.take(6) == range_prefix(),
            rest == text@.skip(6),
            forall|k: int| 0 <= k < i - 6 ==> rest[k] != ',',
            dash is None ==> forall|k: int| 0 <= k < i - 6 ==> rest[k] != '-',
            dash matches Some(d) ==> 6 <= d < i && first_dash(rest, d - 6),
        decreases n - i,
    {
        let c = text[i];
        assert(rest[i - 6] == c);
        if c == ',' {
            assert(rest.contains(','));
            return None;
        }
        if c == '-' && dash.is_none() {
            dash = Some(i);
        }
        i += 1;
    }
    assert(!rest.contains(','));
    match dash {
        None => {
            assert(forall|d: int| !first_dash(rest, d));
            None
        },
        Some(d) => {
            let ghost at = choose|k: int| first_dash(rest, k);
            assert(first_dash(rest, d - 6));
            assert(at == d - 6);
            assert(rest.take(at) == text@.subrange(6, d as int));
            assert(rest.skip(at + 1) == text@.subrange(d + 1, n as int));
            let left = parse_number(text.as_slice(), 6, d);
            let right = parse_number(text.as_slice(), d + 1, n);
            interval(
                left,
                d == 6,
                right,
                d + 1 == n,
                file_size,
                Ghost((rest.take(at), rest.skip(at + 1))),
            )
        },
    }
}

/// The interval for the two sides of the dash, each given as what
/// `parse_number` found in it and whether it is empty.
fn interval(
    left: Number,
    left_empty: bool,
    right: Number,
    right_empty: bool,
    file_size: u64,
    Ghost(sides): Ghost<(Seq<char>, Seq<char>)>,
) -> (r: Option<(u64, u64)>)
    requires
        left == number_of(sides.0),
        right == number_of(sides.1),
        left_empty == (sides.0.len() == 0),
        right_empty == (sides.1.len() == 0),
    ensures
        r == interval_of(sides.0, sides.1, file_size),
{
    match (left, right) {
        (Number::Value(start), Number::Value(end)) => {
            if start <= end && start < file_size {
                Some((start, if end < file_size { end } else { file_size - 1 }))
            } else {
                None
            }
        },
        (Number::Value(start), Number::Huge) => {
            if start < file_size {
                Some((start, file_size - 1))
            } else {
                None
            }
        },
        (Number::Value(start), Number::Malformed) => {
            if right_empty && start < file_size {
                Some((start, file_size - 1))
            } else {
                None
            }
        },
        (Number::Malformed, Number::Value(suffix)) => {
            if left_empty && 0 < suffix && suffix <= file_size {
                Some((file_size - suffix, file_size - 1))
            } else {
                None
            }
        },
        _ => None,
    }
}

/// Every honoured interval is well formed and lies in the file.
pub proof fn range_lies_in_file(header: Seq<char>, file_size: u64)
    ensures
        range_of(header, file_size) matches Some((start, end)) ==> start <= end < file_size,
{
}

/// On every file that is not empty, `bytes=0-0` asks for the first byte alone.
pub proof fn first_byte_range(file_size: u64)
    requires
        file_size > 0,
    ensures
        range_of("bytes=0-0"@, file_size) == Some((0u64, 0u64)),
{
    reveal_strlit("bytes=0-0");
    let header = "bytes=0-0"@;
    let rest = header.skip(6);
    assert(header.take(6) =~= range_prefix());
    assert(rest =~= seq!['0', '-', '0']);
    assert(first_dash(rest, 1));
    let d = choose|d: int| first_dash(rest, d);
    assert(d == 1);
    let side = seq!['0'];
    assert(rest.take(1) =~= side);
    assert(rest.skip(2) =~= side);
    assert(number_digits(side) == side);
    assert(side.drop_last() =~= Seq::<char>::empty());
    assert(digits_value(side) == 0) by {
        reveal_with_fuel(digits_value, 2);
    }
}

/// A header that holds a comma is never honoured.
pub proof fn comma_is_unsupported(header: Seq<char>, file_size: u64)
    requires
        header.contains(','),
    ensures
        range_of(header, file_size) is None,
{
    if header.len() >= 6 && header.take(6) == range_prefix() {
        let k = choose|k: int| 0 <= k < header.len() && header[k] == ',';
        if k < 6 {
            assert(header.take(6)[k] == ',');
        } else {
            assert(header.skip(6)[k - 6] == ',');
        }
    }
}

/// A number holds no dash.
proof fn number_has_no_dash(s: Seq<char>)
    requires
        is_number(s),
    ensures
        forall|i: int| 0 <= i < s.len() ==> s[i] != '-',
{
    assert forall|i: int| 0 <= i < s.len() implies s[i] != '-' by {
        if s[0] == '+' {
            if i > 0 {
                assert(is_digit(number_digits(s)[i - 1]));
            }
        } else {
            assert(is_digit(number_digits(s)[i]));
        }
    }
}

/// The header `bytes=`, `left`, a dash, `right` denotes what its two sides
/// denote, provided `left` holds no dash and neither side a comma.
proof fn range_of_sides(left: Seq<char>, right: Seq<char>, file_size: u64)
    requires
        forall|i: int| 0 <= i < left.len() ==> left[i] != '-' && left[i] != ',',
        !right.contains(','),
    ensures
        range_of(range_prefix() + left + seq!['-'] + right, file_size) == interval_of(
            left,
            right,
            file_size,
        ),
{
    let header = range_prefix() + left + seq!['-'] + right;
    let rest = header.skip(6);
    assert(header.take(6) =~= range_prefix());
    assert(rest =~= left + seq!['-'] + right);
    assert forall|k: int| 0 <= k < rest.len() implies rest[k] != ',' by {
        if k > left.len() {
            assert(right[k - left.len() - 1] == rest[k]);
        }
    }
    assert(first_dash(rest, left.len() as int));
    let d = choose|d: int| first_dash(rest, d);
    assert(d == left.len());
    assert(rest.take(d) =~= left);
    assert(rest.skip(d + 1) =~= right);
}

/// A start at or past the end of the file is never honoured, whatever
/// follows the dash.
pub proof fn start_past_end_is_unsupported(start: Seq<char>, tail: Seq<char>, file_size: u64)
    requires
        is_number(start),
        number_value(start) >= file_size,
    ensures
        range_of(range_prefix() + start + seq!['-'] + tail, file_size) is None,
{
    let header = range_prefix() + start + seq!['-'] + tail;
    if tail.contains(',') {
        let k = choose|k: int| 0 <= k < tail.len() && tail[k] == ',';
        assert(header[6 + start.len() + 1 + k] == ',');
        comma_is_unsupported(header, file_size);
    } else {
        number_has_no_dash(start);
        assert forall|i: int| 0 <= i < start.len() implies start[i] != ',' by {
            if start[0] == '+' {
                if i > 0 {
                    assert(is_digit(number_digits(start)[i - 1]));
                }
            } else {
                assert(is_digit(number_digits(start)[i]));
            }
        }
        range_of_sides(start, tail, file_size);
    }
}

/// A suffix of zero bytes is never honoured.
pub proof fn empty_suffix_is_unsupported(suffix: Seq<char>, file_size: u64)
    requires
        is_number(suffix),
        number_value(suffix) == 0,
    ensures
        range_of(range_prefix() + seq!['-'] + suffix, file_size) is None,
{
    let header = range_prefix() + seq!['-'] + suffix;
    if suffix.contains(',') {
        let k = choose|k: int| 0 <= k < suffix.len() && suffix[k] == ',';
        assert(header[7 + k] == ',');
        comma_is_unsupported(header, file_size);
    } else {
        let left = Seq::<char>::empty();
        assert(range_prefix() + left + seq!['-'] + suffix =~= header);
        range_of_sides(left, suffix, file_size);
    }
}

/// A number written in decimal digits reads back as the same number.
pub proof fn decimal_reads_back(n: nat)
    ensures
        is_number(decimal(n)),
        number_value(decimal(n)) == n,
        number_digits(decimal(n)) == decimal(n),
    decreases n,
{
    let last = digit_char((n % 10) as int);
    assert(is_digit(last) && digit_value(last) == n % 10);
    if n < 10 {
        let text = seq![last];
        assert(text.drop_last() == Seq::<char>::empty());
        assert(digits_value(text) == n) by {
            reveal_with_fuel(digits_value, 2);
        }
    } else {
        decimal_reads_back(n / 10);
        let head = decimal(n / 10);
        let text = head.push(last);
        assert(text.drop_last() == head);
        assert(text[0] == head[0]);
        assert(is_digit(head[0]));
        assert forall|i: int| 0 <= i < text.len() implies is_digit(#[trigger] text[i]) by {
            if i < head.len() {
                assert(text[i] == head[i]);
            }
        }
    }
}

} // verus!

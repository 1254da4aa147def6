//! Text helpers: characters, comparison, searching and numerals.

use vstd::prelude::*;

verus! {

/// `std`'s `String::push` appends one character.
pub assume_specification[ String::push ](s: &mut String, ch: char)
    ensures
        final(s)@ == old(s)@.push(ch),
;

/// Lexicographic order by code point. This is also the order of the UTF-8
/// bytes, which is how `str` compares.
pub open spec fn le(a: Seq<char>, b: Seq<char>) -> bool
    decreases a.len(),
{
    if a.len() == 0 {
        true
    } else if b.len() == 0 {
        false
    } else if a[0] != b[0] {
        (a[0] as int) < (b[0] as int)
    } else {
        le(a.drop_first(), b.drop_first())
    }
}

/// Every text is at most itself.
pub proof fn le_is_reflexive(a: Seq<char>)
    ensures
        le(a, a),
    decreases a.len(),
{
    if a.len() > 0 {
        le_is_reflexive(a.drop_first());
    }
}

/// Of two texts one is at most the other.
pub proof fn le_is_total(a: Seq<char>, b: Seq<char>)
    ensures
        le(a, b) || le(b, a),
    decreases a.len(),
{
    if a.len() > 0 && b.len() > 0 && a[0] == b[0] {
        le_is_total(a.drop_first(), b.drop_first());
    }
}

/// Two texts that are each at most the other are the same.
pub proof fn le_is_antisymmetric(a: Seq<char>, b: Seq<char>)
    requires
        le(a, b),
        le(b, a),
    ensures
        a == b,
    decreases a.len(),
{
    if a.len() > 0 && b.len() > 0 {
        assert(a[0] == b[0]);
        let rest_a = a.drop_first();
        let rest_b = b.drop_first();
        le_is_antisymmetric(rest_a, rest_b);
        assert(a.len() == rest_a.len() + 1);
        assert forall|i: int| 0 <= i < a.len() implies a[i] == b[i] by {
            if i > 0 {
                assert(a[i] == rest_a[i - 1]);
                assert(b[i] == rest_b[i - 1]);
            }
        }
    }
    assert(a =~= b);
}

/// The order of texts is transitive.
pub proof fn le_is_transitive(a: Seq<char>, b: Seq<char>, c: Seq<char>)
    requires
        le(a, b),
        le(b, c),
    ensures
        le(a, c),
    decreases a.len(),
{
    if a.len() > 0 && b.len() > 0 && c.len() > 0 && a[0] == b[0] && b[0] == c[0] {
        le_is_transitive(a.drop_first(), b.drop_first(), c.drop_first());
    }
}

/// The characters of `text`.
pub fn chars_of(text: &str) -> (chars: Vec<char>)
    ensures
        chars@ == text@,
{
    let mut chars: Vec<char> = Vec::new();
    for c in it: text.chars()
        invariant
            it.seq() == text@,
            chars@ == text@.take(it.index()),
    {
        assert(text@.take(it.index() + 1) =~= text@.take(it.index()).push(c));
        chars.push(c);
    }
    assert(text@.take(text@.len() as int) =~= text@);
    chars
}

/// The string made of `chars[from..to]`.
pub fn string_of(chars: &Vec<char>, from: usize, to: usize) -> (text: String)
    requires
        from <= to <= chars@.len(),
    ensures
        text@ == chars@.subrange(from as int, to as int),
{
    let mut text = String::new();
    let mut i: usize = from;
    while i < to
        invariant
            from <= i <= to <= chars@.len(),
            text@ == chars@.subrange(from as int, i as int),
        decreases to - i,
    {
        assert(chars@.subrange(from as int, i + 1) =~= chars@.subrange(from as int, i as int).push(
            chars@[i as int],
        ));
        text.push(chars[i]);
        i += 1;
    }
    text
}

/// Whether the two texts hold the same characters.
pub fn same(a: &str, b: &str) -> (yes: bool)
    ensures
        yes == (a@ == b@),
{
    let left = chars_of(a);
    let right = chars_of(b);
    if left.len() != right.len() {
        return false;
    }
    let mut i: usize = 0;
    while i < left.len()
        invariant
            left@.len() == right@.len(),
            left@ == a@,
            right@ == b@,
            i <= left@.len(),
            forall|j: int| 0 <= j < i ==> left@[j] == right@[j],
        decreases left@.len() - i,
    {
        if left[i] != right[i] {
            assert(a@[i as int] != b@[i as int]);
            return false;
        }
        i += 1;
    }
    assert(a@ =~= b@);
    true
}

/// Whether `a` has the smaller code point.
fn before(a: char, b: char) -> (yes: bool)
    ensures
        yes == ((a as int) < (b as int)),
{
    a < b
}

/// Whether `a` comes before `b` or equals it.
pub fn at_most(a: &str, b: &str) -> (yes: bool)
    ensures
        yes == le(a@, b@),
{
    let left = chars_of(a);
    let right = chars_of(b);
    let mut i: usize = 0;
    assert(a@.skip(0) =~= a@);
    assert(b@.skip(0) =~= b@);
    while i < left.len() && i < right.len() && left[i] == right[i]
        invariant
            left@ == a@,
            right@ == b@,
            i <= left@.len(),
            i <= right@.len(),
            le(a@, b@) == le(a@.skip(i as int), b@.skip(i as int)),
        decreases left@.len() - i,
    {
        assert(a@.skip(i as int).drop_first() =~= a@.skip(i + 1));
        assert(b@.skip(i as int).drop_first() =~= b@.skip(i + 1));
        i += 1;
    }
    if i == left.len() {
        true
    } else if i == right.len() {
        false
    } else {
        before(left[i], right[i])
    }
}

/// The digit for a number below ten.
pub open spec fn digit(n: int) -> char {
    ('0' as int + n) as char
}

/// A number in decimal, without leading zeros.
pub open spec fn decimal(n: nat) -> Seq<char>
    decreases n,
{
    if n < 10 {
        seq![digit(n as int)]
    } else {
        decimal(n / 10).push(digit((n % 10) as int))
    }
}

fn digit_of(n: u64) -> (c: char)
    requires
        n < 10,
    ensures
        c == digit(n as int),
{
    let digits: [char; 10] = ['0', '1', '2', '3', '4', '5', '6', '7', '8', '9'];
    digits[n as usize]
}

/// The number in decimal.
pub fn decimal_of(n: u64) -> (text: String)
    ensures
        text@ == decimal(n as nat),
    decreases n,
{
    let mut text = if n < 10 {
        String::new()
    } else {
        decimal_of(n / 10)
    };
    text.push(digit_of(n % 10));
    assert(n < 10 ==> text@ =~= seq![digit(n as int)]);
    text
}

/// The number that decimal digits stand for; `None` when there is no digit, or
/// another character.
pub open spec fn decimal_value(text: Seq<char>) -> Option<int>
    decreases text.len(),
{
    if text.len() == 0 {
        None
    } else if !('0' <= text.last() && text.last() <= '9') {
        None
    } else if text.len() == 1 {
        Some(text[0] as int - '0' as int)
    } else {
        match decimal_value(text.drop_last()) {
            Some(n) => Some(10 * n + (text.last() as int - '0' as int)),
            None => None,
        }
    }
}

/// A number in decimal reads back as the same number.
pub proof fn decimal_reads_back(n: nat)
    ensures
        decimal_value(decimal(n)) == Some(n as int),
    decreases n,
{
    if n >= 10 {
        decimal_reads_back(n / 10);
        assert(decimal(n).drop_last() =~= decimal(n / 10));
        assert(decimal(n / 10).len() > 0);
    }
}

/// The digit for a number below sixteen, in upper case.
pub open spec fn hex_digit(n: int) -> char {
    if n < 10 {
        digit(n)
    } else {
        ('A' as int + (n - 10)) as char
    }
}

/// A number in hexadecimal, without leading zeros.
pub open spec fn hex(n: nat) -> Seq<char>
    decreases n,
{
    if n < 16 {
        seq![hex_digit(n as int)]
    } else {
        hex(n / 16).push(hex_digit((n % 16) as int))
    }
}

/// A number in hexadecimal, with a leading zero where there would be one digit.
pub open spec fn hex_pair(n: nat) -> Seq<char> {
    if n < 16 {
        seq!['0', hex_digit(n as int)]
    } else {
        hex(n)
    }
}

fn hex_digit_of(n: u32) -> (c: char)
    requires
        n < 16,
    ensures
        c == hex_digit(n as int),
{
    let digits: [char; 16] = [
        '0', '1', '2', '3', '4', '5', '6', '7', '8', '9', 'A', 'B', 'C', 'D', 'E', 'F',
    ];
    digits[n as usize]
}

/// The number in hexadecimal.
pub fn hex_of(n: u32) -> (text: String)
    ensures
        text@ == hex(n as nat),
    decreases n,
{
    let mut text = if n < 16 {
        String::new()
    } else {
        hex_of(n / 16)
    };
    text.push(hex_digit_of(n % 16));
    assert(n < 16 ==> text@ =~= seq![hex_digit(n as int)]);
    text
}

/// The number in hexadecimal, with at least two digits.
pub fn hex_pair_of(n: u32) -> (text: String)
    ensures
        text@ == hex_pair(n as nat),
{
    if n < 16 {
        let mut text = String::new();
        text.push('0');
        text.push(hex_digit_of(n));
        assert(text@ =~= hex_pair(n as nat));
        text
    } else {
        hex_of(n)
    }
}

/// Texts are ordered by the first character in which they differ, by its code
/// point; a text comes before every longer one that starts with it.
pub proof fn first_difference_decides(a: Seq<char>, b: Seq<char>, k: int)
    requires
        0 <= k <= a.len(),
        k <= b.len(),
        forall|i: int| 0 <= i < k ==> a[i] == b[i],
    ensures
        k == a.len() ==> le(a, b),
        k == a.len() && k < b.len() ==> !le(b, a),
        k < a.len() && k < b.len() && (a[k] as int) < (b[k] as int) ==> le(a, b) && !le(b, a),
    decreases k,
{
    if k > 0 {
        assert forall|i: int| 0 <= i < k - 1 implies a.drop_first()[i] == b.drop_first()[i] by {
            assert(a[i + 1] == b[i + 1]);
        }
        first_difference_decides(a.drop_first(), b.drop_first(), k - 1);
    }
}

/// A number in decimal has no other characters than digits, and starts with a zero
/// only where it is zero.
pub proof fn decimal_is_shortest(n: nat)
    ensures
        decimal(n).len() > 0,
        forall|i: int| 0 <= i < decimal(n).len() ==> '0' <= #[trigger] decimal(n)[i] <= '9',
        n > 0 ==> decimal(n)[0] != '0',
        n == 0 ==> decimal(n) == seq!['0'],
    decreases n,
{
    if n >= 10 {
        decimal_is_shortest(n / 10);
        assert forall|i: int| 0 <= i < decimal(n).len() implies '0' <= #[trigger] decimal(n)[i]
            <= '9' by {
            if i < decimal(n / 10).len() {
                assert(decimal(n)[i] == decimal(n / 10)[i]);
            }
        }
        assert(decimal(n)[0] == decimal(n / 10)[0]);
    }
}

/// The value of a hexadecimal digit in upper case.
pub open spec fn hex_digit_value(c: char) -> int {
    if '0' <= c && c <= '9' {
        c as int - '0' as int
    } else {
        c as int - 'A' as int + 10
    }
}

/// The number that hexadecimal digits stand for.
pub open spec fn hex_value(text: Seq<char>) -> int
    decreases text.len(),
{
    if text.len() == 0 {
        0
    } else {
        16 * hex_value(text.drop_last()) + hex_digit_value(text.last())
    }
}

/// A number in hexadecimal reads back as the same number. Its digits are upper case
/// ones, there are at least two of them, and more than two start with no zero.
pub proof fn hex_reads_back(n: nat)
    ensures
        hex_value(hex(n)) == n,
        hex_value(hex_pair(n)) == n,
        hex_pair(n).len() >= 2,
        hex(n).len() > 0,
        n > 0 ==> hex(n)[0] != '0',
        forall|i: int|
            0 <= i < hex(n).len() ==> ('0' <= #[trigger] hex(n)[i] <= '9' || 'A' <= hex(n)[i]
                <= 'F'),
    decreases n,
{
    reveal_with_fuel(hex_value, 3);
    if n < 16 {
        assert(hex(n).drop_last() =~= Seq::<char>::empty());
        assert(hex_pair(n).drop_last() =~= seq!['0']);
        assert(hex_pair(n).drop_last().drop_last() =~= Seq::<char>::empty());
    } else {
        hex_reads_back(n / 16);
        assert(hex(n).drop_last() =~= hex(n / 16));
        assert(hex(n)[0] == hex(n / 16)[0]);
        assert forall|i: int| 0 <= i < hex(n).len() implies ('0' <= #[trigger] hex(n)[i] <= '9'
            || 'A' <= hex(n)[i] <= 'F') by {
            if i < hex(n / 16).len() {
                assert(hex(n)[i] == hex(n / 16)[i]);
            }
        }
    }
}

} // verus!

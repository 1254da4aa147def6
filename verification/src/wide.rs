//! Text in the forms that Windows takes: UTF-16 with a terminator.

use crate::text;
use vstd::prelude::*;

verus! {

/// The UTF-16 units of one character: one for the basic plane, a surrogate pair
/// for the others.
pub open spec fn units(c: char) -> Seq<u16> {
    let code = c as int;
    if code < 0x1_0000 {
        seq![code as u16]
    } else {
        seq![
            (0xD800 + (code - 0x1_0000) / 0x400) as u16,
            (0xDC00 + (code - 0x1_0000) % 0x400) as u16,
        ]
    }
}

/// A text in UTF-16.
pub open spec fn utf16(text: Seq<char>) -> Seq<u16>
    decreases text.len(),
{
    if text.len() == 0 {
        Seq::empty()
    } else {
        utf16(text.drop_last()) + units(text.last())
    }
}

/// The text of some UTF-16 units, which need not be well formed: a surrogate
/// without its partner is left out.
pub open spec fn from_utf16(wide: Seq<u16>) -> Seq<char>
    decreases wide.len(),
{
    if wide.len() == 0 {
        Seq::empty()
    } else if wide[0] < 0xD800 || wide[0] >= 0xE000 {
        seq![wide[0] as char] + from_utf16(wide.skip(1))
    } else if wide[0] < 0xDC00 && wide.len() >= 2 && 0xDC00 <= wide[1] < 0xE000 {
        seq![(0x1_0000 + (wide[0] - 0xD800) * 0x400 + (wide[1] - 0xDC00)) as char] + from_utf16(
            wide.skip(2),
        )
    } else {
        from_utf16(wide.skip(1))
    }
}

fn push_units(wide: &mut Vec<u16>, c: char)
    ensures
        final(wide)@ == old(wide)@ + units(c),
{
    let code: u32 = c as u32;
    let ghost before = wide@;
    if code < 0x1_0000 {
        wide.push(code as u16);
        assert(wide@ =~= before + units(c));
    } else {
        let offset: u32 = code - 0x1_0000;
        wide.push((0xD800 + offset / 0x400) as u16);
        wide.push((0xDC00 + offset % 0x400) as u16);
        assert(wide@ =~= before + units(c));
    }
}

/// The text as UTF-16.
pub fn encode_utf16(text: &str) -> (wide: Vec<u16>)
    ensures
        wide@ == utf16(text@),
{
    let chars = text::chars_of(text);
    let mut wide: Vec<u16> = Vec::new();
    let mut i: usize = 0;
    assert(text@.take(0) =~= Seq::<char>::empty());
    while i < chars.len()
        invariant
            chars@ == text@,
            i <= chars@.len(),
            wide@ == utf16(text@.take(i as int)),
        decreases chars@.len() - i,
    {
        assert(text@.take(i + 1).drop_last() =~= text@.take(i as int));
        push_units(&mut wide, chars[i]);
        i += 1;
    }
    assert(text@.take(text@.len() as int) =~= text@);
    wide
}

/// The text as UTF-16 with a terminating zero, for the calls that take a
/// pointer to it.
pub fn wide_nul(text: &str) -> (wide: Vec<u16>)
    ensures
        wide@ == utf16(text@).push(0),
{
    let mut wide = encode_utf16(text);
    wide.push(0);
    wide
}

/// The bytes of some units, low byte first.
pub open spec fn little_endian(wide: Seq<u16>) -> Seq<u8> {
    Seq::new(
        2 * wide.len(),
        |i: int|
            if i % 2 == 0 {
                (wide[i / 2] % 0x100) as u8
            } else {
                (wide[i / 2] / 0x100) as u8
            },
    )
}

/// The text as the bytes of a registry string: UTF-16, low byte first, with a
/// terminating zero.
pub fn reg_sz_bytes(text: &str) -> (bytes: Vec<u8>)
    ensures
        bytes@ == little_endian(utf16(text@).push(0)),
{
    let wide = wide_nul(text);
    let mut bytes: Vec<u8> = Vec::new();
    let mut i: usize = 0;
    while i < wide.len()
        invariant
            i <= wide@.len(),
            bytes@ == little_endian(wide@.take(i as int)),
        decreases wide@.len() - i,
    {
        let ghost before = bytes@;
        let unit: u16 = wide[i];
        bytes.push((unit % 0x100) as u8);
        bytes.push((unit / 0x100) as u8);
        assert(bytes@ =~= little_endian(wide@.take(i + 1)));
        i += 1;
    }
    assert(wide@.take(wide@.len() as int) =~= wide@);
    bytes
}

proof fn utf16_from_the_front(text: Seq<char>)
    requires
        text.len() > 0,
    ensures
        utf16(text) == units(text[0]) + utf16(text.drop_first()),
    decreases text.len(),
{
    if text.len() == 1 {
        assert(text.drop_last() =~= Seq::<char>::empty());
        assert(text.drop_first() =~= Seq::<char>::empty());
        assert(utf16(text) =~= units(text[0]) + utf16(text.drop_first()));
    } else {
        utf16_from_the_front(text.drop_last());
        assert(text.drop_last().drop_first() =~= text.drop_first().drop_last());
        assert(utf16(text) =~= units(text[0]) + utf16(text.drop_first()));
    }
}

proof fn units_read_back(c: char, rest: Seq<u16>)
    ensures
        from_utf16(units(c) + rest) == seq![c] + from_utf16(rest),
{
    let wide = units(c) + rest;
    let code = c as int;
    if code < 0x1_0000 {
        assert(wide.skip(1) =~= rest);
        assert(wide[0] as char == c);
    } else {
        assert(wide.skip(2) =~= rest);
        let high = (code - 0x1_0000) / 0x400;
        let low = (code - 0x1_0000) % 0x400;
        assert(0 <= high < 0x400);
        assert(wide[0] == 0xD800 + high);
        assert(wide[1] == 0xDC00 + low);
        assert(0x1_0000 + (wide[0] - 0xD800) * 0x400 + (wide[1] - 0xDC00) == code);
    }
}

/// Text in UTF-16 reads back as the same text.
pub proof fn utf16_reads_back(text: Seq<char>)
    ensures
        from_utf16(utf16(text)) == text,
    decreases text.len(),
{
    if text.len() == 0 {
        assert(text =~= Seq::<char>::empty());
    } else {
        utf16_from_the_front(text);
        units_read_back(text[0], utf16(text.drop_first()));
        utf16_reads_back(text.drop_first());
        assert(text =~= seq![text[0]] + text.drop_first());
    }
}

/// Units read back from their bytes are the same units.
pub proof fn little_endian_reads_back(wide: Seq<u16>, i: int)
    requires
        0 <= i < wide.len(),
    ensures
        little_endian(wide).len() == 2 * wide.len(),
        little_endian(wide)[2 * i] + 0x100 * little_endian(wide)[2 * i + 1] == wide[i],
{
    assert((2 * i) / 2 == i);
    assert((2 * i + 1) / 2 == i);
}

/// A character of the basic plane is one unit, and another is a pair of surrogates, the
/// high one first, that hold how far it is beyond that plane; texts behind each other are
/// written behind each other.
pub proof fn characters_are_units_or_pairs(c: char, a: Seq<char>, b: Seq<char>)
    ensures
        c as int <= 0xFFFF ==> utf16(seq![c]).len() == 1 && utf16(seq![c])[0] == c as int,
        c as int > 0xFFFF ==> {
            let pair = utf16(seq![c]);
            &&& pair.len() == 2
            &&& 0xD800 <= pair[0] <= 0xDBFF
            &&& 0xDC00 <= pair[1] <= 0xDFFF
            &&& 1024 * (pair[0] - 0xD800) + (pair[1] - 0xDC00) == c as int - 0x1_0000
        },
        utf16(a + b) == utf16(a) + utf16(b),
{
    assert(seq![c].drop_last() =~= Seq::<char>::empty());
    assert(utf16(Seq::<char>::empty()).len() == 0);
    assert(utf16(seq![c]) =~= units(c));
    units_follow_each_other(a, b);
}

proof fn units_follow_each_other(a: Seq<char>, b: Seq<char>)
    ensures
        utf16(a + b) == utf16(a) + utf16(b),
    decreases b.len(),
{
    if b.len() == 0 {
        assert(a + b =~= a);
        assert(utf16(a + b) =~= utf16(a) + utf16(b));
    } else {
        assert((a + b).drop_last() =~= a + b.drop_last());
        units_follow_each_other(a, b.drop_last());
        assert(utf16(a + b) =~= utf16(a) + utf16(b));
    }
}

/// A surrogate that is not the first of a pair is left out, and what follows is read.
pub proof fn lone_surrogates_are_left_out(unit: u16, rest: Seq<u16>)
    requires
        0xD800 <= unit <= 0xDFFF,
        unit >= 0xDC00 || rest.len() == 0 || !(0xDC00 <= rest[0] <= 0xDFFF),
    ensures
        from_utf16(seq![unit] + rest) == from_utf16(rest),
{
    let wide = seq![unit] + rest;
    assert(wide.skip(1) =~= rest);
    if rest.len() > 0 {
        assert(wide[1] == rest[0]);
    }
}

} // verus!

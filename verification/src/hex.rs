//! Lower-case hexadecimal text of a byte string.

use vstd::prelude::*;

verus! {

/// The sixteen digits, in order of their value.
pub open spec fn digits() -> Seq<char> {
    seq!['0', '1', '2', '3', '4', '5', '6', '7', '8', '9', 'a', 'b', 'c', 'd', 'e', 'f']
}

/// The digit at position `i` of the text of `bytes`: the high half of byte
/// `i / 2` at even positions, its low half at odd ones.
pub open spec fn digit_at(bytes: Seq<u8>, i: int) -> char {
    if i % 2 == 0 {
        digits()[bytes[i / 2] as int / 16]
    } else {
        digits()[bytes[i / 2] as int % 16]
    }
}

/// The hexadecimal text of `bytes`: two digits per byte, high half first.
pub open spec fn hex(bytes: Seq<u8>) -> Seq<char> {
    Seq::new(2 * bytes.len(), |i: int| digit_at(bytes, i))
}

/// One digit as a string slice.
pub(crate) fn digit_text(value: u8) -> (text: &'static str)
    requires
        value < 16,
    ensures
        text@ == seq![digits()[value as int]],
{
    proof {
        reveal_strlit("0");
        reveal_strlit("1");
        reveal_strlit("2");
        reveal_strlit("3");
        reveal_strlit("4");
        reveal_strlit("5");
        reveal_strlit("6");
        reveal_strlit("7");
        reveal_strlit("8");
        reveal_strlit("9");
        reveal_strlit("a");
        reveal_strlit("b");
        reveal_strlit("c");
        reveal_strlit("d");
        reveal_strlit("e");
        reveal_strlit("f");
    }
    let text = match value {
        0 => "0",
        1 => "1",
        2 => "2",
        3 => "3",
        4 => "4",
        5 => "5",
        6 => "6",
        7 => "7",
        8 => "8",
        9 => "9",
        10 => "a",
        11 => "b",
        12 => "c",
        13 => "d",
        14 => "e",
        _ => "f",
    };
    assert(text@ =~= seq![digits()[value as int]]);
    text
}

/// Writes `bytes` as lower-case hexadecimal text.
pub fn encode(bytes: &[u8]) -> (text: String)
    ensures
        text@ == hex(bytes@),
{
    let mut text = String::new();
    let mut i: usize = 0;
    while i < bytes.len()
        invariant
            i <= bytes.len(),
            text@ == hex(bytes@.take(i as int)),
        decreases bytes.len() - i,
    {
        let byte = bytes[i];
        text.append(digit_text(byte / 16));
        text.append(digit_text(byte % 16));
        i += 1;
        assert(text@ =~= hex(bytes@.take(i as int)));
    }
    assert(bytes@.take(i as int) =~= bytes@);
    text
}

/// Two byte strings with the same hexadecimal text are the same byte string.
pub proof fn lemma_hex_injective(a: Seq<u8>, b: Seq<u8>)
    requires
        hex(a) == hex(b),
    ensures
        a == b,
{
    assert(hex(a).len() == 2 * a.len());
    assert(hex(b).len() == 2 * b.len());
    assert forall|i: int| 0 <= i < a.len() implies a[i] == b[i] by {
        assert(hex(a)[2 * i] == digit_at(a, 2 * i));
        assert(hex(b)[2 * i] == digit_at(b, 2 * i));
        assert(hex(a)[2 * i + 1] == digit_at(a, 2 * i + 1));
        assert(hex(b)[2 * i + 1] == digit_at(b, 2 * i + 1));
        lemma_digits_distinct(a[i] as int / 16, b[i] as int / 16);
        lemma_digits_distinct(a[i] as int % 16, b[i] as int % 16);
    }
    assert(a =~= b);
}

/// Different values below sixteen have different digits.
pub proof fn lemma_digits_distinct(x: int, y: int)
    requires
        0 <= x < 16,
        0 <= y < 16,
        digits()[x] == digits()[y],
    ensures
        x == y,
{
}

} // verus!

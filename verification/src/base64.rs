//! Bytes as text in Base64, with the standard alphabet and padding.

use vstd::prelude::*;

verus! {

/// The character that stands for a value below sixty-four.
pub open spec fn symbol(value: nat) -> char {
    if value < 26 {
        ('A' as int + value) as char
    } else if value < 52 {
        ('a' as int + (value - 26)) as char
    } else if value < 62 {
        ('0' as int + (value - 52)) as char
    } else if value == 62 {
        '+'
    } else {
        '/'
    }
}

/// The value that a character stands for.
pub open spec fn symbol_value(c: char) -> Option<nat> {
    if 'A' <= c <= 'Z' {
        Some((c as int - 'A' as int) as nat)
    } else if 'a' <= c <= 'z' {
        Some((c as int - 'a' as int + 26) as nat)
    } else if '0' <= c <= '9' {
        Some((c as int - '0' as int + 52) as nat)
    } else if c == '+' {
        Some(62)
    } else if c == '/' {
        Some(63)
    } else {
        None
    }
}

/// The text of some bytes: every three bytes are four characters of six bits
/// each. One or two bytes at the end are padded to four characters.
pub open spec fn encoded(bytes: Seq<u8>) -> Seq<char>
    decreases bytes.len(),
{
    if bytes.len() == 0 {
        Seq::empty()
    } else if bytes.len() == 1 {
        let a = bytes[0] as nat;
        seq![symbol(a / 4), symbol(a % 4 * 16), '=', '=']
    } else if bytes.len() == 2 {
        let a = bytes[0] as nat;
        let b = bytes[1] as nat;
        seq![symbol(a / 4), symbol(a % 4 * 16 + b / 16), symbol(b % 16 * 4), '=']
    } else {
        let a = bytes[0] as nat;
        let b = bytes[1] as nat;
        let c = bytes[2] as nat;
        seq![
            symbol(a / 4),
            symbol(a % 4 * 16 + b / 16),
            symbol(b % 16 * 4 + c / 64),
            symbol(c % 64),
        ] + encoded(bytes.skip(3))
    }
}

/// The bytes that a text stands for.
pub open spec fn decoded(text: Seq<char>) -> Option<Seq<u8>>
    decreases text.len(),
{
    if text.len() == 0 {
        Some(Seq::empty())
    } else if text.len() < 4 {
        None
    } else {
        match (symbol_value(text[0]), symbol_value(text[1]), symbol_value(text[2]), symbol_value(text[3])) {
            (Some(p), Some(q), Some(r), Some(s)) => match decoded(text.skip(4)) {
                Some(rest) => Some(
                    seq![
                        (p * 4 + q / 16) as u8,
                        (q % 16 * 16 + r / 4) as u8,
                        (r % 4 * 64 + s) as u8,
                    ] + rest,
                ),
                None => None,
            },
            (Some(p), Some(q), Some(r), None) => if text.len() == 4 && text[3] == '=' {
                Some(seq![(p * 4 + q / 16) as u8, (q % 16 * 16 + r / 4) as u8])
            } else {
                None
            },
            (Some(p), Some(q), None, None) => if text.len() == 4 && text[2] == '=' && text[3]
                == '=' {
                Some(seq![(p * 4 + q / 16) as u8])
            } else {
                None
            },
            _ => None,
        }
    }
}

proof fn lemma_symbol(value: nat)
    requires
        value < 64,
    ensures
        symbol_value(symbol(value)) == Some(value),
        symbol(value) != '=',
{
}

/// What was encoded can be decoded: the text stands for the bytes and for no
/// others.
pub proof fn law_encoding_is_reversible(bytes: Seq<u8>)
    ensures
        decoded(encoded(bytes)) == Some(bytes),
    decreases bytes.len(),
{
    let text = encoded(bytes);
    if bytes.len() > 0 {
        let a = bytes[0] as nat;
        let b: nat = if bytes.len() > 1 {
            bytes[1] as nat
        } else {
            0
        };
        let c: nat = if bytes.len() > 2 {
            bytes[2] as nat
        } else {
            0
        };
        lemma_symbol(a / 4);
        lemma_symbol(a % 4 * 16 + b / 16);
        lemma_symbol(b % 16 * 4 + c / 64);
        lemma_symbol(c % 64);
        if bytes.len() > 2 {
            law_encoding_is_reversible(bytes.skip(3));
            assert(text.skip(4) =~= encoded(bytes.skip(3)));
            assert(decoded(text)->0 =~= bytes);
        } else {
            assert(decoded(text)->0 =~= bytes);
        }
    } else {
        assert(bytes =~= Seq::empty());
    }
}

/// Four characters stand for every three bytes, and for what is left over at the
/// end.
pub proof fn law_encoded_length(bytes: Seq<u8>)
    ensures
        encoded(bytes).len() == (bytes.len() + 2) / 3 * 4,
    decreases bytes.len(),
{
    if bytes.len() > 2 {
        law_encoded_length(bytes.skip(3));
    }
}

fn symbol_of(value: u8) -> (res: char)
    requires
        value < 64,
    ensures
        res == symbol(value as nat),
{
    if value < 26 {
        (65 + value) as char
    } else if value < 52 {
        (97 + (value - 26)) as char
    } else if value < 62 {
        (48 + (value - 52)) as char
    } else if value == 62 {
        '+'
    } else {
        '/'
    }
}

/// Writes bytes in Base64.
pub fn encode_base64(input: &[u8]) -> (res: String)
    ensures
        res@ == encoded(input@),
{
    let mut output = String::new();
    let mut i: usize = 0;
    assert(input@.skip(0) =~= input@);
    while i < input.len()
        invariant
            i <= input@.len(),
            encoded(input@) == output@ + encoded(input@.skip(i as int)),
        decreases input@.len() - i,
    {
        let ghost rest = input@.skip(i as int);
        let ghost before = output@;
        let left: usize = input.len() - i;
        let first: u8 = input[i];
        let second: u8 = if left > 1 {
            input[i + 1]
        } else {
            0
        };
        let third: u8 = if left > 2 {
            input[i + 2]
        } else {
            0
        };
        proof {
            lemma_sextets(first, second, third);
        }
        output.push(symbol_of(first >> 2));
        output.push(symbol_of(((first & 0b11) << 4) | (second >> 4)));
        if left > 1 {
            output.push(symbol_of(((second & 0b1111) << 2) | (third >> 6)));
        } else {
            output.push('=');
        }
        if left > 2 {
            output.push(symbol_of(third & 0b111111));
        } else {
            output.push('=');
        }
        if left > 2 {
            assert(rest.skip(3) =~= input@.skip(i + 3));
            assert(output@ + encoded(input@.skip(i + 3)) =~= before + encoded(rest));
            i = i + 3;
        } else {
            assert(input@.skip(input@.len() as int) =~= Seq::empty());
            assert(output@ =~= before + encoded(rest));
            assert(output@ + Seq::<char>::empty() =~= output@);
            i = input.len();
        }
    }
    assert(input@.skip(i as int) =~= Seq::empty());
    assert(output@ + Seq::<char>::empty() =~= output@);
    output
}

/// The six-bit groups of three bytes.
proof fn lemma_sextets(first: u8, second: u8, third: u8)
    ensures
        first >> 2 == first / 4,
        first >> 2 < 64,
        (((first & 0b11) << 4) | (second >> 4)) == first % 4 * 16 + second / 16,
        (((first & 0b11) << 4) | (second >> 4)) < 64,
        (((second & 0b1111) << 2) | (third >> 6)) == second % 16 * 4 + third / 64,
        (((second & 0b1111) << 2) | (third >> 6)) < 64,
        third & 0b111111 == third % 64,
        third & 0b111111 < 64,
{
    assert(first >> 2 == first / 4 && first >> 2 < 64) by (bit_vector);
    assert((((first & 0b11) << 4) | (second >> 4)) == first % 4 * 16 + second / 16 && (((first
        & 0b11) << 4) | (second >> 4)) < 64) by (bit_vector);
    assert((((second & 0b1111) << 2) | (third >> 6)) == second % 16 * 4 + third / 64 && (((second
        & 0b1111) << 2) | (third >> 6)) < 64) by (bit_vector);
    assert(third & 0b111111 == third % 64 && third & 0b111111 < 64) by (bit_vector);
}

/// The alphabet of Base64, in order.
pub proof fn law_alphabet(value: nat)
    requires
        value < 64,
    ensures
        symbol(value)
            == "ABCDEFGHIJKLMNOPQRSTUVWXYZabcdefghijklmnopqrstuvwxyz0123456789+/"@[value as int],
{
    reveal_strlit("ABCDEFGHIJKLMNOPQRSTUVWXYZabcdefghijklmnopqrstuvwxyz0123456789+/");
}

/// Whole groups of three bytes are encoded on their own: what comes after them is
/// encoded as if it stood alone.
pub proof fn law_groups_are_encoded_alone(bytes: Seq<u8>, more: Seq<u8>)
    requires
        bytes.len() % 3 == 0,
    ensures
        encoded(bytes + more) == encoded(bytes) + encoded(more),
    decreases bytes.len(),
{
    if bytes.len() == 0 {
        assert(bytes + more =~= more);
        assert(encoded(bytes) + encoded(more) =~= encoded(more));
    } else {
        law_groups_are_encoded_alone(bytes.skip(3), more);
        let all = bytes + more;
        assert(all.skip(3) =~= bytes.skip(3) + more);
        assert(all[0] == bytes[0] && all[1] == bytes[1] && all[2] == bytes[2]);
        assert(encoded(all) =~= encoded(bytes) + encoded(more));
    }
}

/// The text is padded at its end, to a multiple of four characters: by one
/// character where two bytes are left over, and by two where one is.
pub proof fn law_padding(bytes: Seq<u8>)
    ensures
        bytes.len() % 3 == 0 ==> !encoded(bytes).contains('='),
        bytes.len() % 3 != 0 ==> encoded(bytes).last() == '=',
        bytes.len() % 3 == 1 ==> encoded(bytes)[encoded(bytes).len() - 2] == '=',
        bytes.len() % 3 == 2 ==> encoded(bytes)[encoded(bytes).len() - 2] != '=',
    decreases bytes.len(),
{
    law_encoded_length(bytes);
    let text = encoded(bytes);
    if bytes.len() == 2 {
        lemma_symbol(bytes[1] as nat % 16 * 4);
    } else if bytes.len() > 2 {
        let rest = bytes.skip(3);
        law_padding(rest);
        law_encoded_length(rest);
        let a = bytes[0] as nat;
        let b = bytes[1] as nat;
        let c = bytes[2] as nat;
        lemma_symbol(a / 4);
        lemma_symbol(a % 4 * 16 + b / 16);
        lemma_symbol(b % 16 * 4 + c / 64);
        lemma_symbol(c % 64);
        assert forall|i: int| 0 <= i < 4 implies #[trigger] text[i] != '=' by {}
        assert forall|i: int| 4 <= i < text.len() implies #[trigger] text[i] == encoded(rest)[i
            - 4] by {}
        if bytes.len() % 3 == 0 && text.contains('=') {
            let i = choose|i: int| 0 <= i < text.len() && text[i] == '=';
            assert(encoded(rest)[i - 4] == '=');
        }
    }
}

} // verus!

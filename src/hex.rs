use vstd::prelude::*;

verus! {

/// The lowercase hexadecimal digit for a value below sixteen.
pub open spec fn hex_digit(n: u8) -> char {
    if n < 10 {
        ('0' as u8 + n) as char
    } else {
        ('a' as u8 + (n - 10)) as char
    }
}

/// Two lowercase hex digits per byte, high nibble first, no separators.
pub open spec fn hex_of(bytes: Seq<u8>) -> Seq<char>
    decreases bytes.len(),
{
    if bytes.len() == 0 {
        Seq::empty()
    } else {
        hex_of(bytes.drop_last()) + seq![
            hex_digit(bytes.last() / 16),
            hex_digit(bytes.last() % 16),
        ]
    }
}

pub proof fn lemma_hex_len(bytes: Seq<u8>)
    ensures
        hex_of(bytes).len() == 2 * bytes.len(),
    decreases bytes.len(),
{
    if bytes.len() > 0 {
        lemma_hex_len(bytes.drop_last());
    }
}

fn digit_str(n: u8) -> (r: &'static str)
    requires
        n < 16,
    ensures
        r@ == seq![hex_digit(n)],
{
    proof {
        reveal_strlit("0123456789abcdef");
    }
    let digits = "0123456789abcdef";
    let s = digits.substring_ascii(n as usize, n as usize + 1);
    assert(s@ =~= seq![hex_digit(n)]);
    s
}

/// Encodes a byte array as a lowercase hex string, two digits per byte.
pub fn encode_hash(byte_array: &[u8]) -> (r: String)
    ensures
        r@ == hex_of(byte_array@),
{
    let mut r = String::new();
    let mut i: usize = 0;
    while i < byte_array.len()
        invariant
            i <= byte_array@.len(),
            r@ == hex_of(byte_array@.subrange(0, i as int)),
        decreases byte_array@.len() - i,
    {
        let b = byte_array[i];
        r.append(digit_str(b / 16));
        r.append(digit_str(b % 16));
        proof {
            let next = byte_array@.subrange(0, i + 1);
            assert(next.drop_last() =~= byte_array@.subrange(0, i as int));
            assert(next.last() == b);
        }
        i += 1;
    }
    assert(byte_array@.subrange(0, i as int) =~= byte_array@);
    r
}

} // verus!

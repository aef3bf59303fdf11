use vstd::prelude::*;

verus! {

/// The lowercase hexadecimal digit standing for a nibble value below 16.
pub open spec fn hex_digit(n: u8) -> char
    recommends
        n < 16,
{
    if n < 10 {
        ((n + 48) as u8) as char
    } else {
        ((n + 87) as u8) as char
    }
}

/// The lowercase hexadecimal rendering of a byte sequence: two digits
/// per byte, high nibble first.
pub open spec fn hex_of(bytes: Seq<u8>) -> Seq<char>
    decreases bytes.len(),
{
    if bytes.len() == 0 {
        Seq::empty()
    } else {
        hex_of(bytes.drop_last()) + seq![
            hex_digit(bytes.last() / 16),
            hex_digit(bytes.last() % 16),
        ]
    }
}

pub proof fn lemma_hex_of_len(bytes: Seq<u8>)
    ensures
        hex_of(bytes).len() == 2 * bytes.len(),
    decreases bytes.len(),
{
    if bytes.len() > 0 {
        lemma_hex_of_len(bytes.drop_last());
    }
}

/// Whether a character is a hexadecimal digit, in either case.
pub open spec fn is_hex_char(c: char) -> bool {
    (48 <= c as u32 && c as u32 <= 57)  // '0' ..= '9'
    || (97 <= c as u32 && c as u32 <= 102)  // 'a' ..= 'f'
    || (65 <= c as u32 && c as u32 <= 70)  // 'A' ..= 'F'
}

/// Whether a character is a lowercase hexadecimal digit.
pub open spec fn is_lower_hex_char(c: char) -> bool {
    (48 <= c as u32 && c as u32 <= 57) || (97 <= c as u32 && c as u32 <= 102)
}

/// The same character with an uppercase hexadecimal letter folded to
/// lowercase; everything else is kept.
pub open spec fn lower_hex_char(c: char) -> char {
    if 65 <= c as u32 && c as u32 <= 70 {
        ((c as u32 + 32) as u8) as char
    } else {
        c
    }
}

/// Case-folds the hexadecimal letters of a character sequence.
pub open spec fn lower_hex(s: Seq<char>) -> Seq<char> {
    s.map_values(|c: char| lower_hex_char(c))
}

/// Relies on String::push: appends exactly the given character.
#[verifier::external_body]
fn push_char(s: &mut String, c: char)
    ensures
        final(s)@ == old(s)@.push(c),
{
    s.push(c);
}

pub(crate) fn push_hex_digit(s: &mut String, n: u8)
    requires
        n < 16,
    ensures
        final(s)@ == old(s)@.push(hex_digit(n)),
{
    let c: char = if n < 10 {
        (n + 48) as char
    } else {
        (n + 87) as char
    };
    assert(c == hex_digit(n));
    push_char(s, c);
}

/// Renders a byte sequence as its lowercase hexadecimal string.
pub fn bytes_to_hex(bytes: &Vec<u8>) -> (r: String)
    ensures
        r@ == hex_of(bytes@),
        r@.len() == 2 * bytes@.len(),
{
    let mut out = String::new();
    let mut i: usize = 0;
    while i < bytes.len()
        invariant
            i <= bytes@.len(),
            out@ == hex_of(bytes@.take(i as int)),
        decreases bytes@.len() - i,
    {
        let b = bytes[i];
        push_hex_digit(&mut out, b / 16);
        push_hex_digit(&mut out, b % 16);
        proof {
            let pre = bytes@.take(i as int);
            let post = bytes@.take(i + 1);
            assert(post.drop_last() =~= pre);
            assert(post.last() == bytes@[i as int]);
            assert(out@ =~= hex_of(post));
        }
        i = i + 1;
    }
    proof {
        assert(bytes@.take(bytes@.len() as int) =~= bytes@);
        lemma_hex_of_len(bytes@);
    }
    out
}

fn classify_char(c: char) -> (r: (bool, bool))
    ensures
        r.0 == is_hex_char(c),
        r.1 == (r.0 && 65 <= c as u32 <= 70),
{
    let u = c as u32;
    let hex = (48 <= u && u <= 57) || (97 <= u && u <= 102) || (65 <= u && u <= 70);
    (hex, hex && 65 <= u && u <= 70)
}

/// Whether every character of the string is a hexadecimal digit.
pub fn all_hex_chars(s: &str) -> (r: bool)
    ensures
        r == forall|i: int| 0 <= i < s@.len() ==> is_hex_char(#[trigger] s@[i]),
{
    let n = s.unicode_len();
    let mut i: usize = 0;
    while i < n
        invariant
            n == s@.len(),
            i <= n,
            forall|j: int| 0 <= j < i ==> is_hex_char(#[trigger] s@[j]),
        decreases n - i,
    {
        let c = s.get_char(i);
        let (hex, _) = classify_char(c);
        if !hex {
            return false;
        }
        i = i + 1;
    }
    true
}

/// Case-folds the hexadecimal letters of a string to lowercase.
pub fn to_lower_hex(s: &str) -> (r: String)
    ensures
        r@ == lower_hex(s@),
{
    let n = s.unicode_len();
    let mut out = String::new();
    let mut i: usize = 0;
    while i < n
        invariant
            n == s@.len(),
            i <= n,
            out@ == lower_hex(s@.take(i as int)),
        decreases n - i,
    {
        let c = s.get_char(i);
        let u = c as u32;
        let lc: char = if 65 <= u && u <= 70 {
            ((u + 32) as u8) as char
        } else {
            c
        };
        assert(lc == lower_hex_char(c));
        push_char(&mut out, lc);
        proof {
            assert(out@ =~= lower_hex(s@.take(i + 1)));
        }
        i = i + 1;
    }
    proof {
        assert(s@.take(s@.len() as int) =~= s@);
    }
    out
}

pub proof fn lemma_hex_of_is_lower(bytes: Seq<u8>)
    ensures
        forall|i: int|
            0 <= i < hex_of(bytes).len() ==> is_lower_hex_char(#[trigger] hex_of(bytes)[i]),
    decreases bytes.len(),
{
    if bytes.len() > 0 {
        lemma_hex_of_is_lower(bytes.drop_last());
        lemma_hex_of_len(bytes.drop_last());
    }
}

} // verus!

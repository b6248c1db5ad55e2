use vstd::prelude::*;

use crate::errors::GenerationError;
use rand::seq::SliceRandom;

verus! {

/// Lowercase letters, always part of the alphabet.
pub open spec fn is_lowercase_letter(c: char) -> bool {
    'a' <= c && c <= 'z'
}

/// Uppercase letters, offered behind a flag.
pub open spec fn is_uppercase_letter(c: char) -> bool {
    'A' <= c && c <= 'Z'
}

/// Decimal digits, offered behind a flag.
pub open spec fn is_digit_char(c: char) -> bool {
    '0' <= c && c <= '9'
}

/// The fixed symbol set offered behind a flag.
pub open spec fn is_symbol_char(c: char) -> bool {
    ||| c == '!'
    ||| c == '@'
    ||| c == '#'
    ||| c == '$'
    ||| c == '%'
    ||| c == '^'
    ||| c == '&'
    ||| c == '*'
    ||| c == '?'
}

/// The alphabet composed for a flag combination: lowercase letters are always
/// included; uppercase letters, digits and symbols only when asked for.
pub open spec fn in_alphabet(c: char, upper: bool, digits: bool, symbols: bool) -> bool {
    ||| is_lowercase_letter(c)
    ||| (upper && is_uppercase_letter(c))
    ||| (digits && is_digit_char(c))
    ||| (symbols && is_symbol_char(c))
}

/// Relies on rand's `SliceRandom::choose` with `thread_rng` (a
/// cryptographically secure generator): returns one element of the non-empty
/// slice, chosen uniformly.
#[verifier::external_body]
fn choose_char(chars: &Vec<char>) -> (c: char)
    requires
        chars@.len() > 0,
    ensures
        chars@.contains(c),
{
    *chars.as_slice().choose(&mut rand::thread_rng()).unwrap()
}

/// Relies on `String::push`: appends exactly one character.
#[verifier::external_body]
fn push_char(s: &mut String, c: char)
    ensures
        final(s)@ == old(s)@.push(c),
{
    s.push(c);
}

/// Builds the candidate alphabet for the given flags: a non-empty vector
/// whose characters are exactly the admissible ones.
fn compose_alphabet(want_upper: bool, want_number: bool, want_symbol: bool) -> (r: Vec<char>)
    ensures
        r@.len() > 0,
        forall|i: int|
            0 <= i < r@.len() ==> in_alphabet(#[trigger] r@[i], want_upper, want_number, want_symbol),
{
    let mut chars: Vec<char> = Vec::new();
    let mut b: u8 = 97;
    while b <= 122
        invariant
            97 <= b <= 123,
            chars@.len() == b - 97,
            forall|i: int|
                0 <= i < chars@.len() ==> is_lowercase_letter(#[trigger] chars@[i]),
        decreases 123 - b,
    {
        chars.push(b as char);
        b = b + 1;
    }
    if want_upper {
        let mut u: u8 = 65;
        while u <= 90
            invariant
                want_upper,
                65 <= u <= 91,
                chars@.len() > 0,
                forall|i: int|
                    0 <= i < chars@.len() ==> in_alphabet(
                        #[trigger] chars@[i],
                        want_upper,
                        want_number,
                        want_symbol,
                    ),
            decreases 91 - u,
        {
            chars.push(u as char);
            u = u + 1;
        }
    }
    if want_number {
        let mut d: u8 = 48;
        while d <= 57
            invariant
                want_number,
                48 <= d <= 58,
                chars@.len() > 0,
                forall|i: int|
                    0 <= i < chars@.len() ==> in_alphabet(
                        #[trigger] chars@[i],
                        want_upper,
                        want_number,
                        want_symbol,
                    ),
            decreases 58 - d,
    {
            chars.push(d as char);
            d = d + 1;
        }
    }
    if want_symbol {
        chars.push('!');
        chars.push('@');
        chars.push('#');
        chars.push('$');
        chars.push('%');
        chars.push('^');
        chars.push('&');
        chars.push('*');
        chars.push('?');
    }
    chars
}

/// Generates a password of exactly `length` characters, each sampled
/// independently (with replacement) from the alphabet the flags compose.
/// Lowercase letters are always candidates; with all three flags false the
/// alphabet is lowercase-only, which is valid, not an error. A non-positive
/// length is rejected with `GenerationError::InvalidLength`. No character
/// class is guaranteed to actually appear in the output.
pub fn generate_password(
    length: i32,
    want_upper: bool,
    want_number: bool,
    want_symbol: bool,
) -> (r: Result<String, GenerationError>)
    ensures
        length <= 0 <==> r == Err::<String, GenerationError>(GenerationError::InvalidLength),
        r matches Ok(p) ==> p@.len() == length,
        r matches Ok(p) ==> forall|i: int|
            0 <= i < p@.len() ==> in_alphabet(#[trigger] p@[i], want_upper, want_number, want_symbol),
        r matches Ok(p) ==> ((!want_upper && !want_number && !want_symbol) ==> forall|i: int|
            0 <= i < p@.len() ==> is_lowercase_letter(#[trigger] p@[i])),
{
    if length <= 0 {
        return Err(GenerationError::InvalidLength);
    }
    let alphabet = compose_alphabet(want_upper, want_number, want_symbol);
    let mut out = String::new();
    let mut i: i32 = 0;
    while i < length
        invariant
            0 <= i <= length,
            out@.len() == i,
            forall|j: int|
                0 <= j < out@.len() ==> in_alphabet(
                    #[trigger] out@[j],
                    want_upper,
                    want_number,
                    want_symbol,
                ),
            alphabet@.len() > 0,
            forall|k: int|
                0 <= k < alphabet@.len() ==> in_alphabet(
                    #[trigger] alphabet@[k],
                    want_upper,
                    want_number,
                    want_symbol,
                ),
        decreases length - i,
    {
        let c = choose_char(&alphabet);
        proof {
            let k = choose|k: int| 0 <= k < alphabet@.len() && alphabet@[k] == c;
            assert(in_alphabet(alphabet@[k], want_upper, want_number, want_symbol));
        }
        push_char(&mut out, c);
        i = i + 1;
    }
    Ok(out)
}

} // verus!

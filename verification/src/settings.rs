//! Defaults of the reader settings, command-line flags and the pairing PIN.
use vstd::prelude::*;
use crate::text::{all_digits, chars_eq, chars_of, decimal, padded_decimal_chars, string_of, zero_pad};
use rand::RngCore;

verus! {

/// Default first-line indent of paragraphs, in characters.
pub fn default_text_indent() -> (n: u8)
    ensures
        n == 2,
{
    2
}

/// Whether the reader toolbar is shown by default.
pub fn default_reader_toolbar_visible() -> (b: bool)
    ensures
        !b,
{
    false
}

/// The argument turns on debug logging.
pub open spec fn is_debug_flag(arg: Seq<char>) -> bool {
    arg == "--debug"@ || arg == "-d"@
}

/// Whether the command-line arguments (without the program name) ask for
/// debug logging: any of them is `--debug` or `-d`.
pub fn debug_enabled_from_args(args: &[&str]) -> (b: bool)
    ensures
        b == exists|i: int| 0 <= i < args.len() && is_debug_flag(#[trigger] args@[i]@),
{
    let mut i: usize = 0;
    while i < args.len()
        invariant
            i <= args.len(),
            forall|j: int| 0 <= j < i ==> !is_debug_flag(#[trigger] args@[j]@),
        decreases args.len() - i,
    {
        let a = chars_of(args[i]);
        if chars_eq(&a, &chars_of("--debug")) || chars_eq(&a, &chars_of("-d")) {
            assert(is_debug_flag(args@[i as int]@));
            return true;
        }
        i = i + 1;
    }
    false
}

/// The PIN made from a random number: its last four decimal digits,
/// zero-padded.
pub open spec fn pin_text(val: u32) -> Seq<char> {
    zero_pad(decimal((val % 10000) as nat), 4)
}

/// The four-digit PIN for the random number `val`.
pub fn pin_from_random(val: u32) -> (s: String)
    ensures
        s@ == pin_text(val),
{
    string_of(&padded_decimal_chars((val % 10000) as u64, 4))
}

/// Four bytes from the operating system's generator, filled by
/// `RngCore::try_fill_bytes` on `rand::rngs::OsRng` and read as a
/// little-endian `u32` (as `next_u32` reads them); None when the generator
/// reports an error. Nothing is promised of the value.
#[verifier::external_body]
fn os_random_u32() -> (r: Option<u32>) {
    let mut bytes = [0u8; 4];
    match rand::rngs::OsRng.try_fill_bytes(&mut bytes) {
        Ok(()) => Some(u32::from_le_bytes(bytes)),
        Err(_) => None,
    }
}

proof fn lemma_decimal_digits(n: nat)
    ensures
        all_digits(decimal(n)),
        decimal(n).len() >= 1,
        n < 10 ==> decimal(n).len() <= 1,
        n < 100 ==> decimal(n).len() <= 2,
        n < 1000 ==> decimal(n).len() <= 3,
        n < 10000 ==> decimal(n).len() <= 4,
    decreases n,
{
    if n >= 10 {
        lemma_decimal_digits(n / 10);
    }
}

/// A random four-digit pairing PIN: the PIN of a number drawn from the
/// operating system's generator, or None when the generator fails.
pub fn generate_pin() -> (r: Option<String>)
    ensures
        r matches Some(s) ==> (exists|v: u32| s@ == pin_text(v)) && s@.len() == 4 && all_digits(s@),
{
    let v = match os_random_u32() {
        Some(v) => v,
        None => {
            return None;
        },
    };
    let s = pin_from_random(v);
    proof {
        lemma_decimal_digits((v % 10000) as nat);
        let d = decimal((v % 10000) as nat);
        let z = zero_pad(d, 4);
        assert forall|i: int| 0 <= i < z.len() implies crate::text::is_digit(#[trigger] z[i]) by {
            if i < 4 - d.len() {
            } else {
                assert(z[i] == d[i - (4 - d.len())]);
            }
        }
    }
    Some(s)
}

} // verus!

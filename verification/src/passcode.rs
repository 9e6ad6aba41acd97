//! The passcode: the short secret that pairs one sender with one receiver.

use vstd::prelude::*;
use vstd::string::StrSliceExecFns;
use vstd::string::StringExecFns;
use crate::error::FileTransferError;
use crate::wire::same_bytes;

verus! {

/// The number of characters of a passcode.
pub const PASSCODE_LENGTH: usize = 6;

/// The number of characters that a passcode is drawn from.
pub const CHARSET_LENGTH: usize = 10;

/// The characters that a passcode is drawn from, in drawing order.
pub open spec fn charset() -> Seq<char> {
    seq!['1', '2', '3', '4', '5', '6', '7', '8', '9', '0']
}

/// The alphabet of a passcode: the ASCII letters and digits.
pub open spec fn in_alphabet(c: char) -> bool {
    ||| '0' <= c <= '9'
    ||| 'a' <= c <= 'z'
    ||| 'A' <= c <= 'Z'
}

/// A passcode is valid when it has exactly `PASSCODE_LENGTH` characters, all
/// of them in the alphabet.
pub open spec fn valid_passcode(s: Seq<char>) -> bool {
    &&& s.len() == PASSCODE_LENGTH
    &&& forall|i: int| 0 <= i < s.len() ==> in_alphabet(#[trigger] s[i])
}

/// Whether `c` belongs to the alphabet of a passcode.
pub fn is_alphabet_char(c: char) -> (r: bool)
    ensures
        r == in_alphabet(c),
{
    (c >= '0' && c <= '9') || (c >= 'a' && c <= 'z') || (c >= 'A' && c <= 'Z')
}

/// Checks a passcode as typed by the operator. It is accepted exactly when
/// it is valid; nothing else is looked at.
pub fn validate_passcode(passcode: &str) -> (r: Result<(), FileTransferError>)
    ensures
        valid_passcode(passcode@) ==> r == Ok::<(), FileTransferError>(()),
        !valid_passcode(passcode@) ==> r == Err::<(), FileTransferError>(
            FileTransferError::InvalidPasscode,
        ),
{
    if passcode.unicode_len() != PASSCODE_LENGTH {
        return Err(FileTransferError::InvalidPasscode);
    }
    let mut i: usize = 0;
    while i < PASSCODE_LENGTH
        invariant
            i <= PASSCODE_LENGTH,
            passcode@.len() == PASSCODE_LENGTH,
            forall|j: int| 0 <= j < i ==> in_alphabet(#[trigger] passcode@[j]),
        decreases PASSCODE_LENGTH - i,
    {
        let c = passcode.get_char(i);
        if !is_alphabet_char(c) {
            return Err(FileTransferError::InvalidPasscode);
        }
        i += 1;
    }
    Ok(())
}

/// The character of the charset at position `index`, as a string of its
/// own.
fn charset_text(index: usize) -> (text: &'static str)
    requires
        index < CHARSET_LENGTH,
    ensures
        text@ == seq![charset()[index as int]],
{
    proof {
        reveal_strlit("1");
        reveal_strlit("2");
        reveal_strlit("3");
        reveal_strlit("4");
        reveal_strlit("5");
        reveal_strlit("6");
        reveal_strlit("7");
        reveal_strlit("8");
        reveal_strlit("9");
        reveal_strlit("0");
    }
    match index {
        0 => "1",
        1 => "2",
        2 => "3",
        3 => "4",
        4 => "5",
        5 => "6",
        6 => "7",
        7 => "8",
        8 => "9",
        _ => "0",
    }
}

/// Draws an index below `bound`, by `rand::thread_rng` and `Rng::gen_range`
/// on `0..bound`. Only the range of the result is claimed; which index comes
/// out differs from call to call.
#[verifier::external_body]
fn random_index(bound: usize) -> (index: usize)
    requires
        bound > 0,
    ensures
        index < bound,
{
    rand::Rng::gen_range(&mut rand::thread_rng(), 0..bound)
}

/// The passcode spelled by a row of draws: each draw, taken modulo the
/// charset's length, picks one character of the charset.
pub fn passcode_from_draws(draws: &Vec<usize>) -> (passcode: String)
    ensures
        passcode@.len() == draws@.len(),
        forall|i: int|
            0 <= i < draws@.len() ==> #[trigger] passcode@[i] == charset()[(draws@[i]
                % CHARSET_LENGTH) as int],
{
    let mut passcode = String::new();
    let mut i: usize = 0;
    while i < draws.len()
        invariant
            i <= draws@.len(),
            passcode@.len() == i,
            forall|j: int|
                0 <= j < i ==> #[trigger] passcode@[j] == charset()[(draws@[j]
                    % CHARSET_LENGTH) as int],
        decreases draws@.len() - i,
    {
        passcode.append(charset_text(draws[i] % CHARSET_LENGTH));
        i += 1;
    }
    passcode
}

/// Every string of `PASSCODE_LENGTH` characters of the charset is a valid
/// passcode.
pub proof fn lemma_charset_passcode_is_valid(s: Seq<char>)
    requires
        s.len() == PASSCODE_LENGTH,
        forall|i: int| 0 <= i < s.len() ==> charset().contains(#[trigger] s[i]),
    ensures
        valid_passcode(s),
{
    assert forall|i: int| 0 <= i < s.len() implies in_alphabet(#[trigger] s[i]) by {
        assert(charset().contains(s[i]));
        let k = choose|k: int| 0 <= k < charset().len() && charset()[k] == s[i];
        assert(in_alphabet(charset()[k]));
    }
}

/// A string of another length, or with a character outside the alphabet,
/// is no valid passcode.
pub proof fn lemma_invalid_passcodes(s: Seq<char>)
    requires
        s.len() != PASSCODE_LENGTH || exists|i: int| 0 <= i < s.len() && !in_alphabet(s[i]),
    ensures
        !valid_passcode(s),
{
}

/// Draws a fresh passcode: `PASSCODE_LENGTH` characters of the charset, each
/// picked by one random draw. Whatever is drawn, the result is a passcode
/// that `validate_passcode` accepts.
pub fn generate_passcode() -> (passcode: String)
    ensures
        passcode@.len() == PASSCODE_LENGTH,
        forall|i: int| 0 <= i < passcode@.len() ==> charset().contains(#[trigger] passcode@[i]),
        valid_passcode(passcode@),
{
    let mut draws: Vec<usize> = Vec::new();
    let mut i: usize = 0;
    while i < PASSCODE_LENGTH
        invariant
            i <= PASSCODE_LENGTH,
            draws@.len() == i,
        decreases PASSCODE_LENGTH - i,
    {
        let index = random_index(CHARSET_LENGTH);
        draws.push(index);
        i += 1;
    }
    let passcode = passcode_from_draws(&draws);
    proof {
        assert forall|i: int| 0 <= i < passcode@.len() implies charset().contains(
            #[trigger] passcode@[i],
        ) by {
            let k = (draws@[i] % CHARSET_LENGTH) as int;
            assert(charset()[k] == passcode@[i]);
        }
        lemma_charset_passcode_is_valid(passcode@);
    }
    passcode
}

/// Whether the bytes a peer presented are, byte for byte, the passcode.
pub fn passcode_matches(expected: &Vec<u8>, presented: &Vec<u8>) -> (r: bool)
    ensures
        r == (expected@ == presented@),
{
    same_bytes(expected, presented)
}

} // verus!

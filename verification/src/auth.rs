//! API keys: how one is made, kept, revoked and judged.

use crate::db::{MemoryDb, Query, Reply};
use vstd::prelude::*;

verus! {

/// How many bytes of entropy a key carries at the least: 128 bits.
pub const KEY_ENTROPY_BYTES: usize = 16;

/// Why no key could be made.
#[derive(Clone, Copy, Debug, PartialEq, Eq, Structural)]
pub enum GenerationError {
    /// The system's entropy source gave nothing.
    EntropyUnavailable,
    /// Fewer than [`KEY_ENTROPY_BYTES`] bytes of entropy were offered.
    InsufficientEntropy,
    /// The key made is held already.
    Collision,
}

/// The durable medium could not carry out what was asked of it.
#[derive(Clone, Copy, Debug, PartialEq, Eq, Structural)]
pub struct StorageError;

/// Why no key was issued.
#[derive(Clone, Copy, Debug, PartialEq, Eq, Structural)]
pub enum IssueError {
    Generation(GenerationError),
    Storage(StorageError),
}

/// The character that stands for `n`, a number below 16, in a key.
pub open spec fn hex_digit(n: int) -> char {
    if n == 0 {
        '0'
    } else if n == 1 {
        '1'
    } else if n == 2 {
        '2'
    } else if n == 3 {
        '3'
    } else if n == 4 {
        '4'
    } else if n == 5 {
        '5'
    } else if n == 6 {
        '6'
    } else if n == 7 {
        '7'
    } else if n == 8 {
        '8'
    } else if n == 9 {
        '9'
    } else if n == 10 {
        'a'
    } else if n == 11 {
        'b'
    } else if n == 12 {
        'c'
    } else if n == 13 {
        'd'
    } else if n == 14 {
        'e'
    } else {
        'f'
    }
}

/// The half of `byte` that the character at `position` stands for: the high
/// half at an even position, the low half at an odd one.
pub open spec fn nibble(byte: u8, position: int) -> int {
    if position % 2 == 0 {
        byte as int / 16
    } else {
        byte as int % 16
    }
}

/// The key that `entropy` reads as: two characters for each byte, the high
/// half first.
pub open spec fn hex_encoding(entropy: Seq<u8>) -> Seq<char> {
    Seq::new(2 * entropy.len(), |i: int| hex_digit(nibble(entropy[i / 2], i)))
}

/// Whether `key` is what some [`KEY_ENTROPY_BYTES`] bytes of entropy read as.
pub open spec fn is_fresh_key(key: Seq<char>) -> bool {
    exists|entropy: Seq<u8>|
        entropy.len() == KEY_ENTROPY_BYTES && key == #[trigger] hex_encoding(entropy)
}

/// Whether `c` is one of the sixteen characters that keys are written in.
pub open spec fn is_key_char(c: char) -> bool {
    ('0' <= c && c <= '9') || ('a' <= c && c <= 'f')
}

/// A key is printable: it is twice as long as its entropy, and each of its
/// characters is a digit or a letter from `a` to `f`.
pub proof fn lemma_key_is_printable(entropy: Seq<u8>)
    ensures
        hex_encoding(entropy).len() == 2 * entropy.len(),
        forall|i: int|
            0 <= i < hex_encoding(entropy).len() ==> is_key_char(
                #[trigger] hex_encoding(entropy)[i],
            ),
{
}

/// Different entropy never reads as the same key: a key carries all of the
/// entropy it was made of.
pub proof fn lemma_key_determines_entropy(first: Seq<u8>, second: Seq<u8>)
    requires
        hex_encoding(first) == hex_encoding(second),
    ensures
        first == second,
{
    assert(hex_encoding(first).len() == 2 * first.len());
    assert(hex_encoding(second).len() == 2 * second.len());
    assert(first.len() == second.len());
    assert forall|i: int| 0 <= i < first.len() implies first[i] == second[i] by {
        let a = first[i] as int;
        let b = second[i] as int;
        assert((2 * i) / 2 == i && (2 * i) % 2 == 0);
        assert((2 * i + 1) / 2 == i && (2 * i + 1) % 2 == 1);
        assert(hex_encoding(first)[2 * i] == hex_digit(nibble(first[i], 2 * i)));
        assert(hex_encoding(second)[2 * i] == hex_digit(nibble(second[i], 2 * i)));
        assert(hex_encoding(first)[2 * i + 1] == hex_digit(nibble(first[i], 2 * i + 1)));
        assert(hex_encoding(second)[2 * i + 1] == hex_digit(nibble(second[i], 2 * i + 1)));
        assert(hex_digit(a / 16) == hex_digit(b / 16));
        assert(hex_digit(a % 16) == hex_digit(b % 16));
        assert(0 <= a / 16 < 16 && 0 <= b / 16 < 16);
        assert(a / 16 == b / 16);
        assert(a % 16 == b % 16);
    }
    assert(first =~= second);
}

/// The text of one key character.
fn digit_text(n: u8) -> (text: &'static str)
    requires
        n < 16,
    ensures
        text@ == seq![hex_digit(n as int)],
{
    proof {
        reveal_strlit("0");
        reveal_strlit("1");
        reveal_strlit("2");
        reveal_strlit("3");
        reveal_strlit("4");
        reveal_strlit("5");
        reveal_strlit("6");
        reveal_strlit("7");
        reveal_strlit("8");
        reveal_strlit("9");
        reveal_strlit("a");
        reveal_strlit("b");
        reveal_strlit("c");
        reveal_strlit("d");
        reveal_strlit("e");
        reveal_strlit("f");
    }
    let text = match n {
        0 => "0",
        1 => "1",
        2 => "2",
        3 => "3",
        4 => "4",
        5 => "5",
        6 => "6",
        7 => "7",
        8 => "8",
        9 => "9",
        10 => "a",
        11 => "b",
        12 => "c",
        13 => "d",
        14 => "e",
        _ => "f",
    };
    assert(text@ =~= seq![hex_digit(n as int)]);
    text
}

/// Makes a key out of `entropy`. Entropy of fewer than
/// [`KEY_ENTROPY_BYTES`] bytes is refused.
pub fn key_from_entropy(entropy: &[u8]) -> (made: Result<String, GenerationError>)
    ensures
        entropy@.len() < KEY_ENTROPY_BYTES ==> made == Err::<String, GenerationError>(
            GenerationError::InsufficientEntropy,
        ),
        entropy@.len() >= KEY_ENTROPY_BYTES ==> made is Ok && made->Ok_0@ == hex_encoding(
            entropy@,
        ),
{
    if entropy.len() < KEY_ENTROPY_BYTES {
        return Err(GenerationError::InsufficientEntropy);
    }
    let mut key = String::new();
    let mut i: usize = 0;
    while i < entropy.len()
        invariant
            i <= entropy@.len(),
            key@.len() == 2 * i,
            forall|j: int| 0 <= j < 2 * i ==> key@[j] == hex_encoding(entropy@)[j],
        decreases entropy@.len() - i,
    {
        let byte = entropy[i];
        let ghost before = key@;
        key.append(digit_text(byte / 16));
        key.append(digit_text(byte % 16));
        proof {
            assert(key@ =~= before.push(hex_digit(byte as int / 16)).push(
                hex_digit(byte as int % 16),
            ));
            assert((2 * i) / 2 == i && (2 * i) % 2 == 0);
            assert((2 * i + 1) / 2 == i && (2 * i + 1) % 2 == 1);
        }
        i = i + 1;
    }
    assert(key@ =~= hex_encoding(entropy@));
    Ok(key)
}

/// The error of the `getrandom` crate, carried through unread.
#[verifier::external_type_specification]
#[verifier::external_body]
pub struct ExEntropyError(getrandom::Error);

/// Calls `getrandom::getrandom` on the whole of `buffer`: the system's
/// random number source overwrites the bytes in place, or an error comes
/// back. Claimed: the buffer keeps its length. Nothing is claimed of the
/// bytes, nor of when the call succeeds.
#[verifier::external_body]
fn fill_with_entropy(buffer: &mut Vec<u8>) -> (filled: Result<(), getrandom::Error>)
    ensures
        final(buffer)@.len() == old(buffer)@.len(),
{
    getrandom::getrandom(buffer.as_mut_slice())
}

/// Makes a key out of what a draw from the random number source left in
/// `buffer`. A draw that failed gives no key, whatever the buffer holds; a
/// draw that succeeded gives the key that the buffer reads as.
pub fn key_of_draw(filled: Result<(), getrandom::Error>, buffer: &[u8]) -> (made: Result<
    String,
    GenerationError,
>)
    ensures
        filled is Err ==> made == Err::<String, GenerationError>(
            GenerationError::EntropyUnavailable,
        ),
        filled is Ok && buffer@.len() < KEY_ENTROPY_BYTES ==> made == Err::<
            String,
            GenerationError,
        >(GenerationError::InsufficientEntropy),
        filled is Ok && buffer@.len() >= KEY_ENTROPY_BYTES ==> made is Ok && made->Ok_0@
            == hex_encoding(buffer@),
{
    match filled {
        Ok(_) => key_from_entropy(buffer),
        Err(_) => Err(GenerationError::EntropyUnavailable),
    }
}

/// Makes a key out of [`KEY_ENTROPY_BYTES`] bytes drawn from the system's
/// random number source. Which key comes out, and whether the draw
/// succeeds, is not foreseeable; [`key_of_draw`] says what each outcome of
/// the draw leads to.
pub fn create_api_key() -> (made: Result<String, GenerationError>)
    ensures
        match made {
            Ok(key) => is_fresh_key(key@),
            Err(e) => e == GenerationError::EntropyUnavailable,
        },
{
    let mut buffer: Vec<u8> = vec![0u8; KEY_ENTROPY_BYTES];
    let filled = fill_with_entropy(&mut buffer);
    key_of_draw(filled, buffer.as_slice())
}

/// What the medium's answer to a store query means for the key.
pub open spec fn stored_of(reply: Reply) -> Result<(), IssueError> {
    match reply {
        Reply::Stored => Ok(()),
        Reply::Duplicate => Err(IssueError::Generation(GenerationError::Collision)),
        _ => Err(IssueError::Storage(StorageError)),
    }
}

/// What the medium's answer to a check query means for the key.
pub open spec fn access_of(reply: Reply) -> Result<bool, StorageError> {
    match reply {
        Reply::Allowed(allowed) => Ok(allowed),
        _ => Err(StorageError),
    }
}

/// Reads the medium's answer to a store query: the key is issued only if
/// the medium took it as a new one. A key held already is a collision; any
/// other answer is a failure of the medium.
pub fn stored(reply: Reply) -> (outcome: Result<(), IssueError>)
    ensures
        outcome == stored_of(reply),
{
    match reply {
        Reply::Stored => Ok(()),
        Reply::Duplicate => Err(IssueError::Generation(GenerationError::Collision)),
        _ => Err(IssueError::Storage(StorageError)),
    }
}

/// Reads the medium's answer to a check query. Any answer but a plain yes
/// or no is a failure of the medium, never a no.
pub fn access(reply: Reply) -> (outcome: Result<bool, StorageError>)
    ensures
        outcome == access_of(reply),
{
    match reply {
        Reply::Allowed(allowed) => Ok(allowed),
        _ => Err(StorageError),
    }
}

/// Keeps `key` in `db` as an allowed key. Either the key is new and held
/// afterwards, or nothing has changed.
pub fn store_api_key(db: &mut MemoryDb, key: &str) -> (outcome: Result<(), IssueError>)
    ensures
        final(db).online() == old(db).online(),
        outcome == (if !old(db).online() {
            Err::<(), IssueError>(IssueError::Storage(StorageError))
        } else if old(db)@.allowed.contains(key@) {
            Err::<(), IssueError>(IssueError::Generation(GenerationError::Collision))
        } else {
            Ok::<(), IssueError>(())
        }),
        final(db)@ == (if outcome is Ok {
            old(db)@.with_key(key@)
        } else {
            old(db)@
        }),
{
    let query = Query::StoreApiKey { api_key: String::from_str(key) };
    let reply = db.execute(&query);
    proof {
        if old(db).online() && old(db)@.allowed.contains(key@) {
            assert(old(db)@.allowed.insert(key@) =~= old(db)@.allowed);
        }
    }
    stored(reply)
}

/// Issues a key: makes one and keeps it in `db` before handing it out. A key
/// comes back only if it is new to `db` and held afterwards; on any failure
/// nothing has changed.
pub fn issue_api_key(db: &mut MemoryDb) -> (issued: Result<String, IssueError>)
    ensures
        final(db).online() == old(db).online(),
        match issued {
            Ok(key) => {
                &&& old(db).online()
                &&& is_fresh_key(key@)
                &&& !old(db)@.allowed.contains(key@)
                &&& final(db)@ == old(db)@.with_key(key@)
            },
            Err(e) => {
                &&& final(db)@ == old(db)@
                &&& match e {
                    IssueError::Storage(_) => !old(db).online(),
                    IssueError::Generation(GenerationError::Collision) => old(db).online(),
                    IssueError::Generation(GenerationError::EntropyUnavailable) => true,
                    IssueError::Generation(GenerationError::InsufficientEntropy) => false,
                }
            },
        },
{
    match create_api_key() {
        Ok(key) => match store_api_key(db, key.as_str()) {
            Ok(_) => Ok(key),
            Err(e) => Err(e),
        },
        Err(e) => Err(IssueError::Generation(e)),
    }
}

/// Takes `key` off the allow-list of `db`. A key that was never held, or is
/// held no more, is revoked as silently as one that is held.
pub fn revoke_api_key(db: &mut MemoryDb, key: &str) -> (outcome: Result<(), StorageError>)
    ensures
        final(db).online() == old(db).online(),
        outcome is Ok <==> old(db).online(),
        final(db)@ == (if outcome is Ok {
            old(db)@.without_key(key@)
        } else {
            old(db)@
        }),
{
    let query = Query::RevokeApiKey { api_key: String::from_str(key) };
    let reply = db.execute(&query);
    crate::delete_api_key(reply)
}

/// Whether `key`, character for character, is on the allow-list of `db`.
pub fn is_key_allowed_access(db: &mut MemoryDb, key: &str) -> (outcome: Result<
    bool,
    StorageError,
>)
    ensures
        final(db).online() == old(db).online(),
        final(db)@ == old(db)@,
        outcome == (if old(db).online() {
            Ok::<bool, StorageError>(old(db)@.allowed.contains(key@))
        } else {
            Err::<bool, StorageError>(StorageError)
        }),
{
    let query = Query::CheckApiKey { api_key: String::from_str(key) };
    let reply = db.execute(&query);
    access(reply)
}

} // verus!

//! API keys and the file that holds one.

use vstd::prelude::*;
use vstd::string::*;
use crate::text::{chars_of, decimal, push_u64, text_of, trim, trimmed};

verus! {

/// How many random bytes a key is made of.
pub const KEY_LENGTH: usize = 32;

/// The lower-case hexadecimal digit for `d`.
pub open spec fn hex_digit(d: int) -> char {
    if d < 10 {
        (48 + d) as char
    } else {
        (87 + d) as char
    }
}

/// The lower-case hexadecimal form of some bytes, two digits for each.
pub open spec fn hex(bytes: Seq<u8>) -> Seq<char>
    decreases bytes.len(),
{
    if bytes.len() == 0 {
        Seq::empty()
    } else {
        hex(bytes.drop_last()).push(hex_digit(bytes.last() as int / 16)).push(
            hex_digit(bytes.last() as int % 16),
        )
    }
}

fn digit(d: u8) -> (r: char)
    requires
        d < 16,
    ensures
        r == hex_digit(d as int),
{
    if d < 10 {
        (48u8 + d) as char
    } else {
        (87u8 + d) as char
    }
}

/// Encodes bytes in lower-case hexadecimal.
pub fn encode(bytes: Vec<u8>) -> (r: String)
    ensures
        r@ == hex(bytes@),
{
    let mut out = String::new();
    let mut i: usize = 0;
    assert(bytes@.take(0) =~= Seq::empty());
    assert(out@ =~= hex(bytes@.take(0)));
    while i < bytes.len()
        invariant
            i <= bytes.len(),
            out@ == hex(bytes@.take(i as int)),
        decreases bytes.len() - i,
    {
        let b: u8 = bytes[i];
        out.push(digit(b / 16));
        out.push(digit(b % 16));
        i = i + 1;
        assert(bytes@.take(i as int).drop_last() =~= bytes@.take(i - 1));
    }
    assert(bytes@.take(i as int) =~= bytes@);
    out
}

/// Calls `Rng::gen` of the `rand` crate on the generator of the thread. Which
/// byte comes is left to chance.
#[verifier::external_body]
fn random_byte() -> (r: u8)
{
    rand::Rng::gen(&mut rand::thread_rng())
}

/// Whether a text is a key: the hexadecimal form of as many bytes as a key has.
pub open spec fn is_key(key: Seq<char>) -> bool {
    exists|bytes: Seq<u8>| bytes.len() == KEY_LENGTH && key == #[trigger] hex(bytes)
}

/// A random API key.
pub fn generate_key() -> (r: String)
    ensures
        is_key(r@),
        r@.len() == 64,
{
    let mut bytes: Vec<u8> = Vec::new();
    while bytes.len() < KEY_LENGTH
        invariant
            bytes.len() <= KEY_LENGTH,
        decreases KEY_LENGTH - bytes.len(),
    {
        bytes.push(random_byte());
    }
    proof {
        hex_has_two_digits_for_each_byte(bytes@);
    }
    encode(bytes)
}

/// What is to be done about the key file.
#[derive(Debug)]
pub enum KeyChoice {
    /// The file holds a key: use it.
    Keep(String),
    /// Write a new key to the file, and use it.
    Create(String),
}

/// Chooses the key of a server, given what its key file holds, if there is one.
/// A file that holds nothing but whitespace gets a new key.
pub fn load_or_create_key(existing: Option<&str>) -> (r: KeyChoice)
    ensures
        match r {
            KeyChoice::Keep(key) => existing matches Some(text) && trimmed(text@).len() > 0
                && key@ == trimmed(text@),
            KeyChoice::Create(key) => (existing matches Some(text) ==> trimmed(text@).len() == 0)
                && is_key(key@),
        },
{
    if let Some(text) = existing {
        let key = trim(text);
        proof {
            reveal_strlit("");
            assert(key@.len() == 0 ==> key@ =~= ""@);
        }
        if !(*key.as_str() == *"") {
            return KeyChoice::Keep(key);
        }
    }
    KeyChoice::Create(generate_key())
}

/// The file that a key is written to before it takes its place: hidden, in the
/// same directory, and marked with the process and the first digits of a key.
pub open spec fn temporary(file_name: Option<Seq<char>>, process: int, mark: Seq<char>) -> Seq<
    char,
> {
    let name = match file_name {
        Some(name) => name,
        None => "auth.key"@,
    };
    "."@ + name + "."@ + decimal(process) + "."@ + mark.take(8) + ".tmp"@
}

/// Names the file that a key is written to before it takes its place.
pub fn temporary_name(file_name: Option<&str>, process: u32, mark: &str) -> (r: String)
    requires
        mark@.len() >= 8,
    ensures
        r@ == temporary(file_name.deep_view(), process as int, mark@),
{
    let name: &str = match file_name {
        Some(name) => name,
        None => "auth.key",
    };
    let chars = chars_of(mark);
    let start = text_of(&chars, 0, 8);
    assert(start@ =~= mark@.take(8));
    let mut out = ".".to_owned();
    out.append(name);
    out.append(".");
    push_u64(&mut out, process as u64);
    out.append(".");
    out.append(start.as_str());
    out.append(".tmp");
    out
}

/// The hexadecimal form has two digits for each byte.
pub proof fn hex_has_two_digits_for_each_byte(bytes: Seq<u8>)
    ensures
        hex(bytes).len() == 2 * bytes.len(),
    decreases bytes.len(),
{
    if bytes.len() > 0 {
        hex_has_two_digits_for_each_byte(bytes.drop_last());
    }
}

/// Different bytes have different hexadecimal forms.
pub proof fn hex_tells_bytes_apart(a: Seq<u8>, b: Seq<u8>)
    requires
        hex(a) == hex(b),
    ensures
        a == b,
    decreases a.len(),
{
    hex_has_two_digits_for_each_byte(a);
    hex_has_two_digits_for_each_byte(b);
    if a.len() > 0 {
        let x = hex(a);
        let y = hex(b);
        let n = x.len() as int;
        hex_has_two_digits_for_each_byte(a.drop_last());
        hex_has_two_digits_for_each_byte(b.drop_last());
        assert(x[n - 1] == y[n - 1]);
        assert(x[n - 2] == y[n - 2]);
        assert(x[n - 1] == hex_digit(a.last() as int % 16));
        assert(x[n - 2] == hex_digit(a.last() as int / 16));
        assert(y[n - 1] == hex_digit(b.last() as int % 16));
        assert(y[n - 2] == hex_digit(b.last() as int / 16));
        assert(a.last() == b.last());
        assert(hex(a.drop_last()) =~= x.take(n - 2));
        assert(hex(b.drop_last()) =~= y.take(n - 2));
        hex_tells_bytes_apart(a.drop_last(), b.drop_last());
        assert(a =~= a.drop_last().push(a.last()));
        assert(b =~= b.drop_last().push(b.last()));
    } else {
        assert(a =~= b);
    }
}

// --- What the calls do ---

/// The value of a hexadecimal digit, in lower case; less than zero for any other
/// character.
pub open spec fn hex_value(c: char) -> int {
    if '0' <= c <= '9' {
        c as int - '0' as int
    } else if 'a' <= c <= 'f' {
        c as int - 'a' as int + 10
    } else {
        -1
    }
}

proof fn lemma_hex_values(bytes: Seq<u8>)
    ensures
        hex(bytes).len() == 2 * bytes.len(),
        forall|i: int|
            0 <= i < bytes.len() ==> 16 * hex_value(#[trigger] hex(bytes)[2 * i]) + hex_value(
                hex(bytes)[2 * i + 1],
            ) == #[trigger] bytes[i] && 0 <= hex_value(hex(bytes)[2 * i]) < 16 && 0 <= hex_value(
                hex(bytes)[2 * i + 1],
            ) < 16,
    decreases bytes.len(),
{
    hex_has_two_digits_for_each_byte(bytes);
    if bytes.len() > 0 {
        let front = bytes.drop_last();
        lemma_hex_values(front);
        let h = hex(bytes);
        let n = front.len() as int;
        assert forall|i: int| 0 <= i < bytes.len() implies 16 * hex_value(#[trigger] h[2 * i])
            + hex_value(h[2 * i + 1]) == #[trigger] bytes[i] && 0 <= hex_value(h[2 * i]) < 16 && 0
            <= hex_value(h[2 * i + 1]) < 16 by {
            if i < n {
                assert(h[2 * i] == hex(front)[2 * i]);
                assert(h[2 * i + 1] == hex(front)[2 * i + 1]);
                assert(front[i] == bytes[i]);
            } else {
                let b = bytes.last() as int;
                assert(h[2 * n] == hex_digit(b / 16));
                assert(h[2 * n + 1] == hex_digit(b % 16));
                assert(b == 16 * (b / 16) + b % 16);
            }
        }
    }
}

proof fn lemma_key_digits(key: Seq<char>)
    requires
        is_key(key),
    ensures
        key.len() == 64,
        forall|i: int| 0 <= i < 64 ==> 0 <= hex_value(#[trigger] key[i]) < 16,
{
    let bytes = choose|bytes: Seq<u8>| bytes.len() == KEY_LENGTH && key == #[trigger] hex(bytes);
    lemma_hex_values(bytes);
    assert forall|i: int| 0 <= i < 64 implies 0 <= hex_value(#[trigger] key[i]) < 16 by {
        let j = i / 2;
        let b = bytes[j];
        assert(0 <= hex_value(hex(bytes)[2 * j]) < 16
            && 0 <= hex_value(hex(bytes)[2 * j + 1]) < 16);
        assert(i == 2 * j || i == 2 * j + 1);
    }
}

/// Every byte is encoded by two characters, its high half first, in digits and lower-case
/// letters.
pub proof fn bytes_are_encoded_by_two_digits(
    bytes: Vec<u8>,
    r: String,
)
    requires
        call_ensures(encode, (bytes,), r),
    ensures
        r@.len() == 2 * bytes@.len(),
        forall|i: int|
            0 <= i < bytes@.len() ==> 16 * hex_value(#[trigger] r@[2 * i])
                + hex_value(r@[2 * i + 1])
                == #[trigger] bytes@[i] && 0 <= hex_value(r@[2 * i]) < 16 && 0 <= hex_value(
                r@[2 * i + 1],
            ) < 16,
{
    lemma_hex_values(bytes@);
}

/// A key of the server is kept where its file holds one, without the whitespace around it;
/// otherwise a new one is made: sixty-four hexadecimal digits.
pub proof fn a_key_is_kept_where_there_is_one(
    existing: Option<&str>,
    r: KeyChoice,
)
    requires
        call_ensures(load_or_create_key, (existing,), r),
    ensures
        existing matches Some(text) ==> (trimmed(text@).len() > 0 ==> (r matches KeyChoice::Keep(
            key,
        ) && key@ == trimmed(text@))),
        r is Keep ==> (existing matches Some(text) && trimmed(text@).len() > 0),
        existing is None ==> r is Create,
        r matches KeyChoice::Create(key) ==> key@.len() == 64 && forall|i: int|
            0 <= i < 64 ==> 0 <= hex_value(#[trigger] key@[i]) < 16,
{
    if let KeyChoice::Create(key) = r {
        lemma_key_digits(key@);
    }
}

/// A new key is sixty-four hexadecimal digits.
pub proof fn a_new_key_is_hexadecimal(
    r: String,
)
    requires
        call_ensures(generate_key, (), r),
    ensures
        r@.len() == 64,
        forall|i: int| 0 <= i < 64 ==> 0 <= hex_value(#[trigger] r@[i]) < 16,
{
    lemma_key_digits(r@);
}

/// The temporary file is hidden and marked: a point, the name of the file or that of a key
/// file, the process, the first eight characters of the mark, and an ending.
pub proof fn a_temporary_file_is_hidden_and_marked(
    file_name: Option<&str>,
    process: u32,
    mark: &str,
    r: String,
)
    requires
        call_ensures(temporary_name, (file_name, process, mark), r),
        mark@.len() >= 8,
    ensures
        r@ == "."@ + (match file_name {
            Some(name) => name@,
            None => "auth.key"@,
        }) + "."@ + decimal(process as int) + "."@ + mark@.subrange(0, 8) + ".tmp"@,
{
    assert(mark@.take(8) =~= mark@.subrange(0, 8));
}

} // verus!

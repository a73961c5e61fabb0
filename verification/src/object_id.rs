//! Object names: the twenty bytes that identify a commit, and their forty
//! hexadecimal characters.

use crate::error::{ErrorKind, QueryError};
use vstd::prelude::*;

verus! {

/// Whether `c` is one of `0-9`, `a-f`, `A-F`.
pub open spec fn is_hex_digit(c: char) -> bool {
    ||| '0' <= c <= '9'
    ||| 'a' <= c <= 'f'
    ||| 'A' <= c <= 'F'
}

/// The number that a hexadecimal digit stands for.
pub open spec fn hex_value(c: char) -> int {
    if '0' <= c <= '9' {
        c as int - '0' as int
    } else if 'a' <= c <= 'f' {
        c as int - 'a' as int + 10
    } else {
        c as int - 'A' as int + 10
    }
}

/// The lower-case hexadecimal digit of a number below sixteen.
pub open spec fn hex_digit(n: int) -> char {
    if n < 10 {
        ('0' as int + n) as char
    } else {
        ('a' as int + n - 10) as char
    }
}

/// Whether `text` can name an object: one to forty hexadecimal digits.
pub open spec fn is_object_name(text: Seq<char>) -> bool {
    &&& 1 <= text.len() <= 40
    &&& forall|i: int| 0 <= i < text.len() ==> is_hex_digit(#[trigger] text[i])
}

/// The digit at position `p` of a name, zero past its end.
pub open spec fn name_digit(text: Seq<char>, p: int) -> int {
    if 0 <= p < text.len() {
        hex_value(text[p])
    } else {
        0
    }
}

/// The twenty bytes that a name stands for: two digits to a byte, the first
/// in the high half, a short name filled up with zeros.
pub open spec fn name_bytes(text: Seq<char>) -> Seq<u8> {
    Seq::new(20, |k: int| (name_digit(text, 2 * k) * 16 + name_digit(text, 2 * k + 1)) as u8)
}

/// The forty lower-case digits of twenty bytes.
pub open spec fn hex_text(bytes: Seq<u8>) -> Seq<char> {
    Seq::new(
        40,
        |i: int|
            if i % 2 == 0 {
                hex_digit(bytes[i / 2] as int / 16)
            } else {
                hex_digit(bytes[i / 2] as int % 16)
            },
    )
}

/// Parses a name with `git2::Oid::from_str` and hands out the bytes of the
/// id. The call fails on an empty text, on one of more than forty
/// characters and on any character that is no hexadecimal digit; otherwise
/// each digit fills half a byte from the front, and the rest stays zero.
#[verifier::external_body]
fn oid_from_str(text: &str) -> (r: Result<[u8; 20], git2::Error>)
    ensures
        r is Ok <==> is_object_name(text@),
        r matches Ok(bytes) ==> bytes@ == name_bytes(text@),
{
    let oid = git2::Oid::from_str(text)?;
    let mut bytes = [0u8; 20];
    bytes.copy_from_slice(oid.as_bytes());
    Ok(bytes)
}

/// Formats an id with the `Display` of `git2::Oid`: forty lower-case
/// hexadecimal digits, the high half of each byte first.
#[verifier::external_body]
fn oid_to_string(bytes: &[u8; 20]) -> (text: String)
    ensures
        text@ == hex_text(bytes@),
{
    match git2::Oid::from_bytes(bytes) {
        Ok(oid) => oid.to_string(),
        Err(_) => String::new(),
    }
}

/// The message of a `git2::Error`, from its `message` method.
#[verifier::external_body]
pub(crate) fn git_error_message(error: &git2::Error) -> (text: String) {
    error.message().to_string()
}

/// The name of an object in a repository.
#[derive(Clone, Copy, Debug, PartialEq, Eq, Hash)]
pub struct ObjectId {
    pub bytes: [u8; 20],
}

impl View for ObjectId {
    type V = Seq<u8>;

    open spec fn view(&self) -> Seq<u8> {
        self.bytes@
    }
}

impl ObjectId {
    /// The name made of these twenty bytes.
    pub fn from_bytes(bytes: [u8; 20]) -> (id: ObjectId)
        ensures
            id@ == bytes@,
    {
        ObjectId { bytes }
    }

    /// The twenty bytes of the name.
    pub fn as_bytes(&self) -> (bytes: [u8; 20])
        ensures
            bytes@ == self@,
    {
        self.bytes
    }

    /// Parses a revision given as hexadecimal digits. A text that cannot
    /// name an object does not resolve.
    pub fn parse(text: &str) -> (r: Result<ObjectId, QueryError>)
        ensures
            r is Ok <==> is_object_name(text@),
            r matches Ok(id) ==> id@ == name_bytes(text@),
            r matches Err(e) ==> e.kind == ErrorKind::RevisionResolution,
    {
        match oid_from_str(text) {
            Ok(bytes) => Ok(ObjectId { bytes }),
            Err(e) => Err(QueryError::new(ErrorKind::RevisionResolution, git_error_message(&e))),
        }
    }

    /// The forty hexadecimal digits of the name.
    pub fn to_hex(&self) -> (text: String)
        ensures
            text@ == hex_text(self@),
    {
        oid_to_string(&self.bytes)
    }

    /// Whether two names are the same.
    pub fn same(&self, other: &ObjectId) -> (b: bool)
        ensures
            b == (self@ == other@),
    {
        let mut i: usize = 0;
        while i < 20
            invariant
                i <= 20,
                forall|j: int| 0 <= j < i ==> self.bytes@[j] == other.bytes@[j],
            decreases 20 - i,
        {
            if self.bytes[i] != other.bytes[i] {
                return false;
            }
            i = i + 1;
        }
        assert(self@ =~= other@);
        true
    }
}

/// A number below sixteen and its digit stand for each other.
pub proof fn lemma_hex_digit_value(n: int)
    requires
        0 <= n < 16,
    ensures
        is_hex_digit(hex_digit(n)),
        hex_value(hex_digit(n)) == n,
        !('A' <= hex_digit(n) <= 'F'),
{
}

/// The text of a name is forty hexadecimal digits, none of them upper case.
pub proof fn law_hex_text_is_forty_digits(bytes: Seq<u8>)
    requires
        bytes.len() == 20,
    ensures
        hex_text(bytes).len() == 40,
        is_object_name(hex_text(bytes)),
        forall|i: int| 0 <= i < 40 ==> !('A' <= #[trigger] hex_text(bytes)[i] <= 'F'),
{
    assert forall|i: int| 0 <= i < 40 implies is_hex_digit(#[trigger] hex_text(bytes)[i]) && !('A'
        <= hex_text(bytes)[i] <= 'F') by {
        let b = bytes[i / 2] as int;
        lemma_hex_digit_value(b / 16);
        lemma_hex_digit_value(b % 16);
    }
}

/// Writing a name out and parsing the text gives the name back.
pub proof fn law_parse_inverts_hex(bytes: Seq<u8>)
    requires
        bytes.len() == 20,
    ensures
        is_object_name(hex_text(bytes)),
        name_bytes(hex_text(bytes)) == bytes,
{
    law_hex_text_is_forty_digits(bytes);
    let text = hex_text(bytes);
    assert forall|k: int| 0 <= k < 20 implies name_bytes(text)[k] == bytes[k] by {
        let b = bytes[k] as int;
        lemma_hex_digit_value(b / 16);
        lemma_hex_digit_value(b % 16);
        assert((2 * k) / 2 == k && (2 * k) % 2 == 0);
        assert((2 * k + 1) / 2 == k && (2 * k + 1) % 2 == 1);
        assert(text[2 * k] == hex_digit(b / 16));
        assert(text[2 * k + 1] == hex_digit(b % 16));
        assert(b / 16 * 16 + b % 16 == b);
    }
    assert(name_bytes(text) =~= bytes);
}

/// Two names are the same exactly when their texts are.
pub proof fn law_hex_text_tells_names_apart(a: Seq<u8>, b: Seq<u8>)
    requires
        a.len() == 20,
        b.len() == 20,
    ensures
        hex_text(a) == hex_text(b) <==> a == b,
{
    law_parse_inverts_hex(a);
    law_parse_inverts_hex(b);
}

} // verus!

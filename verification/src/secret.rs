//! Reduction of decrypted plaintext to the one value a caller may see:
//! its first line. Decryption itself is an external collaborator; it
//! hands this module the raw plaintext bytes and nothing is cached.
use vstd::prelude::*;
use vstd::string::StrSliceExecFns;
use vstd::string::StringExecFns;
use vstd::utf8::decode_utf8;
use vstd::utf8::valid_utf8;

verus! {

/// `line` is the first line of `text`: the longest newline-free prefix.
pub open spec fn is_first_line(line: Seq<char>, text: Seq<char>) -> bool {
    &&& line.len() <= text.len()
    &&& line == text.subrange(0, line.len() as int)
    &&& forall|j: int| 0 <= j < line.len() ==> text[j] != '\n'
    &&& line.len() < text.len() ==> text[line.len() as int] == '\n'
}

/// Relies on str::from_utf8: it succeeds exactly on valid UTF-8 and
/// returns the string those bytes encode.
#[verifier::external_body]
fn decode_plaintext(bytes: &Vec<u8>) -> (r: Option<String>)
    ensures
        (r is Some) == valid_utf8(bytes@),
        r matches Some(s) ==> s@ == decode_utf8(bytes@),
{
    match std::str::from_utf8(bytes.as_slice()) {
        Ok(s) => Some(s.to_owned()),
        Err(_) => None,
    }
}

/// The first line of a decrypted plaintext buffer, or nothing when the
/// buffer is not valid UTF-8.
pub fn first_line(bytes: &Vec<u8>) -> (r: Option<String>)
    ensures
        (r is Some) == valid_utf8(bytes@),
        r matches Some(s) ==> is_first_line(s@, decode_utf8(bytes@)),
{
    match decode_plaintext(bytes) {
        None => None,
        Some(full) => {
            let s = full.as_str();
            let n = s.unicode_len();
            let mut i: usize = 0;
            while i < n && s.get_char(i) != '\n'
                invariant
                    i <= n,
                    forall|j: int| 0 <= j < i ==> s@[j] != '\n',
                decreases n - i,
            {
                i += 1;
            }
            let line = s.substring_char(0, i);
            Some(String::from_str(line))
        },
    }
}

} // verus!

//! Null-terminated text: where a string ends, and what its bytes decode to.

use vstd::prelude::*;
use vstd::utf8::{decode_utf8, valid_utf8};

verus! {

/// The `len` bytes of `bytes` from `from` on are a string's text: none of them
/// is zero, and right behind them stands a zero or the end of `bytes`. Where
/// `from` lies at or beyond the end, only the empty text is one.
pub open spec fn is_text_len(bytes: Seq<u8>, from: nat, len: nat) -> bool {
    &&& from >= bytes.len() ==> len == 0
    &&& from < bytes.len() ==> from + len <= bytes.len()
    &&& forall|j: int| from <= j < from + len ==> bytes[j] != 0
    &&& from + len < bytes.len() ==> bytes[(from + len) as int] == 0
}

/// The length of the text of the string that starts at `from`.
pub open spec fn text_len(bytes: Seq<u8>, from: nat) -> nat {
    choose|len: nat| is_text_len(bytes, from, len)
}

/// A string's text has one length only.
pub proof fn lemma_text_len_unique(bytes: Seq<u8>, from: nat, len: nat)
    requires
        is_text_len(bytes, from, len),
    ensures
        text_len(bytes, from) == len,
{
    let other = text_len(bytes, from);
    assert(is_text_len(bytes, from, other));
    if other < len {
        assert(bytes[(from + other) as int] == 0);
    } else if len < other {
        assert(bytes[(from + len) as int] == 0);
    }
}

/// The zero-free run from `from + done` on, added to `done` zero-free bytes
/// before it, gives the length of the text at `from`.
proof fn lemma_text_len_from(bytes: Seq<u8>, from: nat, done: nat) -> (len: nat)
    requires
        from + done <= bytes.len(),
        forall|j: int| from <= j < from + done ==> bytes[j] != 0,
    ensures
        is_text_len(bytes, from, len),
    decreases bytes.len() - from - done,
{
    if from + done == bytes.len() || bytes[(from + done) as int] == 0 {
        done
    } else {
        lemma_text_len_from(bytes, from, done + 1)
    }
}

/// Every position has a string: `text_len` is the length of its text.
pub proof fn lemma_text_len_exists(bytes: Seq<u8>, from: nat)
    ensures
        is_text_len(bytes, from, text_len(bytes, from)),
{
    if from >= bytes.len() {
        assert(is_text_len(bytes, from, 0));
    } else {
        let len = lemma_text_len_from(bytes, from, 0);
        lemma_text_len_unique(bytes, from, len);
    }
}

#[verifier::external_type_specification]
#[verifier::external_body]
pub struct ExFromUtf8Error(std::string::FromUtf8Error);

/// `String::from_utf8`. Trusted: it succeeds on exactly the byte vectors that
/// are valid UTF-8, and the string it then returns holds the characters that
/// the bytes encode.
pub assume_specification[ String::from_utf8 ](vec: Vec<u8>) -> (r: Result<
    String,
    std::string::FromUtf8Error,
>)
    ensures
        r is Ok <==> valid_utf8(vec@),
        r matches Ok(s) ==> s@ == decode_utf8(vec@),
;

} // verus!

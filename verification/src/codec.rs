use vstd::prelude::*;
use crate::text::{chars_of, is_whitespace, string_of, visible};

verus! {

/// Name for what `base64::engine::general_purpose::STANDARD.decode` gives for the
/// bytes of a text: `None` where it reports an error.
pub uninterp spec fn base64_standard_decode(input: Seq<char>) -> Option<Seq<u8>>;

/// `Engine::decode` of the base64 crate with the standard alphabet and padding.
/// Verus believes that it succeeds exactly when `base64_standard_decode` gives
/// bytes, and that it gives those bytes; which `DecodeError` it reports is left
/// unsaid.
#[verifier::external_body]
pub(crate) fn base64_decode(input: &str) -> (r: Result<Vec<u8>, base64::DecodeError>)
    ensures
        r is Ok <==> base64_standard_decode(input@) is Some,
        r matches Ok(v) ==> Some(v@) == base64_standard_decode(input@),
{
    base64::Engine::decode(&base64::engine::general_purpose::STANDARD, input)
}

/// `String::from_utf8`: Verus believes that it succeeds exactly on valid UTF-8
/// and then gives the decoded characters; the error's content is left unsaid.
#[verifier::external_body]
pub(crate) fn string_from_utf8(bytes: Vec<u8>) -> (r: Result<String, std::string::FromUtf8Error>)
    ensures
        r is Ok <==> vstd::utf8::valid_utf8(bytes@),
        r matches Ok(s) ==> s@ == vstd::utf8::decode_utf8(bytes@),
{
    String::from_utf8(bytes)
}

/// Name for what `String::from_utf8_lossy` gives for some bytes.
pub uninterp spec fn utf8_lossy(bytes: Seq<u8>) -> Seq<char>;

/// `String::from_utf8_lossy`, as an owned string: Verus believes that it gives
/// `utf8_lossy` of the bytes, which are simply decoded when they are valid UTF-8.
#[verifier::external_body]
pub(crate) fn lossy_string(bytes: &Vec<u8>) -> (r: String)
    ensures
        r@ == utf8_lossy(bytes@),
        vstd::utf8::valid_utf8(bytes@) ==> r@ == vstd::utf8::decode_utf8(bytes@),
{
    String::from_utf8_lossy(bytes.as_slice()).into_owned()
}

/// A copy of `s` without any whitespace character.
pub fn strip_whitespace(s: &str) -> (r: String)
    ensures
        r@ == visible(s@),
{
    let v = chars_of(s);
    let mut out: Vec<char> = Vec::new();
    let mut i: usize = 0;
    while i < v.len()
        invariant
            i <= v.len(),
            v@ == s@,
            out@ == visible(v@.take(i as int)),
        decreases v.len() - i,
    {
        proof {
            reveal(Seq::filter);
            assert(v@.take(i + 1).drop_last() =~= v@.take(i as int));
            assert(v@.take(i + 1).last() == v@[i as int]);
        }
        if !is_whitespace(v[i]) {
            out.push(v[i]);
        }
        i = i + 1;
    }
    assert(v@.take(v.len() as int) =~= v@);
    string_of(&out)
}

} // verus!

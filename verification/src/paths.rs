use vstd::prelude::*;
use vstd::string::StringSliceAdditionalSpecFns;
use vstd::utf8::{
    char_is_scalar, char_u32_cast, encode_scalar, encode_utf8, has_width_1_encoding,
    has_width_2_encoding, has_width_3_encoding, is_scalar, last_continuation_byte,
    leading_byte_width_1, leading_byte_width_2, leading_byte_width_3, leading_byte_width_4,
    second_last_continuation_byte, third_last_continuation_byte,
};

use crate::error::Error;

verus! {

/// A byte string holds an embedded NUL and so cannot become a C string.
pub open spec fn has_nul_byte(bytes: Seq<u8>) -> bool {
    exists|i: int| 0 <= i < bytes.len() && bytes[i] == 0u8
}

/// A host string holds an embedded NUL in its UTF-8 encoding.
pub open spec fn str_has_nul(s: Seq<char>) -> bool {
    has_nul_byte(encode_utf8(s))
}

/// A scalar's UTF-8 encoding holds a NUL byte exactly when the scalar is
/// zero: a one-byte encoding is the scalar itself, and every byte of a
/// longer encoding has its high bit set.
proof fn lemma_encode_scalar_nul(s: u32)
    requires
        is_scalar(s),
    ensures
        has_nul_byte(encode_scalar(s)) <==> s == 0,
{
    let bytes = encode_scalar(s);
    if has_width_1_encoding(s) {
        assert(bytes =~= seq![leading_byte_width_1(s)]);
        assert(leading_byte_width_1(s) == 0 <==> s == 0) by (bit_vector)
            requires
                s <= 0x7F,
        ;
        if s == 0 {
            assert(bytes[0] == 0);
        } else {
            assert(!has_nul_byte(bytes)) by {
                assert(forall|i: int| 0 <= i < bytes.len() ==> bytes[i] != 0);
            }
        }
    } else {
        assert(s != 0);
        assert(leading_byte_width_2(s) != 0 && leading_byte_width_3(s) != 0
            && leading_byte_width_4(s) != 0 && last_continuation_byte(s) != 0
            && second_last_continuation_byte(s) != 0 && third_last_continuation_byte(s) != 0)
            by (bit_vector);
        if has_width_2_encoding(s) {
            assert(bytes =~= seq![leading_byte_width_2(s), last_continuation_byte(s)]);
        } else if has_width_3_encoding(s) {
            assert(bytes =~= seq![
                leading_byte_width_3(s),
                second_last_continuation_byte(s),
                last_continuation_byte(s),
            ]);
        } else {
            assert(bytes =~= seq![
                leading_byte_width_4(s),
                third_last_continuation_byte(s),
                second_last_continuation_byte(s),
                last_continuation_byte(s),
            ]);
        }
        assert(!has_nul_byte(bytes)) by {
            assert(forall|i: int| 0 <= i < bytes.len() ==> bytes[i] != 0);
        }
    }
}

/// A host string can become a C string exactly when it is free of the NUL
/// character: its UTF-8 encoding holds a NUL byte iff its characters hold
/// `'\0'`.
pub proof fn lemma_nul_byte_iff_nul_char(s: Seq<char>)
    ensures
        str_has_nul(s) <==> s.contains('\0'),
    decreases s.len(),
{
    if s.len() == 0 {
        assert(encode_utf8(s) =~= Seq::<u8>::empty());
        assert(!has_nul_byte(Seq::<u8>::empty()));
        assert(!s.contains('\0'));
    } else {
        let c = s[0];
        let rest = s.drop_first();
        lemma_nul_byte_iff_nul_char(rest);
        char_is_scalar(c);
        lemma_encode_scalar_nul(c as u32);
        let head = encode_scalar(c as u32);
        let tail = encode_utf8(rest);
        assert(encode_utf8(s) == head + tail);
        assert(has_nul_byte(head + tail) <==> has_nul_byte(head) || has_nul_byte(tail)) by {
            if has_nul_byte(head) {
                let i = choose|i: int| 0 <= i < head.len() && head[i] == 0u8;
                assert((head + tail)[i] == 0u8);
            }
            if has_nul_byte(tail) {
                let i = choose|i: int| 0 <= i < tail.len() && tail[i] == 0u8;
                assert((head + tail)[head.len() + i] == 0u8);
            }
            if has_nul_byte(head + tail) {
                let i = choose|i: int| 0 <= i < (head + tail).len() && (head + tail)[i] == 0u8;
                if i < head.len() {
                    assert(head[i] == 0u8);
                } else {
                    assert(tail[i - head.len()] == 0u8);
                }
            }
        }
        assert(c == '\0' <==> c as u32 == 0) by {
            char_u32_cast(c, c as u32);
            char_u32_cast('\0', '\0' as u32);
            assert('\0' as u32 == 0);
        }
        assert(s.contains('\0') <==> c == '\0' || rest.contains('\0')) by {
            if c == '\0' {
                assert(s[0] == '\0');
            }
            if rest.contains('\0') {
                let i = choose|i: int| 0 <= i < rest.len() && rest[i] == '\0';
                assert(s[i + 1] == '\0');
            }
            if s.contains('\0') {
                let i = choose|i: int| 0 <= i < s.len() && s[i] == '\0';
                if i > 0 {
                    assert(rest[i - 1] == '\0');
                }
            }
        }
    }
}

/// Relies on std::path::Path::is_file: whether the path names an existing
/// regular file. The answer depends on the filesystem at the moment of the
/// call, so nothing is promised of it.
#[verifier::external_body]
pub(crate) fn path_is_file(path: &str) -> bool {
    std::path::Path::new(path).is_file()
}

/// Rejects a word that could not be handed to the engine as a C string:
/// returns `Ok` exactly when the word's UTF-8 encoding is free of NUL bytes.
pub fn validate_word(word: &str) -> (r: Result<(), Error>)
    ensures
        r is Ok <==> !has_nul_byte(word.spec_bytes()),
        r is Ok <==> !word@.contains('\0'),
        r is Err ==> r == Err::<(), Error>(Error::NulError),
{
    proof {
        lemma_nul_byte_iff_nul_char(word@);
    }
    let bytes = word.as_bytes();
    let mut i: usize = 0;
    while i < bytes.len()
        invariant
            0 <= i <= bytes@.len(),
            bytes@ == word.spec_bytes(),
            forall|j: int| 0 <= j < i ==> bytes@[j] != 0u8,
        decreases bytes@.len() - i,
    {
        if bytes[i] == 0 {
            proof {
                assert(has_nul_byte(word.spec_bytes()));
                lemma_nul_byte_iff_nul_char(word@);
            }
            return Err(Error::NulError);
        }
        i += 1;
    }
    Ok(())
}

/// Sorts a pair of paths by the two existence answers: a missing affix file
/// is reported first, then a missing dictionary file; otherwise the pair is
/// returned unchanged.
pub fn classify_paths(
    affix: String,
    dictionary: String,
    affix_is_file: bool,
    dictionary_is_file: bool,
) -> (r: Result<(String, String), Error>)
    ensures
        !affix_is_file ==> (r matches Err(e) && e matches Error::AffixFileIsNoFile(p) && p@
            == affix@),
        affix_is_file && !dictionary_is_file ==> (r matches Err(e) && e
            matches Error::DictionaryFileIsNoFile(p) && p@ == dictionary@),
        affix_is_file && dictionary_is_file ==> (r matches Ok(p) && p.0@ == affix@ && p.1@
            == dictionary@),
{
    if !affix_is_file {
        Err(Error::AffixFileIsNoFile(affix))
    } else if !dictionary_is_file {
        Err(Error::DictionaryFileIsNoFile(dictionary))
    } else {
        Ok((affix, dictionary))
    }
}

/// Confirms that the affix and dictionary paths both name existing regular
/// files before any engine construction is attempted, so that a failure is
/// attributable to the configuration rather than to the opaque engine.
pub fn check_paths(affix: String, dictionary: String) -> (r: Result<(String, String), Error>)
    ensures
        r matches Ok(p) ==> p.0@ == affix@ && p.1@ == dictionary@,
        r matches Err(e) ==> match e {
            Error::AffixFileIsNoFile(p) => p@ == affix@,
            Error::DictionaryFileIsNoFile(p) => p@ == dictionary@,
            _ => false,
        },
{
    let affix_is_file = path_is_file(affix.as_str());
    let dictionary_is_file = path_is_file(dictionary.as_str());
    classify_paths(affix, dictionary, affix_is_file, dictionary_is_file)
}

} // verus!

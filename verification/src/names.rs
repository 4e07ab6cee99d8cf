//! Names for new files.

use vstd::prelude::*;

verus! {

/// A hexadecimal digit in lower case.
pub open spec fn is_lower_hex(c: char) -> bool {
    '0' <= c <= '9' || 'a' <= c <= 'f'
}

/// The hyphenated text of a random UUID: 32 hexadecimal digits in groups of
/// 8, 4, 4, 4 and 12, the version digit `4`, the variant digit one of `8` to `b`.
pub open spec fn is_random_uuid(s: Seq<char>) -> bool {
    &&& s.len() == 36
    &&& forall|i: int|
        0 <= i < 36 ==> if i == 8 || i == 13 || i == 18 || i == 23 {
            #[trigger] s[i] == '-'
        } else {
            is_lower_hex(s[i])
        }
    &&& s[14] == '4'
    &&& s[19] == '8' || s[19] == '9' || s[19] == 'a' || s[19] == 'b'
}

/// There are such texts.
pub proof fn lemma_random_uuids_exist()
    ensures
        exists|s: Seq<char>| is_random_uuid(s),
{
    let s = Seq::new(
        36,
        |i: int|
            if i == 8 || i == 13 || i == 18 || i == 23 {
                '-'
            } else if i == 14 {
                '4'
            } else if i == 19 {
                '8'
            } else {
                '0'
            },
    );
    assert(is_random_uuid(s));
}

/// Calls `uuid::Uuid::new_v4` and writes the result with its `Display`.
///
/// Trusted: the text has the shape of a random UUID. Which one it is rests on the
/// operating system's random numbers; that two calls give different names is
/// overwhelmingly likely and is not claimed. Where the system has no random numbers
/// to give, `new_v4` panics.
#[verifier::external_body]
pub(crate) fn fresh_name() -> (res: String)
    ensures
        is_random_uuid(res@),
{
    uuid::Uuid::new_v4().to_string()
}

} // verus!

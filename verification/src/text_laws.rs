//! What holds of text handling, whatever the text.

use vstd::prelude::*;

use crate::text::{
    after, before, bool_value, decimal, digits_of, digits_value, first_occurrence, i32_value,
    is_blank, is_digit, is_digits, is_white_space, joined, lemma_digits_of,
    lemma_digits_value_nonnegative, lemma_first_occurrence_exists, occurs, occurs_at, trimmed,
    u64_value,
};

verus! {

/// White space is what Unicode lists as such, by code point.
pub proof fn law_white_space_is_that_of_unicode(c: char)
    ensures
        is_white_space(c) <==> {
            let code = c as u32;
            ||| 0x9 <= code <= 0xd
            ||| code == 0x20
            ||| code == 0x85
            ||| code == 0xa0
            ||| code == 0x1680
            ||| 0x2000 <= code <= 0x200a
            ||| code == 0x2028
            ||| code == 0x2029
            ||| code == 0x202f
            ||| code == 0x205f
            ||| code == 0x3000
        },
{
}

/// Trimmed text is what is left of a text between the white space at its start and the
/// white space at its end: it neither starts nor ends with white space. Nothing is left
/// exactly of blank text.
pub proof fn law_trimming_takes_the_white_space_at_both_ends(s: Seq<char>) -> (ends: (int, int))
    ensures
        0 <= ends.0 <= ends.1 <= s.len(),
        trimmed(s) == s.subrange(ends.0, ends.1),
        forall|i: int| 0 <= i < ends.0 ==> is_white_space(#[trigger] s[i]),
        forall|i: int| ends.1 <= i < s.len() ==> is_white_space(#[trigger] s[i]),
        ends.0 < ends.1 ==> !is_white_space(s[ends.0]) && !is_white_space(s[ends.1 - 1]),
        ends.0 == ends.1 <==> forall|i: int| 0 <= i < s.len() ==> is_white_space(#[trigger] s[i]),
        is_blank(s) <==> ends.0 == ends.1,
    decreases s.len(),
{
    if s.len() == 0 {
        assert(s.subrange(0, 0) =~= s);
        (0, 0)
    } else if is_white_space(s.first()) {
        let rest = s.drop_first();
        let (from, to) = law_trimming_takes_the_white_space_at_both_ends(rest);
        assert(rest.subrange(from, to) =~= s.subrange(from + 1, to + 1));
        assert forall|i: int| 0 <= i < from + 1 implies is_white_space(#[trigger] s[i]) by {
            if i > 0 {
                assert(rest[i - 1] == s[i]);
            }
        }
        assert forall|i: int| to + 1 <= i < s.len() implies is_white_space(#[trigger] s[i]) by {
            assert(rest[i - 1] == s[i]);
        }
        (from + 1, to + 1)
    } else if is_white_space(s.last()) {
        let rest = s.drop_last();
        let (from, to) = law_trimming_takes_the_white_space_at_both_ends(rest);
        assert(rest.subrange(from, to) =~= s.subrange(from, to));
        assert(rest[0] == s[0]);
        assert(!is_white_space(s[0]));
        assert(from == 0);
        assert forall|i: int| to <= i < s.len() implies is_white_space(#[trigger] s[i]) by {
            if i < s.len() - 1 {
                assert(rest[i] == s[i]);
            }
        }
        (from, to)
    } else {
        assert(s.subrange(0, s.len() as int) =~= s);
        assert(!is_white_space(s[0]));
        (0, s.len() as int)
    }
}

// ---------------------------------------------------------------------------
// Numbers
// ---------------------------------------------------------------------------

/// A further digit makes ten times the number, and the digit.
pub proof fn law_digits_are_positional(s: Seq<char>, digit: char)
    ensures
        digits_value(Seq::empty()) == 0,
        digits_value(s.push(digit)) == 10 * digits_value(s) + (digit as int - '0' as int),
{
    assert(s.push(digit).drop_last() =~= s);
}

/// Digits are read as the number that they write, with a sign before them or not, as far
/// as the number is in range.
pub proof fn law_digits_are_read(digits: Seq<char>)
    requires
        digits.len() > 0,
        forall|i: int| 0 <= i < digits.len() ==> '0' <= #[trigger] digits[i] <= '9',
    ensures
        ({
            let n = digits_value(digits);
            let plus = seq!['+'] + digits;
            let minus = seq!['-'] + digits;
            &&& n >= 0
            &&& n <= u64::MAX ==> u64_value(digits) == Some(n as u64)
            &&& n > u64::MAX ==> u64_value(digits) is None
            &&& u64_value(plus) == u64_value(digits)
            &&& u64_value(minus) is None
            &&& n <= i32::MAX ==> i32_value(digits) == Some(n as i32)
            &&& n > i32::MAX ==> i32_value(digits) is None
            &&& i32_value(plus) == i32_value(digits)
            &&& -n >= i32::MIN ==> i32_value(minus) == Some((-n) as i32)
            &&& -n < i32::MIN ==> i32_value(minus) is None
        }),
{
    assert forall|i: int| 0 <= i < digits.len() implies is_digit(#[trigger] digits[i]) by {}
    lemma_digits_value_nonnegative(digits);
    let plus = seq!['+'] + digits;
    let minus = seq!['-'] + digits;
    assert(plus.drop_first() =~= digits);
    assert(minus.drop_first() =~= digits);
    assert('0' <= digits[0] <= '9');
    assert(plus[0] == '+');
    assert(minus[0] == '-' && !is_digit(minus[0]));
}

/// Nothing else is read as a number.
pub proof fn law_only_digits_are_read(s: Seq<char>)
    ensures
        u64_value(s) is Some ==> {
            &&& s.len() > 0
            &&& s[s.len() - 1] != '+'
            &&& forall|i: int|
                0 <= i < s.len() ==> '0' <= #[trigger] s[i] <= '9' || i == 0 && s[i] == '+'
        },
        i32_value(s) is Some ==> {
            &&& s.len() > 0
            &&& s[s.len() - 1] != '+' && s[s.len() - 1] != '-'
            &&& forall|i: int|
                0 <= i < s.len() ==> '0' <= #[trigger] s[i] <= '9' || i == 0 && (s[i] == '+' || s[i]
                    == '-')
        },
{
    let rest = s.drop_first();
    if s.len() > 0 && is_digits(rest) {
        assert forall|i: int| 1 <= i < s.len() implies is_digit(#[trigger] s[i]) by {
            assert(rest[i - 1] == s[i]);
        }
        assert(is_digit(s[s.len() - 1]));
    }
    if is_digits(s) {
        assert(is_digit(s[s.len() - 1]));
    }
}

/// Every `u64` reads back from its decimal text.
pub proof fn law_u64_reads_back(n: u64)
    ensures
        u64_value(decimal(n as int)) == Some(n),
{
    lemma_digits_of(n as nat);
    assert(is_digit(decimal(n as int)[0]));
}

/// Decimal text is made of digits, without zeros before the number, and starts with a
/// `-` exactly where the number is negative.
pub proof fn law_decimal_is_plain(n: int)
    ensures
        ({
            let s = decimal(n);
            let digits = if n < 0 {
                s.drop_first()
            } else {
                s
            };
            &&& s.len() > 0
            &&& s[0] == '-' <==> n < 0
            &&& digits.len() > 0
            &&& forall|i: int| 0 <= i < digits.len() ==> '0' <= #[trigger] digits[i] <= '9'
            &&& digits[0] == '0' ==> digits.len() == 1
            &&& digits_value(digits) == if n < 0 {
                -n
            } else {
                n
            }
        }),
{
    let size = if n < 0 {
        (-n) as nat
    } else {
        n as nat
    };
    lemma_digits_of(size);
    lemma_no_leading_zero(size);
    let digits = digits_of(size);
    if n < 0 {
        assert(decimal(n).drop_first() =~= digits);
    }
    assert forall|i: int| 0 <= i < digits.len() implies '0' <= #[trigger] digits[i] <= '9' by {
        assert(is_digit(digits[i]));
    }
    assert(is_digit(digits[0]));
}

proof fn lemma_no_leading_zero(n: nat)
    ensures
        digits_of(n).len() > 0,
        digits_of(n)[0] == '0' ==> n == 0,
    decreases n,
{
    if n >= 10 {
        lemma_no_leading_zero(n / 10);
    }
}

/// The truth values have one text each.
pub proof fn law_truth_values_have_one_text(s: Seq<char>)
    ensures
        bool_value(s) == Some(true) <==> s == "true"@,
        bool_value(s) == Some(false) <==> s == "false"@,
{
    reveal_strlit("true");
    reveal_strlit("false");
    assert("true"@.len() == 4);
    assert("false"@.len() == 5);
}

// ---------------------------------------------------------------------------
// Substrings and paths
// ---------------------------------------------------------------------------

/// A text is what stands before the first `needle`, the `needle`, and what stands after
/// it; where there is no `needle`, all of it stands before.
pub proof fn law_texts_split_at_the_first_needle(hay: Seq<char>, needle: Seq<char>)
    ensures
        match after(hay, needle) {
            Some(rest) => {
                &&& hay == before(hay, needle) + needle + rest
                &&& forall|i: int, j: int|
                    0 <= i < before(hay, needle).len() && j == i + needle.len() && j <= hay.len()
                        ==> #[trigger] hay.subrange(i, j) != needle
            },
            None => {
                &&& before(hay, needle) == hay
                &&& forall|i: int, j: int|
                    0 <= i && j == i + needle.len() && j <= hay.len() ==> #[trigger] hay.subrange(
                        i,
                        j,
                    ) != needle
            },
        },
{
    if occurs(hay, needle) {
        let some = choose|i: int| occurs_at(hay, needle, i);
        lemma_first_occurrence_exists(hay, needle, some);
        let at = first_occurrence(hay, needle);
        assert(hay =~= hay.take(at) + needle + hay.skip(at + needle.len())) by {
            assert(hay.subrange(at, at + needle.len()) == needle);
            assert forall|k: int| 0 <= k < needle.len() implies hay[at + k] == #[trigger] needle[k] by {
                assert(hay.subrange(at, at + needle.len())[k] == hay[at + k]);
            }
        }
        assert forall|i: int, j: int|
            0 <= i < at && j == i + needle.len() && j
                <= hay.len() implies #[trigger] hay.subrange(i, j) != needle by {
            assert(!occurs_at(hay, needle, i));
        }
    } else {
        assert forall|i: int, j: int|
            0 <= i && j == i + needle.len() && j <= hay.len() implies #[trigger] hay.subrange(i, j)
            != needle by {
            assert(!occurs_at(hay, needle, i));
        }
    }
}

/// The path of a name in a directory is the directory, one `/` and the name. No second
/// `/` is put where the directory ends with one, and none where there is no directory. A
/// name that starts with `/` is a path of its own.
pub proof fn law_paths_are_directory_and_name(dir: Seq<char>, name: Seq<char>)
    ensures
        name.len() > 0 && name[0] == '/' ==> joined(dir, name) == name,
        !(name.len() > 0 && name[0] == '/') ==> {
            &&& dir.len() == 0 ==> joined(dir, name) == name
            &&& dir.len() > 0 && dir[dir.len() - 1] == '/' ==> joined(dir, name) == dir + name
            &&& dir.len() > 0 && dir[dir.len() - 1] != '/' ==> joined(dir, name) == dir + seq!['/']
                + name
        },
{
    assert(dir.push('/') =~= dir + seq!['/']);
    assert(dir + name =~= name || dir.len() > 0);
}

/// Different names in one directory are different paths.
pub proof fn law_different_names_are_different_paths(
    dir: Seq<char>,
    name: Seq<char>,
    other: Seq<char>,
)
    requires
        !(name.len() > 0 && name[0] == '/'),
        !(other.len() > 0 && other[0] == '/'),
        joined(dir, name) == joined(dir, other),
    ensures
        name == other,
{
    let n = joined(dir, name).len() - name.len();
    assert(joined(dir, name).skip(n) =~= name);
    assert(joined(dir, other).skip(n) =~= other);
}

} // verus!

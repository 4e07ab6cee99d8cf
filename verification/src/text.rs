//! Text handling: white space, decimal numbers, substrings and paths.

use vstd::prelude::*;
use vstd::string::*;

verus! {

// ---------------------------------------------------------------------------
// White space
// ---------------------------------------------------------------------------

/// The Unicode property `White_Space`.
pub open spec fn is_white_space(c: char) -> bool {
    ||| '\u{9}' <= c <= '\u{d}'
    ||| c == ' '
    ||| c == '\u{85}'
    ||| c == '\u{a0}'
    ||| c == '\u{1680}'
    ||| '\u{2000}' <= c <= '\u{200a}'
    ||| c == '\u{2028}'
    ||| c == '\u{2029}'
    ||| c == '\u{202f}'
    ||| c == '\u{205f}'
    ||| c == '\u{3000}'
}

/// `s` without the white space at both of its ends.
pub open spec fn trimmed(s: Seq<char>) -> Seq<char>
    decreases s.len(),
{
    if s.len() == 0 {
        s
    } else if is_white_space(s.first()) {
        trimmed(s.drop_first())
    } else if is_white_space(s.last()) {
        trimmed(s.drop_last())
    } else {
        s
    }
}

/// Nothing but white space.
pub open spec fn is_blank(s: Seq<char>) -> bool {
    forall|i: int| 0 <= i < s.len() ==> is_white_space(#[trigger] s[i])
}

/// Trimming leaves nothing exactly of blank text.
pub proof fn lemma_trimmed_empty_iff_blank(s: Seq<char>)
    ensures
        trimmed(s).len() == 0 <==> is_blank(s),
    decreases s.len(),
{
    if s.len() == 0 {
    } else if is_white_space(s.first()) {
        lemma_trimmed_empty_iff_blank(s.drop_first());
        assert(is_blank(s.drop_first()) ==> is_blank(s)) by {
            if is_blank(s.drop_first()) {
                assert forall|i: int| 0 <= i < s.len() implies is_white_space(#[trigger] s[i]) by {
                    if i > 0 {
                        assert(s.drop_first()[i - 1] == s[i]);
                    }
                }
            }
        }
    } else if is_white_space(s.last()) {
        lemma_trimmed_empty_iff_blank(s.drop_last());
        assert(!is_blank(s)) by {
            assert(!is_white_space(s[0]));
        }
        assert(!is_blank(s.drop_last())) by {
            assert(s.drop_last()[0] == s[0]);
        }
    } else {
        assert(!is_white_space(s[0]));
    }
}

/// Trimmed text stays as it is.
pub proof fn lemma_trimmed_twice(s: Seq<char>)
    ensures
        trimmed(trimmed(s)) == trimmed(s),
    decreases s.len(),
{
    if s.len() == 0 {
    } else if is_white_space(s.first()) {
        lemma_trimmed_twice(s.drop_first());
    } else if is_white_space(s.last()) {
        lemma_trimmed_twice(s.drop_last());
    }
}

/// Tests for the Unicode property `White_Space`.
pub fn white_space(c: char) -> (res: bool)
    ensures
        res == is_white_space(c),
{
    ('\u{9}' <= c && c <= '\u{d}') || c == ' ' || c == '\u{85}' || c == '\u{a0}' || c == '\u{1680}'
        || ('\u{2000}' <= c && c <= '\u{200a}') || c == '\u{2028}' || c == '\u{2029}' || c
        == '\u{202f}' || c == '\u{205f}' || c == '\u{3000}'
}

/// The characters of `s`.
pub fn chars_of(s: &str) -> (res: Vec<char>)
    ensures
        res@ == s@,
{
    let mut res: Vec<char> = Vec::new();
    for c in it: s.chars()
        invariant
            it.seq() == s@,
            res@ == it.seq().take(it.index()),
    {
        res.push(c);
    }
    res
}

/// `s` without the white space at both of its ends.
pub fn trim(s: &str) -> (res: &str)
    ensures
        res@ == trimmed(s@),
{
    let chars = chars_of(s);
    let n: usize = chars.len();
    let mut from: usize = 0;
    assert(s@.subrange(0, n as int) =~= s@);
    while from < n && white_space(chars[from])
        invariant
            chars@ == s@,
            n == s@.len(),
            from <= n,
            trimmed(s@) == trimmed(s@.subrange(from as int, n as int)),
        decreases n - from,
    {
        assert(s@.subrange(from as int, n as int).drop_first() =~= s@.subrange(
            from + 1,
            n as int,
        ));
        from = from + 1;
    }
    let mut to: usize = n;
    while to > from && white_space(chars[to - 1])
        invariant
            chars@ == s@,
            n == s@.len(),
            from <= to <= n,
            from < n ==> !is_white_space(s@[from as int]),
            trimmed(s@) == trimmed(s@.subrange(from as int, to as int)),
        decreases to,
    {
        let ghost cur = s@.subrange(from as int, to as int);
        assert(cur.drop_last() =~= s@.subrange(from as int, to - 1));
        assert(cur.first() == s@[from as int]);
        assert(cur.last() == s@[to - 1]);
        to = to - 1;
    }
    proof {
        let cur = s@.subrange(from as int, to as int);
        if from < to {
            assert(cur.first() == s@[from as int]);
            assert(cur.last() == s@[to - 1]);
        }
        assert(trimmed(cur) == cur);
    }
    s.substring_char(from, to)
}

/// Tests that `s` holds nothing but white space.
pub fn blank(s: &str) -> (res: bool)
    ensures
        res == is_blank(s@),
{
    proof {
        lemma_trimmed_empty_iff_blank(s@);
    }
    trim(s).is_empty()
}

// ---------------------------------------------------------------------------
// Decimal numbers
// ---------------------------------------------------------------------------

/// One of the ten ASCII digits.
pub open spec fn is_digit(c: char) -> bool {
    '0' <= c <= '9'
}

/// One digit or more, and nothing else.
pub open spec fn is_digits(s: Seq<char>) -> bool {
    s.len() > 0 && forall|i: int| 0 <= i < s.len() ==> is_digit(#[trigger] s[i])
}

/// The number that a sequence of digits writes.
pub open spec fn digits_value(s: Seq<char>) -> int
    decreases s.len(),
{
    if s.len() == 0 {
        0
    } else {
        10 * digits_value(s.drop_last()) + (s.last() as int - '0' as int)
    }
}

/// The natural number that `s` writes: digits, after a `+` or not.
pub open spec fn unsigned_value(s: Seq<char>) -> Option<int> {
    let digits = if s.len() > 0 && s[0] == '+' {
        s.drop_first()
    } else {
        s
    };
    if is_digits(digits) {
        Some(digits_value(digits))
    } else {
        None
    }
}

/// The integer that `s` writes: digits, after a `+`, a `-` or neither.
pub open spec fn signed_value(s: Seq<char>) -> Option<int> {
    if s.len() > 0 && s[0] == '-' {
        if is_digits(s.drop_first()) {
            Some(-digits_value(s.drop_first()))
        } else {
            None
        }
    } else {
        unsigned_value(s)
    }
}

/// The `u64` that `s` writes; `None` also where the number is too large.
pub open spec fn u64_value(s: Seq<char>) -> Option<u64> {
    match unsigned_value(s) {
        Some(n) if n <= u64::MAX => Some(n as u64),
        _ => None,
    }
}

/// The `i32` that `s` writes; `None` also where the number is out of range.
pub open spec fn i32_value(s: Seq<char>) -> Option<i32> {
    match signed_value(s) {
        Some(n) if i32::MIN <= n <= i32::MAX => Some(n as i32),
        _ => None,
    }
}

/// The truth value that `s` names.
pub open spec fn bool_value(s: Seq<char>) -> Option<bool> {
    if s == "true"@ {
        Some(true)
    } else if s == "false"@ {
        Some(false)
    } else {
        None
    }
}

/// The digits of `n`, without leading zeros.
pub open spec fn digits_of(n: nat) -> Seq<char>
    decreases n,
{
    if n < 10 {
        seq![('0' as int + n) as char]
    } else {
        digits_of(n / 10).push(('0' as int + n % 10) as char)
    }
}

/// `n` in decimal, with a `-` before it where it is negative.
pub open spec fn decimal(n: int) -> Seq<char> {
    if n < 0 {
        seq!['-'] + digits_of((-n) as nat)
    } else {
        digits_of(n as nat)
    }
}

/// Digits write no negative number.
pub proof fn lemma_digits_value_nonnegative(s: Seq<char>)
    requires
        forall|i: int| 0 <= i < s.len() ==> is_digit(#[trigger] s[i]),
    ensures
        digits_value(s) >= 0,
    decreases s.len(),
{
    if s.len() > 0 {
        assert(is_digit(s[s.len() - 1]));
        assert forall|i: int| 0 <= i < s.len() - 1 implies is_digit(#[trigger] s.drop_last()[i]) by {
            assert(is_digit(s[i]));
        }
        lemma_digits_value_nonnegative(s.drop_last());
    }
}

/// More digits never write a smaller number.
proof fn lemma_digits_value_grows(s: Seq<char>, k: int)
    requires
        0 <= k <= s.len(),
        forall|i: int| 0 <= i < s.len() ==> is_digit(#[trigger] s[i]),
    ensures
        digits_value(s.take(k)) <= digits_value(s),
    decreases s.len() - k,
{
    if k == s.len() {
        assert(s.take(k) =~= s);
    } else {
        lemma_digits_value_grows(s, k + 1);
        assert(s.take(k + 1).drop_last() =~= s.take(k));
        assert(is_digit(s[k]));
        lemma_digits_value_nonnegative(s.take(k));
    }
}

/// The digits of a number are digits and write it.
pub proof fn lemma_digits_of(n: nat)
    ensures
        is_digits(digits_of(n)),
        digits_value(digits_of(n)) == n,
    decreases n,
{
    if n < 10 {
        let s = digits_of(n);
        assert(s.drop_last() =~= Seq::<char>::empty());
        assert(s.last() as int == '0' as int + n);
        assert(digits_value(s.drop_last()) == 0);
    } else {
        lemma_digits_of(n / 10);
        let s = digits_of(n);
        assert(s.drop_last() =~= digits_of(n / 10));
        assert(s.last() as int == '0' as int + n % 10);
        assert forall|i: int| 0 <= i < s.len() implies is_digit(#[trigger] s[i]) by {
            if i < s.len() - 1 {
                assert(s[i] == digits_of(n / 10)[i]);
            }
        }
    }
}

/// A number written in decimal reads back as itself.
pub proof fn law_decimal_reads_back(n: i32)
    ensures
        i32_value(decimal(n as int)) == Some(n),
{
    if n < 0 {
        lemma_digits_of((-n) as nat);
        assert(decimal(n as int).drop_first() =~= digits_of((-n) as nat));
    } else {
        lemma_digits_of(n as nat);
        assert(is_digit(decimal(n as int)[0]));
    }
}

/// A number in decimal has no white space around it.
pub proof fn lemma_decimal_is_trimmed(n: int)
    ensures
        decimal(n).len() > 0,
        trimmed(decimal(n)) == decimal(n),
{
    let digits = digits_of(if n < 0 {
        (-n) as nat
    } else {
        n as nat
    });
    if n < 0 {
        lemma_digits_of((-n) as nat);
    } else {
        lemma_digits_of(n as nat);
    }
    assert(is_digit(digits[0]));
    assert(is_digit(digits[digits.len() - 1]));
    assert(decimal(n).last() == digits.last());
}

/// Reads the digits of `chars` from `from` on.
fn read_digits(chars: &Vec<char>, from: usize) -> (res: Option<u64>)
    requires
        from <= chars@.len(),
    ensures
        ({
            let s = chars@.skip(from as int);
            res == if is_digits(s) && digits_value(s) <= u64::MAX {
                Some(digits_value(s) as u64)
            } else {
                None::<u64>
            }
        }),
{
    let ghost s = chars@.skip(from as int);
    if from == chars.len() {
        return None;
    }
    let mut value: u64 = 0;
    let mut i: usize = from;
    assert(s.take(0) =~= Seq::<char>::empty());
    while i < chars.len()
        invariant
            from <= i <= chars@.len(),
            from < chars@.len(),
            s == chars@.skip(from as int),
            forall|j: int| 0 <= j < i - from ==> is_digit(#[trigger] s[j]),
            value == digits_value(s.take(i - from)),
        decreases chars.len() - i,
    {
        let c: char = chars[i];
        assert(s[i - from] == c);
        if !('0' <= c && c <= '9') {
            assert(!is_digit(s[i - from]));
            return None;
        }
        let digit: u64 = c as u64 - '0' as u64;
        proof {
            assert(s.take(i - from + 1).drop_last() =~= s.take(i - from));
            assert(digits_value(s.take(i - from + 1)) == 10 * value + digit);
            if is_digits(s) {
                lemma_digits_value_grows(s, i - from + 1);
            }
        }
        let tens: u64 = match value.checked_mul(10) {
            Some(tens) => tens,
            None => return None,
        };
        value = match tens.checked_add(digit) {
            Some(sum) => sum,
            None => return None,
        };
        i = i + 1;
    }
    assert(s.take(i - from) =~= s);
    Some(value)
}

/// Reads a `u64`: digits, after a `+` or not.
pub fn parse_u64(s: &str) -> (res: Option<u64>)
    ensures
        res == u64_value(s@),
{
    let chars = chars_of(s);
    if chars.len() > 0 && chars[0] == '+' {
        assert(s@.drop_first() =~= s@.skip(1));
        read_digits(&chars, 1)
    } else {
        assert(s@ =~= s@.skip(0));
        read_digits(&chars, 0)
    }
}

/// Reads an `i32`: digits, after a `+`, a `-` or neither.
pub fn parse_i32(s: &str) -> (res: Option<i32>)
    ensures
        res == i32_value(s@),
{
    let chars = chars_of(s);
    assert(s@.drop_first() =~= s@.skip(1));
    assert(s@ =~= s@.skip(0));
    proof {
        if is_digits(s@.skip(1)) {
            lemma_digits_value_nonnegative(s@.skip(1));
        }
        if is_digits(s@) {
            lemma_digits_value_nonnegative(s@);
        }
    }
    if chars.len() > 0 && chars[0] == '-' {
        match read_digits(&chars, 1) {
            Some(n) if n <= 0x8000_0000 => Some((-(n as i64)) as i32),
            _ => None,
        }
    } else {
        let from: usize = if chars.len() > 0 && chars[0] == '+' {
            1
        } else {
            0
        };
        match read_digits(&chars, from) {
            Some(n) if n <= 0x7fff_ffff => Some(n as i32),
            _ => None,
        }
    }
}

/// Tests that two pieces of text are the same.
pub fn same(a: &str, b: &str) -> (res: bool)
    ensures
        res == (a@ == b@),
{
    let x = chars_of(a);
    let y = chars_of(b);
    if x.len() != y.len() {
        return false;
    }
    let mut i: usize = 0;
    while i < x.len()
        invariant
            x@ == a@,
            y@ == b@,
            x@.len() == y@.len(),
            i <= x@.len(),
            forall|j: int| 0 <= j < i ==> x@[j] == y@[j],
        decreases x.len() - i,
    {
        if x[i] != y[i] {
            assert(a@[i as int] != b@[i as int]);
            return false;
        }
        i = i + 1;
    }
    assert(a@ =~= b@);
    true
}

/// Reads `true` or `false`.
pub fn parse_bool(s: &str) -> (res: Option<bool>)
    ensures
        res == bool_value(s@),
        res is None <==> s@ != "true"@ && s@ != "false"@,
        res matches Some(b) ==> s@ == if b {
            "true"@
        } else {
            "false"@
        },
{
    if same(s, "true") {
        Some(true)
    } else if same(s, "false") {
        Some(false)
    } else {
        None
    }
}

/// The text of one digit.
fn digit_text(n: u32) -> (res: &'static str)
    requires
        n < 10,
    ensures
        res@ == seq![('0' as int + n) as char],
{
    proof {
        reveal_strlit("0");
        reveal_strlit("1");
        reveal_strlit("2");
        reveal_strlit("3");
        reveal_strlit("4");
        reveal_strlit("5");
        reveal_strlit("6");
        reveal_strlit("7");
        reveal_strlit("8");
        reveal_strlit("9");
    }
    match n {
        0 => "0",
        1 => "1",
        2 => "2",
        3 => "3",
        4 => "4",
        5 => "5",
        6 => "6",
        7 => "7",
        8 => "8",
        _ => "9",
    }
}

/// Appends `n` in decimal to `out`.
fn append_digits(n: u32, out: &mut String)
    ensures
        final(out)@ == old(out)@ + digits_of(n as nat),
    decreases n,
{
    if n >= 10 {
        append_digits(n / 10, out);
    }
    out.append(digit_text(n % 10));
    assert(out@ =~= old(out)@ + digits_of(n as nat));
}

/// `n` in decimal.
pub fn format_i32(n: i32) -> (res: String)
    ensures
        res@ == decimal(n as int),
{
    let mut out = String::new();
    if n < 0 {
        out.append("-");
        append_digits((-(n as i64)) as u32, &mut out);
        proof {
            reveal_strlit("-");
        }
    } else {
        append_digits(n as u32, &mut out);
    }
    assert(out@ =~= decimal(n as int));
    out
}

// ---------------------------------------------------------------------------
// Substrings
// ---------------------------------------------------------------------------

/// `needle` stands in `hay` at `at`.
pub open spec fn occurs_at(hay: Seq<char>, needle: Seq<char>, at: int) -> bool {
    &&& 0 <= at
    &&& at + needle.len() <= hay.len()
    &&& hay.subrange(at, at + needle.len()) == needle
}

/// `needle` stands in `hay` at `at`, and nowhere before.
pub open spec fn first_occurs_at(hay: Seq<char>, needle: Seq<char>, at: int) -> bool {
    &&& occurs_at(hay, needle, at)
    &&& forall|i: int| 0 <= i < at ==> !#[trigger] occurs_at(hay, needle, i)
}

/// `needle` stands somewhere in `hay`.
pub open spec fn occurs(hay: Seq<char>, needle: Seq<char>) -> bool {
    exists|i: int| occurs_at(hay, needle, i)
}

/// The place where `needle` first stands in `hay`.
pub open spec fn first_occurrence(hay: Seq<char>, needle: Seq<char>) -> int {
    choose|i: int| first_occurs_at(hay, needle, i)
}

/// `hay` up to the first `needle`; all of it where there is none.
pub open spec fn before(hay: Seq<char>, needle: Seq<char>) -> Seq<char> {
    if occurs(hay, needle) {
        hay.take(first_occurrence(hay, needle))
    } else {
        hay
    }
}

/// What follows the first `needle` in `hay`.
pub open spec fn after(hay: Seq<char>, needle: Seq<char>) -> Option<Seq<char>> {
    if occurs(hay, needle) {
        Some(hay.skip(first_occurrence(hay, needle) + needle.len()))
    } else {
        None
    }
}

/// There is only one first place.
pub proof fn lemma_first_occurrence(hay: Seq<char>, needle: Seq<char>, at: int)
    requires
        first_occurs_at(hay, needle, at),
    ensures
        occurs(hay, needle),
        first_occurrence(hay, needle) == at,
{
    let other = first_occurrence(hay, needle);
    assert(first_occurs_at(hay, needle, other));
    if other < at {
        assert(!occurs_at(hay, needle, other));
    }
    if at < other {
        assert(!occurs_at(hay, needle, at));
    }
}

/// Where a text occurs, it occurs somewhere first.
pub proof fn lemma_first_occurrence_exists(hay: Seq<char>, needle: Seq<char>, at: int)
    requires
        occurs_at(hay, needle, at),
    ensures
        first_occurs_at(hay, needle, first_occurrence(hay, needle)),
    decreases at,
{
    if first_occurs_at(hay, needle, at) {
        lemma_first_occurrence(hay, needle, at);
    } else {
        let earlier = choose|i: int| 0 <= i < at && occurs_at(hay, needle, i);
        lemma_first_occurrence_exists(hay, needle, earlier);
    }
}

/// Tests whether `needle` stands in `hay` at `at`.
fn stands_at(hay: &Vec<char>, needle: &Vec<char>, at: usize) -> (res: bool)
    requires
        at + needle@.len() <= hay@.len(),
    ensures
        res == occurs_at(hay@, needle@, at as int),
{
    let n: usize = hay.len();
    let mut i: usize = 0;
    while i < needle.len()
        invariant
            n == hay@.len(),
            at + needle@.len() <= n,
            i <= needle@.len(),
            forall|j: int| 0 <= j < i ==> hay@[at + j] == #[trigger] needle@[j],
        decreases needle.len() - i,
    {
        if hay[at + i] != needle[i] {
            assert(hay@.subrange(at as int, at + needle@.len())[i as int] != needle@[i as int]);
            return false;
        }
        i = i + 1;
    }
    assert(hay@.subrange(at as int, at + needle@.len()) =~= needle@);
    true
}

/// The place where `needle` first stands in `hay`.
fn find(hay: &Vec<char>, needle: &Vec<char>) -> (res: Option<usize>)
    ensures
        match res {
            Some(at) => first_occurs_at(hay@, needle@, at as int),
            None => !occurs(hay@, needle@),
        },
{
    if needle.len() > hay.len() {
        return None;
    }
    let last: usize = hay.len() - needle.len();
    let mut at: usize = 0;
    loop
        invariant
            last == hay@.len() - needle@.len(),
            at <= last,
            forall|i: int| 0 <= i < at ==> !#[trigger] occurs_at(hay@, needle@, i),
        decreases last - at,
    {
        if stands_at(hay, needle, at) {
            return Some(at);
        }
        if at == last {
            return None;
        }
        at = at + 1;
    }
}

/// `hay` up to the first `needle`; all of it where there is none.
pub fn text_before<'a>(hay: &'a str, needle: &str) -> (res: &'a str)
    ensures
        res@ == before(hay@, needle@),
{
    let chars = chars_of(hay);
    match find(&chars, &chars_of(needle)) {
        Some(at) => {
            proof {
                lemma_first_occurrence(hay@, needle@, at as int);
            }
            hay.substring_char(0, at)
        },
        None => hay,
    }
}

/// What follows the first `needle` in `hay`.
pub fn text_after<'a>(hay: &'a str, needle: &str) -> (res: Option<&'a str>)
    ensures
        match res {
            Some(rest) => after(hay@, needle@) == Some(rest@),
            None => after(hay@, needle@) is None,
        },
{
    let chars = chars_of(hay);
    let pattern = chars_of(needle);
    let n: usize = chars.len();
    match find(&chars, &pattern) {
        Some(at) => {
            proof {
                lemma_first_occurrence(hay@, needle@, at as int);
            }
            Some(hay.substring_char(at + pattern.len(), n))
        },
        None => None,
    }
}

// ---------------------------------------------------------------------------
// Paths
// ---------------------------------------------------------------------------

/// The path of `name` in the directory `dir`, with `/` between components.
pub open spec fn joined(dir: Seq<char>, name: Seq<char>) -> Seq<char> {
    if name.len() > 0 && name.first() == '/' {
        name
    } else if dir.len() == 0 || dir.last() == '/' {
        dir + name
    } else {
        dir.push('/') + name
    }
}

/// The path of `name` in the directory `dir`.
pub fn join_path(dir: &str, name: &str) -> (res: String)
    ensures
        res@ == joined(dir@, name@),
{
    let d: usize = dir.unicode_len();
    if name.unicode_len() > 0 && name.get_char(0) == '/' {
        return name.to_owned();
    }
    let mut path = dir.to_owned();
    if d > 0 && dir.get_char(d - 1) != '/' {
        path.append("/");
    }
    path.append(name);
    proof {
        reveal_strlit("/");
    }
    assert(path@ =~= joined(dir@, name@));
    path
}

} // verus!

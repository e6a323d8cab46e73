//! Small text predicates over `Seq<char>`: white space, ASCII case folding and
//! trimming, with executable counterparts on `&str`.

use vstd::prelude::*;
use vstd::string::*;

verus! {

/// Code points with the Unicode `White_Space` property.
pub open spec fn is_whitespace(c: char) -> bool {
    let u = c as u32;
    (0x09 <= u <= 0x0D) || u == 0x20 || u == 0x85 || u == 0xA0 || u == 0x1680 || (0x2000 <= u
        <= 0x200A) || u == 0x2028 || u == 0x2029 || u == 0x202F || u == 0x205F || u == 0x3000
}

/// Code of `c` with the ASCII upper-case letters mapped to lower case.
pub open spec fn ascii_fold(c: char) -> u32 {
    let u = c as u32;
    if 0x41 <= u <= 0x5A {
        (u + 0x20) as u32
    } else {
        u
    }
}

/// Two texts are equal up to the case of their ASCII letters.
pub open spec fn eq_ignoring_ascii_case(a: Seq<char>, b: Seq<char>) -> bool {
    &&& a.len() == b.len()
    &&& forall|i: int| 0 <= i < a.len() ==> ascii_fold(#[trigger] a[i]) == ascii_fold(b[i])
}

/// Number of white-space characters at the start of `s`.
pub open spec fn leading_whitespace(s: Seq<char>) -> nat
    decreases s.len(),
{
    if s.len() > 0 && is_whitespace(s[0]) {
        1 + leading_whitespace(s.drop_first())
    } else {
        0
    }
}

/// Number of white-space characters at the end of `s`.
pub open spec fn trailing_whitespace(s: Seq<char>) -> nat
    decreases s.len(),
{
    if s.len() > 0 && is_whitespace(s.last()) {
        1 + trailing_whitespace(s.drop_last())
    } else {
        0
    }
}

/// `s` without the white space at its start and end.
pub open spec fn trimmed(s: Seq<char>) -> Seq<char> {
    let start = leading_whitespace(s);
    if start == s.len() {
        Seq::empty()
    } else {
        s.subrange(start as int, s.len() - trailing_whitespace(s))
    }
}

/// `s` holds nothing but white space.
pub open spec fn is_blank(s: Seq<char>) -> bool {
    forall|i: int| 0 <= i < s.len() ==> is_whitespace(#[trigger] s[i])
}

/// The leading run has `k` characters if the first `k` are white space and
/// the next one, if any, is not.
pub proof fn lemma_leading_whitespace(s: Seq<char>, k: int)
    requires
        0 <= k <= s.len(),
        forall|i: int| 0 <= i < k ==> is_whitespace(#[trigger] s[i]),
        k < s.len() ==> !is_whitespace(s[k]),
    ensures
        leading_whitespace(s) == k,
    decreases k,
{
    if k > 0 {
        let rest = s.drop_first();
        assert forall|i: int| 0 <= i < k - 1 implies is_whitespace(#[trigger] rest[i]) by {
            assert(rest[i] == s[i + 1]);
        }
        if k - 1 < rest.len() {
            assert(rest[k - 1] == s[k]);
        }
        lemma_leading_whitespace(rest, k - 1);
    }
}

/// The trailing run has `k` characters if the last `k` are white space and
/// the one before them, if any, is not.
pub proof fn lemma_trailing_whitespace(s: Seq<char>, k: int)
    requires
        0 <= k <= s.len(),
        forall|i: int| s.len() - k <= i < s.len() ==> is_whitespace(#[trigger] s[i]),
        k < s.len() ==> !is_whitespace(s[s.len() - k - 1]),
    ensures
        trailing_whitespace(s) == k,
    decreases k,
{
    if k > 0 {
        let rest = s.drop_last();
        assert forall|i: int| rest.len() - (k - 1) <= i < rest.len() implies is_whitespace(
            #[trigger] rest[i],
        ) by {
            assert(rest[i] == s[i]);
        }
        if k - 1 < rest.len() {
            assert(rest[rest.len() - (k - 1) - 1] == s[s.len() - k - 1]);
        }
        lemma_trailing_whitespace(rest, k - 1);
    }
}

/// A text trims to nothing exactly when it is blank.
pub proof fn lemma_trimmed_empty_iff_blank(s: Seq<char>)
    ensures
        trimmed(s).len() == 0 <==> is_blank(s),
    decreases s.len(),
{
    lemma_leading_bound(s);
    lemma_trailing_bound(s);
    let start = leading_whitespace(s) as int;
    let end = s.len() - trailing_whitespace(s);
    if start == s.len() {
    } else {
        assert(!is_whitespace(s[start]));
        assert(!is_blank(s));
        if end <= start {
            // the trailing run would have to cover a character that is no white space
            assert(is_whitespace(s[start]));
        }
    }
}

/// The leading run is made of white space and ends at the first other character.
pub proof fn lemma_leading_bound(s: Seq<char>)
    ensures
        leading_whitespace(s) <= s.len(),
        forall|i: int| 0 <= i < leading_whitespace(s) ==> is_whitespace(#[trigger] s[i]),
        leading_whitespace(s) < s.len() ==> !is_whitespace(s[leading_whitespace(s) as int]),
    decreases s.len(),
{
    if s.len() > 0 && is_whitespace(s[0]) {
        let rest = s.drop_first();
        lemma_leading_bound(rest);
        assert forall|i: int| 0 <= i < leading_whitespace(s) implies is_whitespace(
            #[trigger] s[i],
        ) by {
            if i > 0 {
                assert(s[i] == rest[i - 1]);
            }
        }
        if leading_whitespace(s) < s.len() {
            assert(s[leading_whitespace(s) as int] == rest[leading_whitespace(rest) as int]);
        }
    }
}

/// The trailing run is made of white space and starts after the last other character.
pub proof fn lemma_trailing_bound(s: Seq<char>)
    ensures
        trailing_whitespace(s) <= s.len(),
        forall|i: int|
            s.len() - trailing_whitespace(s) <= i < s.len() ==> is_whitespace(#[trigger] s[i]),
        trailing_whitespace(s) < s.len() ==> !is_whitespace(
            s[s.len() - trailing_whitespace(s) - 1],
        ),
    decreases s.len(),
{
    if s.len() > 0 && is_whitespace(s.last()) {
        let rest = s.drop_last();
        lemma_trailing_bound(rest);
        assert forall|i: int| s.len() - trailing_whitespace(s) <= i < s.len() implies is_whitespace(
            #[trigger] s[i],
        ) by {
            if i < s.len() - 1 {
                assert(s[i] == rest[i]);
            }
        }
        if trailing_whitespace(s) < s.len() {
            assert(s[s.len() - trailing_whitespace(s) - 1] == rest[rest.len() - trailing_whitespace(
                rest,
            ) - 1]);
        }
    }
}

/// Tells whether `c` is white space.
pub fn char_is_whitespace(c: char) -> (b: bool)
    ensures
        b == is_whitespace(c),
{
    let u: u32 = c as u32;
    (0x09 <= u && u <= 0x0D) || u == 0x20 || u == 0x85 || u == 0xA0 || u == 0x1680 || (0x2000 <= u
        && u <= 0x200A) || u == 0x2028 || u == 0x2029 || u == 0x202F || u == 0x205F || u == 0x3000
}

/// Code of `c` with ASCII upper case folded to lower case.
pub fn char_ascii_fold(c: char) -> (u: u32)
    ensures
        u == ascii_fold(c),
{
    let u: u32 = c as u32;
    if 0x41 <= u && u <= 0x5A {
        u + 0x20
    } else {
        u
    }
}

/// Compares two texts, ignoring the case of ASCII letters.
pub fn eq_ignore_ascii_case(a: &str, b: &str) -> (equal: bool)
    ensures
        equal == eq_ignoring_ascii_case(a@, b@),
{
    let n: usize = a.unicode_len();
    if n != b.unicode_len() {
        return false;
    }
    let mut i: usize = 0;
    while i < n
        invariant
            i <= n,
            n == a@.len(),
            n == b@.len(),
            forall|j: int| 0 <= j < i ==> ascii_fold(#[trigger] a@[j]) == ascii_fold(b@[j]),
        decreases n - i,
    {
        if char_ascii_fold(a.get_char(i)) != char_ascii_fold(b.get_char(i)) {
            return false;
        }
        i = i + 1;
    }
    true
}

/// Tells whether `s` holds nothing but white space.
pub fn str_is_blank(s: &str) -> (blank: bool)
    ensures
        blank == is_blank(s@),
        blank == (trimmed(s@).len() == 0),
{
    proof {
        lemma_trimmed_empty_iff_blank(s@);
    }
    let n: usize = s.unicode_len();
    let mut i: usize = 0;
    while i < n
        invariant
            i <= n,
            n == s@.len(),
            forall|j: int| 0 <= j < i ==> is_whitespace(#[trigger] s@[j]),
        decreases n - i,
    {
        if !char_is_whitespace(s.get_char(i)) {
            proof {
                assert(!is_whitespace(s@[i as int]));
                lemma_trimmed_empty_iff_blank(s@);
            }
            return false;
        }
        i = i + 1;
    }
    true
}

/// `s` without the white space around it.
pub fn trim(s: &str) -> (t: &str)
    ensures
        t@ == trimmed(s@),
{
    let n: usize = s.unicode_len();
    let mut start: usize = 0;
    while start < n && char_is_whitespace(s.get_char(start))
        invariant
            start <= n,
            n == s@.len(),
            forall|j: int| 0 <= j < start ==> is_whitespace(#[trigger] s@[j]),
        decreases n - start,
    {
        start = start + 1;
    }
    proof {
        lemma_leading_whitespace(s@, start as int);
    }
    if start == n {
        let t = s.substring_char(n, n);
        assert(t@ =~= Seq::<char>::empty());
        return t;
    }
    let mut end: usize = n;
    while end > start && char_is_whitespace(s.get_char(end - 1))
        invariant
            start < n,
            start <= end <= n,
            n == s@.len(),
            !is_whitespace(s@[start as int]),
            forall|j: int| end <= j < n ==> is_whitespace(#[trigger] s@[j]),
        decreases end,
    {
        end = end - 1;
    }
    proof {
        lemma_trailing_whitespace(s@, n - end);
    }
    s.substring_char(start, end)
}

/// The character of the decimal digit `d`.
pub open spec fn digit_char(d: int) -> char {
    if d == 0 {
        '0'
    } else if d == 1 {
        '1'
    } else if d == 2 {
        '2'
    } else if d == 3 {
        '3'
    } else if d == 4 {
        '4'
    } else if d == 5 {
        '5'
    } else if d == 6 {
        '6'
    } else if d == 7 {
        '7'
    } else if d == 8 {
        '8'
    } else {
        '9'
    }
}

/// `n` in decimal, without leading zeros.
pub open spec fn decimal_digits(n: nat) -> Seq<char>
    decreases n,
{
    if n < 10 {
        seq![digit_char(n as int)]
    } else {
        decimal_digits(n / 10).push(digit_char((n % 10) as int))
    }
}

/// `millis` thousandths as a decimal number with three places.
pub open spec fn decimal_thousandths(millis: nat) -> Seq<char> {
    decimal_digits(millis / 1000) + seq![
        '.',
        digit_char((millis / 100 % 10) as int),
        digit_char((millis / 10 % 10) as int),
        digit_char((millis % 10) as int),
    ]
}

/// `text` holds a backquote, a line feed or a carriage return.
pub open spec fn has_unsafe_shell_tokens(text: Seq<char>) -> bool {
    exists|i: int| 0 <= i < text.len() && is_unsafe_shell_char(#[trigger] text[i])
}

pub open spec fn is_unsafe_shell_char(c: char) -> bool {
    c == '`' || c == '\n' || c == '\r'
}

fn digit_str(d: u64) -> (text: &'static str)
    requires
        d < 10,
    ensures
        text@ == seq![digit_char(d as int)],
{
    proof {
        reveal_strlit("0");
        reveal_strlit("1");
        reveal_strlit("2");
        reveal_strlit("3");
        reveal_strlit("4");
        reveal_strlit("5");
        reveal_strlit("6");
        reveal_strlit("7");
        reveal_strlit("8");
        reveal_strlit("9");
    }
    let text = if d == 0 {
        "0"
    } else if d == 1 {
        "1"
    } else if d == 2 {
        "2"
    } else if d == 3 {
        "3"
    } else if d == 4 {
        "4"
    } else if d == 5 {
        "5"
    } else if d == 6 {
        "6"
    } else if d == 7 {
        "7"
    } else if d == 8 {
        "8"
    } else {
        "9"
    };
    assert(text@ =~= seq![digit_char(d as int)]);
    text
}

/// Writes `n` in decimal.
pub fn decimal(n: u64) -> (text: String)
    ensures
        text@ == decimal_digits(n as nat),
    decreases n,
{
    if n < 10 {
        String::from_str(digit_str(n))
    } else {
        let mut text = decimal(n / 10);
        text.append(digit_str(n % 10));
        assert(text@ =~= decimal_digits(n as nat));
        text
    }
}

/// Writes `millis` thousandths as a decimal number with three places.
pub fn thousandths(millis: u64) -> (text: String)
    ensures
        text@ == decimal_thousandths(millis as nat),
{
    proof {
        reveal_strlit(".");
    }
    let mut text = decimal(millis / 1000);
    text.append(".");
    text.append(digit_str(millis / 100 % 10));
    text.append(digit_str(millis / 10 % 10));
    text.append(digit_str(millis % 10));
    assert(text@ =~= decimal_thousandths(millis as nat));
    text
}

/// Tells whether `value` holds a backquote, a line feed or a carriage
/// return.
pub fn contains_unsafe_shell_tokens(value: &str) -> (found: bool)
    ensures
        found == has_unsafe_shell_tokens(value@),
{
    let n: usize = value.unicode_len();
    let mut i: usize = 0;
    while i < n
        invariant
            i <= n,
            n == value@.len(),
            forall|j: int| 0 <= j < i ==> !is_unsafe_shell_char(#[trigger] value@[j]),
        decreases n - i,
    {
        let c = value.get_char(i);
        if c == '`' || c == '\n' || c == '\r' {
            assert(is_unsafe_shell_char(value@[i as int]));
            return true;
        }
        i = i + 1;
    }
    false
}

/// Checks an argument that comes from outside: it must hold more than white
/// space, and no backquote, line feed or carriage return. The error names
/// the argument.
pub fn ensure_safe_argument(name: &str, value: &str) -> (checked: Result<(), String>)
    ensures
        match checked {
            Ok(()) => !is_blank(value@) && !has_unsafe_shell_tokens(value@),
            Err(message) => if is_blank(value@) {
                message@ == name@ + " must not be empty"@
            } else {
                has_unsafe_shell_tokens(value@) && message@ == name@
                    + " contains disallowed shell operator characters"@
            },
        },
{
    if str_is_blank(value) {
        let mut message = String::from_str(name);
        message.append(" must not be empty");
        return Err(message);
    }
    if contains_unsafe_shell_tokens(value) {
        let mut message = String::from_str(name);
        message.append(" contains disallowed shell operator characters");
        return Err(message);
    }
    Ok(())
}

} // verus!

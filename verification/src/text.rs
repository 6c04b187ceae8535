use vstd::prelude::*;

use crate::error::Error;

verus! {

/// Whether `char::is_whitespace` holds of `c` (Unicode `White_Space`).
pub uninterp spec fn unicode_white_space(c: char) -> bool;

/// Calls `char::is_whitespace`; its result is named `unicode_white_space`.
#[verifier::external_body]
fn char_is_whitespace(c: char) -> (r: bool)
    ensures
        r == unicode_white_space(c),
{
    c.is_whitespace()
}

/// A text is blank when every character of it is white space (the empty text too).
pub open spec fn is_blank(s: Seq<char>) -> bool {
    forall|i: int| 0 <= i < s.len() ==> #[trigger] unicode_white_space(s[i])
}

/// Whether `s` is empty or holds only white space.
pub fn blank(s: &str) -> (r: bool)
    ensures
        r == is_blank(s@),
{
    let mut all_white = true;
    for c in it: s.chars()
        invariant
            it.seq() == s@,
            all_white == (forall|j: int| 0 <= j < it.index() ==> #[trigger] unicode_white_space(s@[j])),
    {
        if !char_is_whitespace(c) {
            all_white = false;
        }
    }
    all_white
}


/// The message of the configuration error that a blank `name` gets.
pub open spec fn blank_message(name: Seq<char>) -> Seq<char> {
    name + " must not be empty"@
}

/// `Ok` when `value` holds a character that is not white space; otherwise the
/// configuration error "`name` must not be empty".
pub fn nonempty(value: &str, name: &str) -> (r: Result<(), Error>)
    ensures
        r is Ok <==> !is_blank(value@),
        r matches Err(e) ==> (e matches Error::Configuration(m) && m@ == blank_message(name@)),
{
    if blank(value) {
        Err(Error::Configuration(join(name, " must not be empty")))
    } else {
        Ok(())
    }
}

/// The text `a` followed by the text `b`.
pub fn join(a: &str, b: &str) -> (r: String)
    ensures
        r@ == a@ + b@,
{
    let mut s = a.to_owned();
    s.append(b);
    s
}

/// Whether an HTTP header value may hold the character `c`: a visible or
/// non-ASCII character, or a horizontal tab.
pub open spec fn header_char_ok(c: char) -> bool {
    (c as u32 >= 32 && c as u32 != 127) || c == '\t'
}

/// Whether every character of `s` may stand in an HTTP header value.
pub open spec fn is_header_value(s: Seq<char>) -> bool {
    forall|i: int| 0 <= i < s.len() ==> #[trigger] header_char_ok(s[i])
}

/// Calls `http::HeaderValue::from_str` and reports whether it accepted `s`.
/// Its source accepts exactly the texts whose UTF-8 bytes are all at least 32
/// and not 127, or a tab; the bytes of a character beyond ASCII are all at
/// least 128, so this is `is_header_value` on the characters.
#[verifier::external_body]
pub(crate) fn header_value_accepts(s: &str) -> (r: bool)
    ensures
        r == is_header_value(s@),
{
    reqwest::header::HeaderValue::from_str(s).is_ok()
}

/// The decimal digit character for `d < 10`.
pub open spec fn digit_char(d: nat) -> char {
    if d == 0 { '0' } else if d == 1 { '1' } else if d == 2 { '2' } else if d == 3 { '3' }
    else if d == 4 { '4' } else if d == 5 { '5' } else if d == 6 { '6' } else if d == 7 { '7' }
    else if d == 8 { '8' } else { '9' }
}

fn digit(d: usize) -> (c: char)
    requires
        d < 10,
    ensures
        c == digit_char(d as nat),
{
    if d == 0 { '0' } else if d == 1 { '1' } else if d == 2 { '2' } else if d == 3 { '3' }
    else if d == 4 { '4' } else if d == 5 { '5' } else if d == 6 { '6' } else if d == 7 { '7' }
    else if d == 8 { '8' } else { '9' }
}

/// The decimal spelling of `n`, without leading zeros.
pub open spec fn decimal(n: nat) -> Seq<char>
    decreases n,
{
    if n < 10 {
        seq![digit_char(n)]
    } else {
        decimal(n / 10).push(digit_char(n % 10))
    }
}

/// Appends the decimal spelling of `n` to `out`.
fn push_decimal(n: usize, out: &mut Vec<char>)
    ensures
        final(out)@ == old(out)@ + decimal(n as nat),
    decreases n,
{
    if n >= 10 {
        push_decimal(n / 10, out);
    }
    out.push(digit(n % 10));
}

/// Whether `s` is the decimal spelling of `n`.
pub fn spells_decimal(s: &str, n: usize) -> (r: bool)
    ensures
        r == (s@ == decimal(n as nat)),
{
    let mut digits: Vec<char> = Vec::new();
    push_decimal(n, &mut digits);
    assert(digits@ == decimal(n as nat));
    let len = s.unicode_len();
    if len != digits.len() {
        return false;
    }
    let mut i: usize = 0;
    while i < len
        invariant
            len == s@.len(),
            len == digits@.len(),
            digits@ == decimal(n as nat),
            i <= len,
            forall|j: int| 0 <= j < i ==> s@[j] == digits@[j],
        decreases len - i,
    {
        if s.get_char(i) != digits[i] {
            assert(s@[i as int] != digits@[i as int]);
            return false;
        }
        i = i + 1;
    }
    assert(s@ =~= digits@);
    true
}


/// Whether the texts `a` and `b` are the same.
pub fn same_text(a: &str, b: &str) -> (r: bool)
    ensures
        r == (a@ == b@),
{
    let n = a.unicode_len();
    if n != b.unicode_len() {
        return false;
    }
    let mut i: usize = 0;
    while i < n
        invariant
            n == a@.len(),
            n == b@.len(),
            i <= n,
            forall|j: int| 0 <= j < i ==> a@[j] == b@[j],
        decreases n - i,
    {
        if a.get_char(i) != b.get_char(i) {
            assert(a@[i as int] != b@[i as int]);
            return false;
        }
        i = i + 1;
    }
    assert(a@ =~= b@);
    true
}


/// Distinct numbers have distinct decimal spellings, so the distribution keys
/// of score levels (`"1"`, `"10"`, ...) never stand for one another.
pub proof fn law_decimal_spellings_distinct(a: nat, b: nat)
    requires
        decimal(a) == decimal(b),
    ensures
        a == b,
    decreases a,
{
    if a < 10 && b < 10 {
        assert(decimal(a)[0] == digit_char(a));
        assert(decimal(b)[0] == digit_char(b));
    } else {
        lemma_decimal_len(a / 10);
        lemma_decimal_len(b / 10);
        if a < 10 {
            assert(decimal(a).len() == 1);
        } else if b < 10 {
            assert(decimal(b).len() == 1);
        } else {
            assert(decimal(a).last() == digit_char(a % 10));
            assert(decimal(b).last() == digit_char(b % 10));
            assert(decimal(a / 10) =~= decimal(a).drop_last());
            assert(decimal(b / 10) =~= decimal(b).drop_last());
            law_decimal_spellings_distinct(a / 10, b / 10);
        }
    }
}

/// A decimal spelling has at least one digit.
proof fn lemma_decimal_len(n: nat)
    ensures
        decimal(n).len() >= 1,
    decreases n,
{
    if n >= 10 {
        lemma_decimal_len(n / 10);
    }
}


/// The number that a text of decimal digits spells.
pub open spec fn spelled_value(s: Seq<char>) -> int
    decreases s.len(),
{
    if s.len() == 0 {
        0
    } else {
        spelled_value(s.drop_last()) * 10 + (s.last() as int - '0' as int)
    }
}

proof fn lemma_digit_value(d: nat)
    requires
        d < 10,
    ensures
        digit_char(d) as int - '0' as int == d,
        '0' <= digit_char(d) <= '9',
{
}

/// The decimal spelling of `n` is made of digits, spells `n`, and has no
/// leading zero.
pub proof fn law_decimal_spells_its_number(n: nat)
    ensures
        decimal(n).len() >= 1,
        forall|i: int| 0 <= i < decimal(n).len() ==> '0' <= #[trigger] decimal(n)[i] <= '9',
        spelled_value(decimal(n)) == n,
        n >= 10 ==> decimal(n)[0] != '0',
    decreases n,
{
    if n < 10 {
        lemma_digit_value(n);
        assert(decimal(n).drop_last() =~= Seq::<char>::empty());
        assert(spelled_value(Seq::<char>::empty()) == 0);
    } else {
        lemma_digit_value(n % 10);
        law_decimal_spells_its_number(n / 10);
        let d = decimal(n);
        assert(d.drop_last() =~= decimal(n / 10));
        assert(d.last() == digit_char(n % 10));
        assert(spelled_value(d) == spelled_value(decimal(n / 10)) * 10 + (n % 10));
        assert(d[0] == decimal(n / 10)[0]);
        assert forall|i: int| 0 <= i < d.len() implies '0' <= #[trigger] d[i] <= '9' by {
            if i < d.len() - 1 {
                assert(d[i] == decimal(n / 10)[i]);
            }
        }
    }
}

} // verus!

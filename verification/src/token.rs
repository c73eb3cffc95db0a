//! Tokens and their textual form.
//!
//! A token is a string of 1 to 8 ASCII digits. Internally a token is kept
//! as its digit count together with its numeric value; that pair is in
//! bijection with the digit strings, so membership questions about the
//! pool and the ledger can be asked of plain integers.

use vstd::prelude::*;

verus! {

/// A character is an ASCII digit.
pub open spec fn is_digit_char(c: char) -> bool {
    48 <= c as int <= 57
}

/// Numeric value of an ASCII digit character.
pub open spec fn digit_value(c: char) -> nat {
    (c as int - 48) as nat
}

/// Every character of `s` is an ASCII digit.
pub open spec fn all_digits(s: Seq<char>) -> bool {
    forall|i: int| 0 <= i < s.len() ==> is_digit_char(#[trigger] s[i])
}

/// A well-formed token string: 1 to 8 ASCII digits.
pub open spec fn valid_token_str(s: Seq<char>) -> bool {
    1 <= s.len() <= 8 && all_digits(s)
}

/// A well-formed student identifier: 1 to 20 ASCII digits.
pub open spec fn valid_student_id_str(s: Seq<char>) -> bool {
    1 <= s.len() <= 20 && all_digits(s)
}

/// Numeric value of a digit string, read most-significant digit first.
pub open spec fn str_value(s: Seq<char>) -> nat
    decreases s.len(),
{
    if s.len() == 0 {
        0
    } else {
        str_value(s.drop_last()) * 10 + digit_value(s.last())
    }
}

/// Powers of ten.
pub open spec fn pow10(n: nat) -> nat
    decreases n,
{
    if n == 0 {
        1
    } else {
        10 * pow10((n - 1) as nat)
    }
}

/// The digit character for a value below ten.
pub open spec fn digit_char(d: nat) -> char {
    if d == 0 {
        '0'
    } else if d == 1 {
        '1'
    } else if d == 2 {
        '2'
    } else if d == 3 {
        '3'
    } else if d == 4 {
        '4'
    } else if d == 5 {
        '5'
    } else if d == 6 {
        '6'
    } else if d == 7 {
        '7'
    } else if d == 8 {
        '8'
    } else {
        '9'
    }
}

/// The digit string of `value` written with exactly `len` digits
/// (leading zeros kept).
pub open spec fn token_chars(len: nat, value: nat) -> Seq<char>
    decreases len,
{
    if len == 0 {
        Seq::empty()
    } else {
        token_chars((len - 1) as nat, value / 10).push(digit_char(value % 10))
    }
}

/// A token, kept as its digit count and numeric value. `Token { len, value }`
/// stands for the unique digit string of length `len` whose value is `value`.
#[derive(Clone, Copy, PartialEq, Eq, Structural, Debug)]
pub struct Token {
    pub len: u8,
    pub value: u64,
}

impl Token {
    /// The value fits in the declared digit count, which is 1 to 8.
    pub open spec fn wf(self) -> bool {
        1 <= self.len <= 8 && (self.value as nat) < pow10(self.len as nat)
    }

    /// The digit string this token stands for.
    pub open spec fn chars(self) -> Seq<char> {
        token_chars(self.len as nat, self.value as nat)
    }
}

/// `pow10` is monotone.
pub proof fn lemma_pow10_mono(a: nat, b: nat)
    requires
        a <= b,
    ensures
        pow10(a) <= pow10(b),
    decreases b,
{
    if a < b {
        lemma_pow10_mono(a, (b - 1) as nat);
    }
}

/// `pow10(8)` written out.
pub proof fn lemma_pow10_8()
    ensures
        pow10(8) == 100000000,
{
    reveal_with_fuel(pow10, 9);
}

/// A digit string's value is below `pow10` of its length.
pub proof fn lemma_str_value_bound(s: Seq<char>)
    requires
        all_digits(s),
    ensures
        str_value(s) < pow10(s.len()),
    decreases s.len(),
{
    if s.len() > 0 {
        assert(all_digits(s.drop_last())) by {
            assert(forall|i: int|
                0 <= i < s.len() - 1 ==> s.drop_last()[i] == #[trigger] s[i]);
        }
        lemma_str_value_bound(s.drop_last());
        assert(digit_value(s.last()) < 10);
    }
}

/// Writing a value of `len` digits back out gives a digit string of that
/// length and that value: the (len, value) pair determines the string.
pub proof fn lemma_token_chars_value(len: nat, value: nat)
    requires
        value < pow10(len),
    ensures
        token_chars(len, value).len() == len,
        all_digits(token_chars(len, value)),
        str_value(token_chars(len, value)) == value,
    decreases len,
{
    if len > 0 {
        assert(value / 10 < pow10((len - 1) as nat)) by {
            assert(pow10(len) == 10 * pow10((len - 1) as nat));
        }
        lemma_token_chars_value((len - 1) as nat, value / 10);
        let prefix = token_chars((len - 1) as nat, value / 10);
        let whole = token_chars(len, value);
        assert(whole == prefix.push(digit_char(value % 10)));
        assert(whole.drop_last() =~= prefix);
        assert(digit_value(digit_char(value % 10)) == value % 10);
        assert(str_value(whole) == (value / 10) * 10 + value % 10);
    }
}

/// Parsing a digit string and writing it back out gives the same string.
pub proof fn lemma_chars_of_value(s: Seq<char>)
    requires
        all_digits(s),
    ensures
        token_chars(s.len(), str_value(s)) =~= s,
    decreases s.len(),
{
    if s.len() > 0 {
        let prefix = s.drop_last();
        assert(all_digits(prefix)) by {
            assert(forall|i: int|
                0 <= i < s.len() - 1 ==> prefix[i] == #[trigger] s[i]);
        }
        lemma_chars_of_value(prefix);
        let v = str_value(s);
        let d = digit_value(s.last());
        assert(d < 10);
        assert(v == str_value(prefix) * 10 + d);
        assert(v / 10 == str_value(prefix) && v % 10 == d) by (nonlinear_arith)
            requires
                v == str_value(prefix) * 10 + d,
                d < 10,
        ;
        assert(digit_char(d) == s.last());
        assert(token_chars(s.len(), v)
            == token_chars((s.len() - 1) as nat, v / 10).push(digit_char(v % 10)));
        assert(token_chars(s.len(), v) =~= prefix.push(s.last()));
        assert(prefix.push(s.last()) =~= s);
    }
}

/// The token a valid digit string stands for.
pub open spec fn spec_token_of(s: Seq<char>) -> Token {
    Token { len: s.len() as u8, value: str_value(s) as u64 }
}

/// Distinct valid token strings stand for distinct tokens: the pair of
/// digit count and numeric value is in bijection with the digit strings,
/// so pool and ledger membership of the pair decides membership of the
/// string.
pub proof fn lemma_token_of_injective(s1: Seq<char>, s2: Seq<char>)
    requires
        valid_token_str(s1),
        valid_token_str(s2),
        spec_token_of(s1) == spec_token_of(s2),
    ensures
        s1 == s2,
{
    lemma_str_value_bound(s1);
    lemma_str_value_bound(s2);
    lemma_pow10_mono(s1.len(), 8);
    lemma_pow10_mono(s2.len(), 8);
    lemma_pow10_8();
    assert(s1.len() == s2.len());
    assert(str_value(s1) == str_value(s2));
    lemma_chars_of_value(s1);
    lemma_chars_of_value(s2);
    assert(s1 =~= s2);
}

/// Parse a token string: accepted exactly when it is 1 to 8 ASCII digits,
/// and the returned token stands for exactly that string.
pub fn parse_token(s: &str) -> (r: Option<Token>)
    ensures
        r is Some <==> valid_token_str(s@),
        r is Some ==> r->Some_0 == spec_token_of(s@) && r->Some_0.wf() && r->Some_0.chars() == s@,
{
    let n = s.unicode_len();
    if n < 1 || n > 8 {
        return None;
    }
    let mut i: usize = 0;
    let mut v: u64 = 0;
    while i < n
        invariant
            0 <= i <= n,
            n == s@.len(),
            1 <= n <= 8,
            all_digits(s@.subrange(0, i as int)),
            v as nat == str_value(s@.subrange(0, i as int)),
            (v as nat) < pow10(i as nat),
        decreases n - i,
    {
        let c = s.get_char(i);
        let u = c as u32;
        if u < 48 || u > 57 {
            proof {
                assert(!is_digit_char(s@[i as int]));
            }
            return None;
        }
        let d = (u - 48) as u64;
        proof {
            lemma_pow10_mono(i as nat, 7);
            lemma_pow10_8();
            assert(pow10(8) == 10 * pow10(7));
            let prefix = s@.subrange(0, i as int);
            let next = s@.subrange(0, i as int + 1);
            assert(next.drop_last() =~= prefix);
            assert(next.last() == s@[i as int]);
            assert(all_digits(next)) by {
                assert(forall|j: int| 0 <= j < i ==> next[j] == #[trigger] prefix[j]);
            }
            assert(str_value(next) == str_value(prefix) * 10 + digit_value(s@[i as int]));
            assert(digit_value(s@[i as int]) == d);
            assert(pow10(i as nat + 1) == 10 * pow10(i as nat));
        }
        v = v * 10 + d;
        i += 1;
    }
    proof {
        assert(s@.subrange(0, n as int) =~= s@);
        lemma_chars_of_value(s@);
    }
    Some(Token { len: n as u8, value: v })
}

/// Check that a string is 1 to `max_len` ASCII digits. With `max_len = 20`
/// this is the student-identifier format check.
pub fn check_digit_str(s: &str, max_len: usize) -> (r: bool)
    ensures
        r == (1 <= s@.len() <= max_len && all_digits(s@)),
{
    let n = s.unicode_len();
    if n < 1 || n > max_len {
        return false;
    }
    let mut i: usize = 0;
    while i < n
        invariant
            0 <= i <= n,
            n == s@.len(),
            all_digits(s@.subrange(0, i as int)),
        decreases n - i,
    {
        let c = s.get_char(i);
        let u = c as u32;
        if u < 48 || u > 57 {
            proof {
                assert(!is_digit_char(s@[i as int]));
            }
            return false;
        }
        proof {
            let prefix = s@.subrange(0, i as int);
            let next = s@.subrange(0, i as int + 1);
            assert(forall|j: int| 0 <= j < i ==> next[j] == #[trigger] prefix[j]);
            assert(next[i as int] == s@[i as int]);
            assert(all_digits(next));
        }
        i += 1;
    }
    proof {
        assert(s@.subrange(0, n as int) =~= s@);
    }
    true
}

/// Render a single digit as its one-character string.
fn digit_str(d: u64) -> (r: &'static str)
    requires
        d < 10,
    ensures
        r@ == seq![digit_char(d as nat)],
{
    let r: &'static str = if d == 0 {
        "0"
    } else if d == 1 {
        "1"
    } else if d == 2 {
        "2"
    } else if d == 3 {
        "3"
    } else if d == 4 {
        "4"
    } else if d == 5 {
        "5"
    } else if d == 6 {
        "6"
    } else if d == 7 {
        "7"
    } else if d == 8 {
        "8"
    } else {
        "9"
    };
    proof {
        reveal_strlit("0");
        reveal_strlit("1");
        reveal_strlit("2");
        reveal_strlit("3");
        reveal_strlit("4");
        reveal_strlit("5");
        reveal_strlit("6");
        reveal_strlit("7");
        reveal_strlit("8");
        reveal_strlit("9");
        assert(r@ =~= seq![digit_char(d as nat)]);
    }
    r
}

/// Render `value` with exactly `len` digits, leading zeros kept.
fn digits_string(len: u8, value: u64) -> (r: String)
    requires
        (value as nat) < pow10(len as nat),
    ensures
        r@ == token_chars(len as nat, value as nat),
    decreases len,
{
    if len == 0 {
        String::new()
    } else {
        proof {
            assert(pow10(len as nat) == 10 * pow10((len - 1) as nat));
            assert((value as nat) / 10 < pow10((len - 1) as nat));
            assert((value as nat) / 10 == (value / 10) as nat);
            assert((value as nat) % 10 == (value % 10) as nat);
        }
        let rest = digits_string(len - 1, value / 10);
        rest.concat(digit_str(value % 10))
    }
}

/// The digit string a token stands for, as an owned string.
pub fn token_string(t: Token) -> (r: String)
    requires
        t.wf(),
    ensures
        r@ == t.chars(),
{
    digits_string(t.len, t.value)
}

} // verus!

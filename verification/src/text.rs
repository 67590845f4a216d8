//! Numbers as text: digits, the run of digits at a place in a text, its
//! value, and the shortest spelling of a number.

use vstd::prelude::*;

verus! {

/// Ten times `v`, or sixteen times `v` for hexadecimal.
pub open spec fn scaled(v: int, hex: bool) -> int {
    if hex {
        16 * v
    } else {
        10 * v
    }
}

/// The value of the digit `c`: a decimal digit, or a hexadecimal digit in
/// either case where `hex` is set. `None` where `c` is no digit.
pub open spec fn digit_of(c: char, hex: bool) -> Option<int> {
    if '0' <= c <= '9' {
        Some(c as int - '0' as int)
    } else if hex && 'a' <= c <= 'f' {
        Some(c as int - 'a' as int + 10)
    } else if hex && 'A' <= c <= 'F' {
        Some(c as int - 'A' as int + 10)
    } else {
        None
    }
}

/// The digit that stands for `d`, in lower case.
pub open spec fn digit_char(d: int) -> char {
    if d < 10 {
        (d + '0' as int) as char
    } else {
        (d - 10 + 'a' as int) as char
    }
}

/// Whether `s` holds the character `c` at `pos`.
pub open spec fn is_char(s: Seq<char>, pos: int, c: char) -> bool {
    0 <= pos < s.len() && s[pos] == c
}

/// Whether `s` holds a digit at `pos`.
pub open spec fn is_digit(s: Seq<char>, pos: int, hex: bool) -> bool {
    0 <= pos < s.len() && digit_of(s[pos], hex) is Some
}

/// The number of digits that follow one another in `s` from `pos` on.
pub open spec fn digits_from(s: Seq<char>, pos: int, hex: bool) -> nat
    decreases s.len() - pos,
{
    if is_digit(s, pos, hex) {
        1 + digits_from(s, pos + 1, hex)
    } else {
        0
    }
}

/// The number that the `n` digits of `s` from `pos` on spell.
pub open spec fn value_of(s: Seq<char>, pos: int, n: nat, hex: bool) -> int
    decreases n,
{
    if n == 0 {
        0
    } else {
        scaled(value_of(s, pos, (n - 1) as nat, hex), hex) + digit_of(s[pos + n - 1], hex)->0
    }
}

/// Which spellings of a number are taken.
pub struct Form {
    /// Hexadecimal digits, not decimal ones.
    pub hex: bool,
    /// The most digits a number may have, if there is a bound.
    pub limit: Option<usize>,
    /// Whether a number of more than one digit may begin with `0`.
    pub zero_prefix: bool,
    /// The largest number taken.
    pub max: u32,
}

/// The number that stands in `s` at `pos`, with the place behind it: the
/// whole run of digits there is the number. `None` where there is no digit,
/// or the run is not a spelling that `form` takes.
pub open spec fn number_at(s: Seq<char>, pos: int, form: Form) -> Option<(int, int)> {
    let n = digits_from(s, pos, form.hex);
    let v = value_of(s, pos, n, form.hex);
    if n == 0 {
        None
    } else if form.limit is Some && n > form.limit->0 {
        None
    } else if !form.zero_prefix && n > 1 && s[pos] == '0' {
        None
    } else if v > form.max {
        None
    } else {
        Some((v, pos + n))
    }
}

/// The shortest spelling of `n`: no sign, no leading zero, lower case.
pub open spec fn number_text(n: int, hex: bool) -> Seq<char>
    decreases n,
{
    if hex {
        if n < 16 {
            seq![digit_char(n)]
        } else {
            number_text(n / 16, hex).push(digit_char(n % 16))
        }
    } else {
        if n < 10 {
            seq![digit_char(n)]
        } else {
            number_text(n / 10, hex).push(digit_char(n % 10))
        }
    }
}

/// The value of a digit.
pub(crate) fn digit_value(c: char, hex: bool) -> (r: Option<u32>)
    ensures
        match r {
            Some(d) => digit_of(c, hex) == Some(d as int) && d < 16 && (!hex ==> d < 10),
            None => digit_of(c, hex) is None,
        },
{
    if '0' <= c && c <= '9' {
        Some(c as u32 - '0' as u32)
    } else if hex && 'a' <= c && c <= 'f' {
        Some(c as u32 - 'a' as u32 + 10)
    } else if hex && 'A' <= c && c <= 'F' {
        Some(c as u32 - 'A' as u32 + 10)
    } else {
        None
    }
}

/// The digit for a value below sixteen.
pub(crate) fn digit_for(d: u32) -> (c: char)
    requires
        d < 16,
    ensures
        c == digit_char(d as int),
{
    if d < 10 {
        (d as u8 + 48u8) as char
    } else {
        (d as u8 + 87u8) as char
    }
}

/// Every place in a run of digits holds a digit, and the run lies in the
/// text.
pub proof fn lemma_run_holds_digits(s: Seq<char>, pos: int, hex: bool)
    requires
        0 <= pos,
    ensures
        pos + digits_from(s, pos, hex) <= s.len() || digits_from(s, pos, hex) == 0,
        forall|j: int| pos <= j < pos + digits_from(s, pos, hex) ==> is_digit(s, j, hex),
        !is_digit(s, pos + digits_from(s, pos, hex), hex),
    decreases s.len() - pos,
{
    if is_digit(s, pos, hex) {
        lemma_run_holds_digits(s, pos + 1, hex);
    }
}

/// More digits spell no smaller a number.
pub proof fn lemma_value_grows(s: Seq<char>, pos: int, k: nat, n: nat, hex: bool)
    requires
        k <= n,
        forall|j: int| pos <= j < pos + n ==> is_digit(s, j, hex),
    ensures
        0 <= value_of(s, pos, k, hex) <= value_of(s, pos, n, hex),
    decreases n,
{
    if n > 0 {
        assert(is_digit(s, pos + n - 1, hex));
        if k < n {
            lemma_value_grows(s, pos, k, (n - 1) as nat, hex);
        } else {
            lemma_value_grows(s, pos, (n - 1) as nat, (n - 1) as nat, hex);
        }
    }
}

/// Reads the number that stands in `text` at `pos`.
pub(crate) fn read_number(text: &Vec<char>, pos: usize, form: &Form) -> (r: Option<(u32, usize)>)
    requires
        pos <= text@.len(),
    ensures
        match r {
            Some((v, next)) => number_at(text@, pos as int, *form) == Some(
                (v as int, next as int),
            ) && pos < next <= text@.len(),
            None => number_at(text@, pos as int, *form) is None,
        },
{
    let ghost s = text@;
    let len = text.len();
    let ghost run = digits_from(s, pos as int, form.hex);
    let mut i: usize = pos;
    let mut value: u32 = 0;
    proof {
        lemma_run_holds_digits(s, pos as int, form.hex);
    }
    loop
        invariant
            len == s.len(),
            s == text@,
            pos <= i <= len,
            run == digits_from(s, pos as int, form.hex),
            run == (i - pos) + digits_from(s, i as int, form.hex),
            forall|j: int| pos <= j < pos + run ==> is_digit(s, j, form.hex),
            value == value_of(s, pos as int, (i - pos) as nat, form.hex),
            value <= form.max,
            form.limit is Some ==> i - pos <= form.limit->0,
        ensures
            run == i - pos,
        decreases len - i,
    {
        if i >= len {
            break ;
        }
        let digit = match digit_value(text[i], form.hex) {
            Some(d) => d,
            None => {
                break ;
            },
        };
        proof {
            lemma_value_grows(s, pos as int, (i - pos + 1) as nat, run, form.hex);
        }
        match form.limit {
            Some(m) => {
                if i - pos >= m {
                    return None;
                }
            },
            None => {},
        }
        let wide: u64 = if form.hex {
            16 * (value as u64) + digit as u64
        } else {
            10 * (value as u64) + digit as u64
        };
        if wide > form.max as u64 {
            return None;
        }
        value = wide as u32;
        i = i + 1;
    }
    if i == pos {
        None
    } else if !form.zero_prefix && i - pos > 1 && text[pos] == '0' {
        None
    } else {
        Some((value, i))
    }
}

/// Appends one character to a string.
///
/// Trusted: `String::push` of the standard library, which appends the
/// character to the end of the string and changes nothing else.
#[verifier::external_body]
pub(crate) fn push_char(out: &mut String, c: char)
    ensures
        final(out)@ == old(out)@.push(c),
{
    out.push(c)
}

/// Appends the shortest spelling of `n`.
pub(crate) fn push_number(out: &mut String, n: u32, hex: bool)
    ensures
        final(out)@ == old(out)@ + number_text(n as int, hex),
    decreases n,
{
    let radix: u32 = if hex {
        16
    } else {
        10
    };
    if n >= radix {
        push_number(out, n / radix, hex);
    }
    push_char(out, digit_for(n % radix));
    assert(final(out)@ =~= old(out)@ + number_text(n as int, hex));
}

/// Whether `s` holds the text `t` at `pos`.
pub open spec fn holds(s: Seq<char>, pos: int, t: Seq<char>) -> bool {
    &&& 0 <= pos
    &&& pos + t.len() <= s.len()
    &&& forall|i: int| 0 <= i < t.len() ==> s[pos + i] == #[trigger] t[i]
}

/// A text holds `a + b` at a place exactly if it holds `a` there and `b`
/// behind it.
pub proof fn lemma_holds_both(s: Seq<char>, pos: int, a: Seq<char>, b: Seq<char>)
    ensures
        holds(s, pos, a + b) <==> holds(s, pos, a) && holds(s, pos + a.len(), b),
{
    if holds(s, pos, a + b) {
        assert forall|i: int| 0 <= i < a.len() implies s[pos + i] == #[trigger] a[i] by {
            assert((a + b)[i] == a[i]);
        }
        assert forall|i: int| 0 <= i < b.len() implies s[pos + a.len() + i] == #[trigger] b[i] by {
            assert((a + b)[a.len() + i] == b[i]);
        }
    }
    if holds(s, pos, a) && holds(s, pos + a.len(), b) {
        assert forall|i: int| 0 <= i < (a + b).len() implies s[pos + i] == #[trigger] (a + b)[i] by {
            if i < a.len() {
                assert(a[i] == (a + b)[i]);
            } else {
                assert(b[i - a.len()] == (a + b)[i]);
            }
        }
    }
}

/// A digit's value is the digit's own.
pub proof fn lemma_digit_char(d: int, hex: bool)
    requires
        0 <= d < 16,
        hex || d < 10,
    ensures
        digit_of(digit_char(d), hex) == Some(d),
        digit_of(digit_char(d), true) == Some(d),
        digit_char(d) != '0' <==> d != 0,
{
}

/// The shortest spelling of a number is made of digits, has one digit for
/// each power of the radix that the number reaches, and begins with `0`
/// only when it is `0` itself.
pub proof fn lemma_number_text(n: int, hex: bool)
    requires
        0 <= n,
    ensures
        number_text(n, hex).len() >= 1,
        forall|i: int|
            0 <= i < number_text(n, hex).len() ==> digit_of(
                #[trigger] number_text(n, hex)[i],
                hex,
            ) is Some,
        number_text(n, hex)[0] == '0' <==> n == 0,
        n == 0 ==> number_text(n, hex).len() == 1,
        !hex && n <= 999 ==> number_text(n, hex).len() <= 3,
        hex && n <= 0xffff ==> number_text(n, hex).len() <= 4,
    decreases n,
{
    let t = number_text(n, hex);
    if hex {
        lemma_digit_char(n % 16, hex);
        if n >= 16 {
            lemma_number_text(n / 16, hex);
            assert(t[0] == number_text(n / 16, hex)[0]);
            assert forall|i: int| 0 <= i < t.len() implies digit_of(#[trigger] t[i], hex)
                is Some by {
                if i < t.len() - 1 {
                    assert(t[i] == number_text(n / 16, hex)[i]);
                }
            }
            if n <= 0xffff && n >= 256 {
                lemma_number_text(n / 256, hex);
                if n >= 4096 {
                    lemma_number_text(n / 4096, hex);
                }
            }
        }
    } else {
        lemma_digit_char(n % 10, hex);
        if n >= 10 {
            lemma_number_text(n / 10, hex);
            assert(t[0] == number_text(n / 10, hex)[0]);
            assert forall|i: int| 0 <= i < t.len() implies digit_of(#[trigger] t[i], hex)
                is Some by {
                if i < t.len() - 1 {
                    assert(t[i] == number_text(n / 10, hex)[i]);
                }
            }
            if n <= 999 && n >= 100 {
                lemma_number_text(n / 100, hex);
            }
        }
    }
}

/// A run of digits that is followed by no digit is the whole run.
pub proof fn lemma_run_ends(s: Seq<char>, pos: int, k: nat, hex: bool)
    requires
        forall|j: int| pos <= j < pos + k ==> is_digit(s, j, hex),
        !is_digit(s, pos + k, hex),
    ensures
        digits_from(s, pos, hex) == k,
    decreases k,
{
    if k > 0 {
        assert(is_digit(s, pos, hex));
        lemma_run_ends(s, pos + 1, (k - 1) as nat, hex);
    }
}

/// Where a text holds the shortest spelling of `n`, the digits there spell
/// `n`.
pub proof fn lemma_value_of_text(s: Seq<char>, pos: int, n: int, hex: bool)
    requires
        0 <= n,
        holds(s, pos, number_text(n, hex)),
    ensures
        value_of(s, pos, number_text(n, hex).len(), hex) == n,
    decreases n,
{
    let t = number_text(n, hex);
    let radix: int = if hex {
        16
    } else {
        10
    };
    lemma_digit_char(n % radix, hex);
    assert(s[pos + t.len() - 1] == t[t.len() - 1]);
    if n >= radix {
        let shorter = number_text(n / radix, hex);
        assert(t == shorter.push(digit_char(n % radix)));
        assert forall|i: int| 0 <= i < shorter.len() implies s[pos + i] == #[trigger] shorter[i] by {
            assert(t[i] == shorter[i]);
        }
        lemma_value_of_text(s, pos, n / radix, hex);
    } else {
        assert(value_of(s, pos, 0, hex) == 0);
    }
}

/// Where a text holds the shortest spelling of `n`, and no digit behind it,
/// `n` is the number that stands there, for every form that takes numbers
/// as large as `n` and as long as its spelling.
pub proof fn lemma_number_at_text(s: Seq<char>, pos: int, n: int, form: Form)
    requires
        0 <= n <= form.max,
        holds(s, pos, number_text(n, form.hex)),
        !is_digit(s, pos + number_text(n, form.hex).len(), form.hex),
        form.limit is Some ==> number_text(n, form.hex).len() <= form.limit->0,
    ensures
        number_at(s, pos, form) == Some((n, pos + number_text(n, form.hex).len())),
{
    let t = number_text(n, form.hex);
    lemma_number_text(n, form.hex);
    assert forall|j: int| pos <= j < pos + t.len() implies is_digit(s, j, form.hex) by {
        assert(s[pos + (j - pos)] == t[j - pos]);
    }
    lemma_run_ends(s, pos, t.len(), form.hex);
    lemma_value_of_text(s, pos, n, form.hex);
    assert(s[pos + 0] == t[0]);
}

/// The characters of a text, in order.
pub(crate) fn chars_of(text: &str) -> (chars: Vec<char>)
    ensures
        chars@ == text@,
{
    let mut chars: Vec<char> = Vec::new();
    for c in rest: text.chars()
        invariant
            chars@.len() == rest.index(),
            forall|j: int| 0 <= j < chars@.len() ==> chars@[j] == rest.seq()[j],
            rest.seq() == text@,
    {
        chars.push(c);
    }
    assert(chars@ =~= text@);
    chars
}

} // verus!

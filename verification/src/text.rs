//! Character-level utilities shared by the parser and the renderers:
//! whitespace trimming, index scans, decimal numerals, and string equality.

use vstd::prelude::*;
use vstd::string::*;

verus! {

/// The whitespace characters the command and expression syntax recognises.
pub open spec fn is_ws_char(c: char) -> bool {
    c == ' ' || c == '\t' || c == '\n' || c == '\r'
}

/// Executable mirror of `is_ws_char`.
pub fn is_ws(c: char) -> (r: bool)
    ensures
        r == is_ws_char(c),
{
    c == ' ' || c == '\t' || c == '\n' || c == '\r'
}

pub open spec fn is_digit_char(c: char) -> bool {
    48 <= c as u32 <= 57
}

pub open spec fn digit_val(c: char) -> nat {
    (c as u32 - 48) as nat
}

/// Executable mirror of `is_digit_char`.
pub fn is_digit(c: char) -> (r: bool)
    ensures
        r == is_digit_char(c),
{
    let u = c as u32;
    48 <= u && u <= 57
}

/// Length of the longest whitespace prefix of `s`.
pub open spec fn ws_prefix_len(s: Seq<char>) -> nat
    decreases s.len(),
{
    if s.len() == 0 {
        0
    } else if is_ws_char(s[0]) {
        (1 + ws_prefix_len(s.skip(1))) as nat
    } else {
        0
    }
}

/// Length of the longest whitespace suffix of `s`.
pub open spec fn ws_suffix_len(s: Seq<char>) -> nat
    decreases s.len(),
{
    if s.len() == 0 {
        0
    } else if is_ws_char(s[s.len() - 1]) {
        (1 + ws_suffix_len(s.drop_last())) as nat
    } else {
        0
    }
}

/// `s` with its whitespace prefix removed.
pub open spec fn trim_start_spec(s: Seq<char>) -> Seq<char> {
    s.skip(ws_prefix_len(s) as int)
}

/// `s` with whitespace removed from both ends.
pub open spec fn trim_spec(s: Seq<char>) -> Seq<char> {
    let t = trim_start_spec(s);
    t.take(t.len() - ws_suffix_len(t))
}

pub proof fn lemma_ws_prefix_le_len(s: Seq<char>)
    ensures
        ws_prefix_len(s) <= s.len(),
        forall|i: int| 0 <= i < ws_prefix_len(s) ==> is_ws_char(#[trigger] s[i]),
        ws_prefix_len(s) < s.len() ==> !is_ws_char(s[ws_prefix_len(s) as int]),
    decreases s.len(),
{
    if s.len() > 0 && is_ws_char(s[0]) {
        lemma_ws_prefix_le_len(s.skip(1));
        assert forall|i: int| 0 <= i < ws_prefix_len(s) implies is_ws_char(#[trigger] s[i]) by {
            if i > 0 {
                assert(s.skip(1)[i - 1] == s[i]);
            }
        }
    }
}

/// The prefix length is the unique cut obeying the scan's stopping rule.
pub proof fn lemma_ws_prefix_char(s: Seq<char>, k: int)
    requires
        0 <= k <= s.len(),
        forall|i: int| 0 <= i < k ==> is_ws_char(#[trigger] s[i]),
        k < s.len() ==> !is_ws_char(s[k]),
    ensures
        ws_prefix_len(s) == k,
    decreases s.len(),
{
    if s.len() > 0 && is_ws_char(s[0]) {
        assert(k > 0);
        lemma_ws_prefix_char(s.skip(1), k - 1);
    }
}

/// The suffix length is the unique cut obeying the backward scan's rule.
pub proof fn lemma_ws_suffix_char(s: Seq<char>, m: int)
    requires
        0 <= m <= s.len(),
        forall|i: int| m <= i < s.len() ==> is_ws_char(#[trigger] s[i]),
        m > 0 ==> !is_ws_char(s[m - 1]),
    ensures
        ws_suffix_len(s) == s.len() - m,
    decreases s.len(),
{
    if s.len() > 0 && is_ws_char(s[s.len() - 1]) {
        assert(m < s.len());
        lemma_ws_suffix_char(s.drop_last(), m);
    }
}

/// `text.trim_start()` over characters.
pub fn trim_start(text: &str) -> (r: &str)
    ensures
        r@ == trim_start_spec(text@),
{
    let n = text.unicode_len();
    let mut start: usize = 0;
    while start < n && is_ws(text.get_char(start))
        invariant
            start <= n,
            n == text@.len(),
            forall|i: int| 0 <= i < start ==> is_ws_char(#[trigger] text@[i]),
        decreases n - start,
    {
        start = start + 1;
    }
    proof {
        lemma_ws_prefix_char(text@, start as int);
    }
    text.substring_char(start, n)
}

/// `text.trim()` over characters.
pub fn trim(text: &str) -> (r: &str)
    ensures
        r@ == trim_spec(text@),
{
    let n = text.unicode_len();
    let mut start: usize = 0;
    while start < n && is_ws(text.get_char(start))
        invariant
            start <= n,
            n == text@.len(),
            forall|i: int| 0 <= i < start ==> is_ws_char(#[trigger] text@[i]),
        decreases n - start,
    {
        start = start + 1;
    }
    proof {
        lemma_ws_prefix_char(text@, start as int);
    }
    let mut end: usize = n;
    while end > start && is_ws(text.get_char(end - 1))
        invariant
            start <= end <= n,
            n == text@.len(),
            forall|i: int| end <= i < n ==> is_ws_char(#[trigger] text@[i]),
        decreases end,
    {
        end = end - 1;
    }
    proof {
        let t = trim_start_spec(text@);
        assert(t =~= text@.skip(start as int));
        if end > start {
            lemma_ws_suffix_char(t, end - start);
        } else {
            lemma_ws_suffix_char(t, 0);
        }
        assert(trim_spec(text@) =~= text@.subrange(start as int, end as int));
    }
    text.substring_char(start, end)
}

/// Index of the first occurrence of `c` in `s`, if any.
pub open spec fn first_index_of(s: Seq<char>, c: char) -> Option<int>
    decreases s.len(),
{
    if s.len() == 0 {
        Option::None
    } else if s[0] == c {
        Option::Some(0)
    } else {
        match first_index_of(s.skip(1), c) {
            Option::Some(i) => Option::Some(i + 1),
            Option::None => Option::None,
        }
    }
}

pub proof fn lemma_first_index_char(s: Seq<char>, c: char, k: int)
    requires
        0 <= k <= s.len(),
        forall|i: int| 0 <= i < k ==> #[trigger] s[i] != c,
        k < s.len() ==> s[k] == c,
    ensures
        k < s.len() ==> first_index_of(s, c) == Option::Some(k),
        k == s.len() ==> first_index_of(s, c) is None,
    decreases s.len(),
{
    if s.len() > 0 && s[0] != c {
        lemma_first_index_char(s.skip(1), c, k - 1);
    }
}

/// A found index is in range and points at the character sought.
pub proof fn lemma_first_index_bounds(s: Seq<char>, c: char)
    ensures
        match first_index_of(s, c) {
            Option::Some(i) => 0 <= i < s.len() && s[i] == c,
            Option::None => true,
        },
    decreases s.len(),
{
    if s.len() > 0 && s[0] != c {
        lemma_first_index_bounds(s.skip(1), c);
    }
}

/// Scan for the first occurrence of `c`.
pub fn find_char(text: &str, c: char) -> (r: Option<usize>)
    ensures
        match r {
            Option::Some(i) => first_index_of(text@, c) == Option::Some(i as int) && i
                < text@.len(),
            Option::None => first_index_of(text@, c) is None,
        },
{
    let n = text.unicode_len();
    let mut i: usize = 0;
    while i < n && text.get_char(i) != c
        invariant
            i <= n,
            n == text@.len(),
            forall|j: int| 0 <= j < i ==> #[trigger] text@[j] != c,
        decreases n - i,
    {
        i = i + 1;
    }
    proof {
        lemma_first_index_char(text@, c, i as int);
    }
    if i < n {
        Option::Some(i)
    } else {
        Option::None
    }
}

/// Length of the longest decimal-digit prefix of `s`.
pub open spec fn digit_prefix_len(s: Seq<char>) -> nat
    decreases s.len(),
{
    if s.len() == 0 {
        0
    } else if is_digit_char(s[0]) {
        (1 + digit_prefix_len(s.skip(1))) as nat
    } else {
        0
    }
}

pub proof fn lemma_digit_prefix_char(s: Seq<char>, k: int)
    requires
        0 <= k <= s.len(),
        forall|i: int| 0 <= i < k ==> is_digit_char(#[trigger] s[i]),
        k < s.len() ==> !is_digit_char(s[k]),
    ensures
        digit_prefix_len(s) == k,
    decreases s.len(),
{
    if s.len() > 0 && is_digit_char(s[0]) {
        assert(k > 0);
        lemma_digit_prefix_char(s.skip(1), k - 1);
    }
}

pub proof fn lemma_digit_prefix_le_len(s: Seq<char>)
    ensures
        digit_prefix_len(s) <= s.len(),
        forall|i: int| 0 <= i < digit_prefix_len(s) ==> is_digit_char(#[trigger] s[i]),
        digit_prefix_len(s) < s.len() ==> !is_digit_char(s[digit_prefix_len(s) as int]),
    decreases s.len(),
{
    if s.len() > 0 && is_digit_char(s[0]) {
        lemma_digit_prefix_le_len(s.skip(1));
        assert forall|i: int| 0 <= i < digit_prefix_len(s) implies is_digit_char(
            #[trigger] s[i],
        ) by {
            if i > 0 {
                assert(s.skip(1)[i - 1] == s[i]);
            }
        }
    }
}

/// Scan for the end of the leading digit run.
pub fn digit_run_end(text: &str) -> (r: usize)
    ensures
        r == digit_prefix_len(text@),
        r <= text@.len(),
{
    let n = text.unicode_len();
    let mut i: usize = 0;
    while i < n && is_digit(text.get_char(i))
        invariant
            i <= n,
            n == text@.len(),
            forall|j: int| 0 <= j < i ==> is_digit_char(#[trigger] text@[j]),
        decreases n - i,
    {
        i = i + 1;
    }
    proof {
        lemma_digit_prefix_char(text@, i as int);
    }
    i
}

/// Where an identifier ends: the first whitespace or closing parenthesis.
pub open spec fn is_break_char(c: char) -> bool {
    is_ws_char(c) || c == ')'
}

pub open spec fn first_break_index(s: Seq<char>) -> Option<int>
    decreases s.len(),
{
    if s.len() == 0 {
        Option::None
    } else if is_break_char(s[0]) {
        Option::Some(0)
    } else {
        match first_break_index(s.skip(1)) {
            Option::Some(i) => Option::Some(i + 1),
            Option::None => Option::None,
        }
    }
}

pub proof fn lemma_first_break_char(s: Seq<char>, k: int)
    requires
        0 <= k <= s.len(),
        forall|i: int| 0 <= i < k ==> !is_break_char(#[trigger] s[i]),
        k < s.len() ==> is_break_char(s[k]),
    ensures
        k < s.len() ==> first_break_index(s) == Option::Some(k),
        k == s.len() ==> first_break_index(s) is None,
    decreases s.len(),
{
    if s.len() > 0 && !is_break_char(s[0]) {
        lemma_first_break_char(s.skip(1), k - 1);
    }
}

/// A found break index is in range, points at a break character, and
/// nothing before it breaks.
pub proof fn lemma_first_break_bounds(s: Seq<char>)
    ensures
        match first_break_index(s) {
            Option::Some(i) => 0 <= i < s.len() && is_break_char(s[i]) && forall|j: int|
                0 <= j < i ==> !is_break_char(#[trigger] s[j]),
            Option::None => true,
        },
    decreases s.len(),
{
    if s.len() > 0 && !is_break_char(s[0]) {
        lemma_first_break_bounds(s.skip(1));
        if first_break_index(s) is Some {
            let i = first_break_index(s)->Some_0;
            assert forall|j: int| 0 <= j < i implies !is_break_char(#[trigger] s[j]) by {
                if j > 0 {
                    assert(s.skip(1)[j - 1] == s[j]);
                }
            }
        }
    }
}

/// Scan for the first whitespace or `)`.
pub fn find_break(text: &str) -> (r: Option<usize>)
    ensures
        match r {
            Option::Some(i) => first_break_index(text@) == Option::Some(i as int) && i
                < text@.len(),
            Option::None => first_break_index(text@) is None,
        },
{
    let n = text.unicode_len();
    let mut i: usize = 0;
    while i < n && !(is_ws(text.get_char(i)) || text.get_char(i) == ')')
        invariant
            i <= n,
            n == text@.len(),
            forall|j: int| 0 <= j < i ==> !is_break_char(#[trigger] text@[j]),
        decreases n - i,
    {
        i = i + 1;
    }
    proof {
        lemma_first_break_char(text@, i as int);
    }
    if i < n {
        Option::Some(i)
    } else {
        Option::None
    }
}

/// The first exponent marker (`e` or `E`) in a numeric literal.
pub open spec fn is_exp_char(c: char) -> bool {
    c == 'e' || c == 'E'
}

pub open spec fn first_exp_index(s: Seq<char>) -> Option<int>
    decreases s.len(),
{
    if s.len() == 0 {
        Option::None
    } else if is_exp_char(s[0]) {
        Option::Some(0)
    } else {
        match first_exp_index(s.skip(1)) {
            Option::Some(i) => Option::Some(i + 1),
            Option::None => Option::None,
        }
    }
}

pub proof fn lemma_first_exp_char(s: Seq<char>, k: int)
    requires
        0 <= k <= s.len(),
        forall|i: int| 0 <= i < k ==> !is_exp_char(#[trigger] s[i]),
        k < s.len() ==> is_exp_char(s[k]),
    ensures
        k < s.len() ==> first_exp_index(s) == Option::Some(k),
        k == s.len() ==> first_exp_index(s) is None,
    decreases s.len(),
{
    if s.len() > 0 && !is_exp_char(s[0]) {
        lemma_first_exp_char(s.skip(1), k - 1);
    }
}

/// Scan for the first `e` or `E`.
pub fn find_exp(text: &str) -> (r: Option<usize>)
    ensures
        match r {
            Option::Some(i) => first_exp_index(text@) == Option::Some(i as int) && i
                < text@.len(),
            Option::None => first_exp_index(text@) is None,
        },
{
    let n = text.unicode_len();
    let mut i: usize = 0;
    while i < n && !(text.get_char(i) == 'e' || text.get_char(i) == 'E')
        invariant
            i <= n,
            n == text@.len(),
            forall|j: int| 0 <= j < i ==> !is_exp_char(#[trigger] text@[j]),
        decreases n - i,
    {
        i = i + 1;
    }
    proof {
        lemma_first_exp_char(text@, i as int);
    }
    if i < n {
        Option::Some(i)
    } else {
        Option::None
    }
}

/// Trimming leaves no leading whitespace.
pub proof fn lemma_trim_start_trimmed(s: Seq<char>)
    ensures
        ws_prefix_len(trim_start_spec(s)) == 0,
        trim_start_spec(s).len() <= s.len(),
{
    lemma_ws_prefix_le_len(s);
    let t = trim_start_spec(s);
    if t.len() > 0 {
        assert(t[0] == s[ws_prefix_len(s) as int]);
        assert(!is_ws_char(t[0]));
    }
}

/// Value of a run of decimal digits, most significant first.
pub open spec fn digits_value(s: Seq<char>) -> nat
    decreases s.len(),
{
    if s.len() == 0 {
        0
    } else {
        digits_value(s.drop_last()) * 10 + digit_val(s.last())
    }
}

/// Parse a digit run into a `usize`; `None` reports overflow.
pub fn parse_decimal(text: &str) -> (r: Option<usize>)
    requires
        forall|i: int| 0 <= i < text@.len() ==> is_digit_char(#[trigger] text@[i]),
    ensures
        match r {
            Option::Some(v) => v == digits_value(text@),
            Option::None => digits_value(text@) > usize::MAX,
        },
{
    let n = text.unicode_len();
    let mut i: usize = 0;
    let mut v: usize = 0;
    while i < n
        invariant
            i <= n,
            n == text@.len(),
            forall|j: int| 0 <= j < text@.len() ==> is_digit_char(#[trigger] text@[j]),
            v == digits_value(text@.take(i as int)),
        decreases n - i,
    {
        let c = text.get_char(i);
        let d = (c as u32 - 48) as usize;
        proof {
            assert(text@.take(i + 1).drop_last() =~= text@.take(i as int));
            assert(text@.take(i + 1).last() == text@[i as int]);
            lemma_digits_value_grows(text@, i + 1);
        }
        let step = match v.checked_mul(10) {
            Option::Some(m) => m.checked_add(d),
            Option::None => Option::None,
        };
        match step {
            Option::Some(w) => {
                v = w;
            },
            Option::None => {
                return Option::None;
            },
        }
        i = i + 1;
    }
    proof {
        assert(text@.take(n as int) =~= text@);
    }
    Option::Some(v)
}

/// A digit run's value only grows as more digits are taken.
pub proof fn lemma_digits_value_grows(s: Seq<char>, k: int)
    requires
        0 <= k <= s.len(),
    ensures
        digits_value(s.take(k)) <= digits_value(s),
    decreases s.len() - k,
{
    if k < s.len() {
        lemma_digits_value_grows(s, k + 1);
        assert(s.take(k + 1).drop_last() =~= s.take(k));
    } else {
        assert(s.take(k) =~= s);
    }
}

/// The decimal rendering of `n`, most significant digit first.
pub open spec fn dec_digits(n: nat) -> Seq<char>
    decreases n,
{
    if n < 10 {
        seq![digit_char(n)]
    } else {
        dec_digits(n / 10).push(digit_char(n % 10))
    }
}

pub open spec fn digit_char(d: nat) -> char {
    if d == 0 {
        '0'
    } else if d == 1 {
        '1'
    } else if d == 2 {
        '2'
    } else if d == 3 {
        '3'
    } else if d == 4 {
        '4'
    } else if d == 5 {
        '5'
    } else if d == 6 {
        '6'
    } else if d == 7 {
        '7'
    } else if d == 8 {
        '8'
    } else {
        '9'
    }
}

fn digit_str(d: usize) -> (r: &'static str)
    requires
        d < 10,
    ensures
        r@ =~= seq![digit_char(d as nat)],
{
    proof {
        reveal_strlit("0");
        reveal_strlit("1");
        reveal_strlit("2");
        reveal_strlit("3");
        reveal_strlit("4");
        reveal_strlit("5");
        reveal_strlit("6");
        reveal_strlit("7");
        reveal_strlit("8");
        reveal_strlit("9");
    }
    if d == 0 {
        "0"
    } else if d == 1 {
        "1"
    } else if d == 2 {
        "2"
    } else if d == 3 {
        "3"
    } else if d == 4 {
        "4"
    } else if d == 5 {
        "5"
    } else if d == 6 {
        "6"
    } else if d == 7 {
        "7"
    } else if d == 8 {
        "8"
    } else {
        "9"
    }
}

/// Render `n` in decimal.
pub fn usize_to_string(n: usize) -> (r: String)
    ensures
        r@ == dec_digits(n as nat),
    decreases n,
{
    if n < 10 {
        let mut s = String::new();
        s.append(digit_str(n));
        proof {
            assert(s@ =~= dec_digits(n as nat));
        }
        s
    } else {
        let mut s = usize_to_string(n / 10);
        s.append(digit_str(n % 10));
        proof {
            assert(s@ =~= dec_digits(n as nat));
        }
        s
    }
}

/// Concatenation of a fixed prefix and a tail.
pub fn str_concat(prefix: &str, tail: &str) -> (r: String)
    ensures
        r@ == prefix@ + tail@,
{
    let mut m = String::from_str(prefix);
    m.append(tail);
    m
}

/// Character-by-character string equality.
pub fn str_eq(a: &str, b: &str) -> (r: bool)
    ensures
        r == (a@ == b@),
{
    let na = a.unicode_len();
    let nb = b.unicode_len();
    if na != nb {
        proof {
            assert(a@.len() != b@.len());
        }
        return false;
    }
    let mut i: usize = 0;
    while i < na
        invariant
            i <= na,
            na == a@.len(),
            na == b@.len(),
            forall|j: int| 0 <= j < i ==> a@[j] == b@[j],
        decreases na - i,
    {
        if a.get_char(i) != b.get_char(i) {
            proof {
                assert(a@[i as int] != b@[i as int]);
            }
            return false;
        }
        i = i + 1;
    }
    proof {
        assert(a@ =~= b@);
    }
    true
}


/// Each rendered digit is a digit character carrying its value.
pub proof fn lemma_digit_char_val(d: nat)
    requires
        d < 10,
    ensures
        is_digit_char(digit_char(d)),
        digit_val(digit_char(d)) == d,
{
}

/// A decimal rendering is a non-empty run of digit characters.
pub proof fn lemma_dec_digits_all_digits(n: nat)
    ensures
        dec_digits(n).len() >= 1,
        forall|i: int| 0 <= i < dec_digits(n).len() ==> is_digit_char(#[trigger] dec_digits(n)[i]),
    decreases n,
{
    if n < 10 {
        lemma_digit_char_val(n);
    } else {
        lemma_dec_digits_all_digits(n / 10);
        lemma_digit_char_val(n % 10);
        assert forall|i: int| 0 <= i < dec_digits(n).len() implies is_digit_char(
            #[trigger] dec_digits(n)[i],
        ) by {
            if i < dec_digits(n / 10).len() {
                assert(dec_digits(n)[i] == dec_digits(n / 10)[i]);
            } else {
                assert(dec_digits(n)[i] == digit_char(n % 10));
            }
        }
    }
}

/// Rendering then reading a decimal gives the number back.
pub proof fn lemma_dec_digits_value(n: nat)
    ensures
        digits_value(dec_digits(n)) == n,
    decreases n,
{
    if n < 10 {
        lemma_digit_char_val(n);
        assert(dec_digits(n).drop_last() =~= Seq::<char>::empty());
        assert(digits_value(Seq::<char>::empty()) == 0);
        assert(dec_digits(n).last() == digit_char(n));
        assert(digits_value(dec_digits(n)) == 0 * 10 + digit_val(digit_char(n)));
    } else {
        lemma_dec_digits_value(n / 10);
        lemma_digit_char_val(n % 10);
        assert(dec_digits(n).drop_last() =~= dec_digits(n / 10));
        assert(dec_digits(n).last() == digit_char(n % 10));
        assert(digits_value(dec_digits(n)) == digits_value(dec_digits(n / 10)) * 10 + digit_val(
            digit_char(n % 10),
        ));
        assert(digits_value(dec_digits(n)) == (n / 10) * 10 + n % 10);
    }
}

} // verus!

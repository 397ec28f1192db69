//! Small text utilities: comparison, decimal numbers.

use vstd::prelude::*;
use vstd::string::{StrSliceExecFns, StringExecFns};

verus! {

/// Whether two texts hold the same characters.
pub fn text_eq(a: &str, b: &str) -> (r: bool)
    ensures
        r == (a@ == b@),
{
    let n = a.unicode_len();
    if n != b.unicode_len() {
        return false;
    }
    let mut i: usize = 0;
    while i < n
        invariant
            i <= n,
            n == a@.len(),
            n == b@.len(),
            forall|j: int| 0 <= j < i ==> a@[j] == b@[j],
        decreases n - i,
    {
        if a.get_char(i) != b.get_char(i) {
            return false;
        }
        i = i + 1;
    }
    assert(a@ =~= b@);
    true
}


/// The character of a decimal digit.
pub open spec fn digit_char(d: int) -> char {
    if d == 0 { '0' } else if d == 1 { '1' } else if d == 2 { '2' } else if d == 3 { '3' } else if d == 4 { '4' }
    else if d == 5 { '5' } else if d == 6 { '6' } else if d == 7 { '7' } else if d == 8 { '8' } else { '9' }
}

/// Whether a character is an ASCII decimal digit.
pub open spec fn is_digit(c: char) -> bool {
    c == '0' || c == '1' || c == '2' || c == '3' || c == '4' || c == '5' || c == '6' || c == '7' || c == '8' || c == '9'
}

/// The value of a decimal digit character.
pub open spec fn digit_value(c: char) -> nat {
    if c == '1' { 1 } else if c == '2' { 2 } else if c == '3' { 3 } else if c == '4' { 4 } else if c == '5' { 5 }
    else if c == '6' { 6 } else if c == '7' { 7 } else if c == '8' { 8 } else if c == '9' { 9 } else { 0 }
}

/// The decimal representation of a number, without leading zeros.
pub open spec fn decimal(n: nat) -> Seq<char>
    decreases n,
{
    if n < 10 {
        seq![digit_char(n as int)]
    } else {
        decimal(n / 10).push(digit_char((n % 10) as int))
    }
}

/// The number a sequence of decimal digits stands for.
pub open spec fn digits_value(s: Seq<char>) -> nat
    decreases s.len(),
{
    if s.len() == 0 {
        0
    } else {
        digits_value(s.drop_last()) * 10 + digit_value(s.last())
    }
}

pub open spec fn all_digits(s: Seq<char>) -> bool {
    forall|i: int| 0 <= i < s.len() ==> is_digit(#[trigger] s[i])
}

/// The digits of an unsigned number written with an optional leading `+`.
pub open spec fn unsigned_digits(s: Seq<char>) -> Seq<char> {
    if s.len() > 0 && s[0] == '+' { s.drop_first() } else { s }
}

/// An unsigned number as the standard library reads it: an optional `+`
/// followed by at least one decimal digit, and no larger than `max`.
pub open spec fn parse_unsigned_spec(s: Seq<char>, max: nat) -> Option<nat> {
    let t = unsigned_digits(s);
    if t.len() > 0 && all_digits(t) && digits_value(t) <= max {
        Some(digits_value(t))
    } else {
        None
    }
}

/// The decimal representation of a number reads back as that number.
pub proof fn lemma_decimal_digits(n: nat)
    ensures
        decimal(n).len() > 0,
        all_digits(decimal(n)),
        digits_value(decimal(n)) == n,
        decimal(n)[0] != '+',
    decreases n,
{
    if n < 10 {
        assert(decimal(n).drop_last() =~= Seq::<char>::empty());
        assert(digit_value(digit_char(n as int)) == n);
        assert(decimal(n).last() == digit_char(n as int));
        assert(digits_value(Seq::<char>::empty()) == 0);
        assert(digits_value(decimal(n)) == digits_value(decimal(n).drop_last()) * 10 + digit_value(decimal(n).last()));
    } else {
        lemma_decimal_digits(n / 10);
        let d = decimal(n);
        assert(d.drop_last() =~= decimal(n / 10));
        assert(digit_value(digit_char((n % 10) as int)) == n % 10);
        assert(d.last() == digit_char((n % 10) as int));
        assert(digits_value(d) == digits_value(d.drop_last()) * 10 + digit_value(d.last()));
        assert((n / 10) * 10 + n % 10 == n);
        assert(all_digits(d)) by {
            assert forall|i: int| 0 <= i < d.len() implies is_digit(#[trigger] d[i]) by {
                if i < d.len() - 1 {
                    assert(d[i] == decimal(n / 10)[i]);
                }
            }
        }
    }
}

/// Parsing an unsigned number from its decimal representation gives the number back.
pub proof fn lemma_parse_decimal(n: nat, max: nat)
    requires
        n <= max,
    ensures
        parse_unsigned_spec(decimal(n), max) == Some(n),
{
    lemma_decimal_digits(n);
}

/// The digits' value never shrinks as digits are appended.
proof fn lemma_digits_value_prefix(s: Seq<char>, i: int)
    requires
        0 <= i <= s.len(),
    ensures
        digits_value(s.take(i)) <= digits_value(s),
    decreases s.len() - i,
{
    if i < s.len() {
        lemma_digits_value_prefix(s, i + 1);
        assert(s.take(i + 1).drop_last() =~= s.take(i));
    } else {
        assert(s.take(i) =~= s);
    }
}

/// The text of a single decimal digit.
fn digit_str(d: u64) -> (r: &'static str)
    requires
        d < 10,
    ensures
        r@ == seq![digit_char(d as int)],
{
    proof {
        reveal_strlit("0");
        reveal_strlit("1");
        reveal_strlit("2");
        reveal_strlit("3");
        reveal_strlit("4");
        reveal_strlit("5");
        reveal_strlit("6");
        reveal_strlit("7");
        reveal_strlit("8");
        reveal_strlit("9");
    }
    if d == 0 {
        "0"
    } else if d == 1 {
        "1"
    } else if d == 2 {
        "2"
    } else if d == 3 {
        "3"
    } else if d == 4 {
        "4"
    } else if d == 5 {
        "5"
    } else if d == 6 {
        "6"
    } else if d == 7 {
        "7"
    } else if d == 8 {
        "8"
    } else {
        "9"
    }
}

/// Appends the decimal representation of a number.
pub fn push_decimal(s: &mut String, n: u64)
    ensures
        final(s)@ == old(s)@ + decimal(n as nat),
    decreases n,
{
    if n >= 10 {
        push_decimal(s, n / 10);
    }
    s.append(digit_str(n % 10));
    assert(decimal(n as nat) =~= if n < 10 { seq![digit_char(n as int)] } else { decimal((n / 10) as nat).push(digit_char((n % 10) as int)) });
}

fn digit_of(c: char) -> (r: Option<u64>)
    ensures
        r matches Some(d) ==> is_digit(c) && d == digit_value(c),
        r is None ==> !is_digit(c),
{
    if c == '0' { Some(0) } else if c == '1' { Some(1) } else if c == '2' { Some(2) } else if c == '3' { Some(3) }
    else if c == '4' { Some(4) } else if c == '5' { Some(5) } else if c == '6' { Some(6) } else if c == '7' { Some(7) }
    else if c == '8' { Some(8) } else if c == '9' { Some(9) } else { None }
}

/// Reads an unsigned decimal number no larger than `max` (see `parse_unsigned_spec`).
pub fn parse_unsigned(s: &str, max: u64) -> (r: Option<u64>)
    ensures
        r matches Some(v) ==> parse_unsigned_spec(s@, max as nat) == Some(v as nat),
        r is None ==> parse_unsigned_spec(s@, max as nat) is None,
{
    let n = s.unicode_len();
    let mut start: usize = 0;
    if n > 0 && s.get_char(0) == '+' {
        start = 1;
    }
    let ghost t = unsigned_digits(s@);
    assert(t =~= s@.subrange(start as int, n as int));
    if start >= n {
        return None;
    }
    let mut acc: u128 = 0;
    let mut i: usize = start;
    while i < n
        invariant
            start <= i <= n,
            n == s@.len(),
            t == s@.subrange(start as int, n as int),
            t == unsigned_digits(s@),
            acc <= max,
            acc == digits_value(t.take(i - start)),
            all_digits(t.take(i - start)),
        decreases n - i,
    {
        let c = s.get_char(i);
        match digit_of(c) {
            Some(d) => {
                let next = acc * 10 + (d as u128);
                assert(t.take(i + 1 - start).drop_last() =~= t.take(i - start));
                assert(t.take(i + 1 - start).last() == c);
                assert(next == digits_value(t.take(i + 1 - start)));
                if next > max as u128 {
                    proof {
                        lemma_digits_value_prefix(t, i + 1 - start);
                    }
                    return None;
                }
                acc = next;
            },
            None => {
                assert(!all_digits(t)) by {
                    assert(t[i - start] == c);
                }
                return None;
            },
        }
        i = i + 1;
    }
    assert(t.take(n - start) =~= t);
    Some(acc as u64)
}


/// `a`, the separator, then `b`.
pub open spec fn sep_join(a: Seq<char>, sep: char, b: Seq<char>) -> Seq<char> {
    a + seq![sep] + b
}

/// `a`, a `|` separator, then `b`.
pub open spec fn bar_join(a: Seq<char>, b: Seq<char>) -> Seq<char> {
    sep_join(a, '|', b)
}

pub open spec fn has_no_char(s: Seq<char>, c: char) -> bool {
    forall|i: int| 0 <= i < s.len() ==> s[i] != c
}

pub open spec fn has_no_bar(s: Seq<char>) -> bool {
    has_no_char(s, '|')
}

/// `i` is the position of the first separator of `s`.
pub open spec fn is_first_sep(s: Seq<char>, sep: char, i: int) -> bool {
    &&& 0 <= i < s.len()
    &&& s[i] == sep
    &&& forall|j: int| 0 <= j < i ==> s[j] != sep
}

/// The text before and after the first separator, if there is one.
pub open spec fn split_once_spec(s: Seq<char>, sep: char) -> Option<(Seq<char>, Seq<char>)> {
    if exists|i: int| is_first_sep(s, sep, i) {
        let i = choose|i: int| is_first_sep(s, sep, i);
        Some((s.take(i), s.skip(i + 1)))
    } else {
        None
    }
}

/// The text before and after the first `|`, if there is one.
pub open spec fn split_bar(s: Seq<char>) -> Option<(Seq<char>, Seq<char>)> {
    split_once_spec(s, '|')
}

proof fn lemma_first_sep_unique(s: Seq<char>, sep: char, i: int, k: int)
    requires
        is_first_sep(s, sep, i),
        is_first_sep(s, sep, k),
    ensures
        i == k,
{
    if i < k {
        assert(s[i] == sep);
    } else if k < i {
        assert(s[k] == sep);
    }
}

/// Splitting text joined at a separator gives the parts back when the first part holds no separator.
pub proof fn lemma_split_join(a: Seq<char>, sep: char, b: Seq<char>)
    requires
        has_no_char(a, sep),
    ensures
        split_once_spec(sep_join(a, sep, b), sep) == Some((a, b)),
{
    let s = sep_join(a, sep, b);
    let n = a.len() as int;
    assert(s[n] == sep);
    assert forall|j: int| 0 <= j < n implies s[j] != sep by {
        assert(s[j] == a[j]);
    }
    assert(is_first_sep(s, sep, n));
    let i = choose|i: int| is_first_sep(s, sep, i);
    lemma_first_sep_unique(s, sep, i, n);
    assert(s.take(n) =~= a);
    assert(s.skip(n + 1) =~= b);
}

/// Splitting text joined at a `|` gives the parts back when the first part holds no `|`.
pub proof fn lemma_split_bar_join(a: Seq<char>, b: Seq<char>)
    requires
        has_no_bar(a),
    ensures
        split_bar(bar_join(a, b)) == Some((a, b)),
{
    lemma_split_join(a, '|', b);
}

/// Text without a separator does not split.
pub proof fn lemma_split_none(s: Seq<char>, sep: char)
    requires
        has_no_char(s, sep),
    ensures
        split_once_spec(s, sep) is None,
{
}

/// Decimal digits hold no character other than digits.
pub proof fn lemma_decimal_has_no_char(n: nat, c: char)
    requires
        !is_digit(c),
    ensures
        has_no_char(decimal(n), c),
{
    lemma_decimal_digits(n);
    assert forall|i: int| 0 <= i < decimal(n).len() implies decimal(n)[i] != c by {
        assert(is_digit(decimal(n)[i]));
    }
}

/// Decimal digits hold no `|`.
pub proof fn lemma_decimal_has_no_bar(n: nat)
    ensures
        has_no_bar(decimal(n)),
{
    lemma_decimal_has_no_char(n, '|');
}

/// Splits a text at its first separator.
pub fn split_once_at(s: &str, sep: char) -> (r: Option<(String, String)>)
    ensures
        r matches Some(parts) ==> split_once_spec(s@, sep) == Some((parts.0@, parts.1@)),
        r is None ==> split_once_spec(s@, sep) is None,
{
    let n = s.unicode_len();
    let mut i: usize = 0;
    while i < n
        invariant
            i <= n,
            n == s@.len(),
            forall|j: int| 0 <= j < i ==> s@[j] != sep,
        decreases n - i,
    {
        if s.get_char(i) == sep {
            proof {
                assert(is_first_sep(s@, sep, i as int));
                let k = choose|k: int| is_first_sep(s@, sep, k);
                lemma_first_sep_unique(s@, sep, i as int, k);
            }
            let before = String::from_str(s.substring_char(0, i));
            let after = String::from_str(s.substring_char(i + 1, n));
            assert(s@.take(i as int) =~= s@.subrange(0, i as int));
            assert(s@.skip(i + 1) =~= s@.subrange(i + 1, n as int));
            return Some((before, after));
        }
        i = i + 1;
    }
    None
}

/// Splits a text at its first `|`.
pub fn split_at_bar(s: &str) -> (r: Option<(String, String)>)
    ensures
        r matches Some(parts) ==> split_bar(s@) == Some((parts.0@, parts.1@)),
        r is None ==> split_bar(s@) is None,
{
    split_once_at(s, '|')
}


/// The rank of a character in text order. In path order the separator `/`
/// sorts before every other character, so that paths compare component by
/// component.
pub open spec fn char_rank(c: char, path: bool) -> int {
    if path && c == '/' { 0 } else { (c as u32) as int + 1 }
}

/// `i` is where `a` first departs from `b` upwards: the two agree before it,
/// and there `a` has ended while `b` goes on, or `a` has the lower character.
pub open spec fn below_at(a: Seq<char>, b: Seq<char>, path: bool, i: int) -> bool {
    &&& 0 <= i <= a.len()
    &&& i <= b.len()
    &&& a.take(i) == b.take(i)
    &&& ((i == a.len() && i < b.len()) || (i < a.len() && i < b.len() && char_rank(a[i], path) < char_rank(b[i], path)))
}

/// Lexicographic order of texts by character rank.
pub open spec fn text_lt_by(a: Seq<char>, b: Seq<char>, path: bool) -> bool {
    exists|i: int| #[trigger] below_at(a, b, path, i)
}

/// Text order: by the characters' scalar values, a proper prefix first. On
/// UTF-8 strings this is the byte order that `String` sorts by.
pub open spec fn text_lt(a: Seq<char>, b: Seq<char>) -> bool {
    text_lt_by(a, b, false)
}

/// Path order: component by component, a proper prefix first.
pub open spec fn path_lt(a: Seq<char>, b: Seq<char>) -> bool {
    text_lt_by(a, b, true)
}

/// Text order is transitive.
pub proof fn lemma_text_lt_transitive(a: Seq<char>, b: Seq<char>, c: Seq<char>, path: bool)
    requires
        text_lt_by(a, b, path),
        text_lt_by(b, c, path),
    ensures
        text_lt_by(a, c, path),
{
    let i = choose|i: int| #[trigger] below_at(a, b, path, i);
    let j = choose|j: int| #[trigger] below_at(b, c, path, j);
    if i < j {
        assert(a.take(i) =~= c.take(i)) by {
            assert forall|k: int| 0 <= k < i implies a.take(i)[k] == c.take(i)[k] by {
                assert(a.take(i)[k] == b.take(i)[k]);
                assert(b.take(j)[k] == c.take(j)[k]);
            }
        }
        if i < a.len() {
            assert(b.take(j)[i] == c.take(j)[i]);
        }
        assert(below_at(a, c, path, i));
    } else if j < i {
        assert(a.take(j) =~= c.take(j)) by {
            assert forall|k: int| 0 <= k < j implies a.take(j)[k] == c.take(j)[k] by {
                assert(a.take(i)[k] == b.take(i)[k]);
                assert(b.take(j)[k] == c.take(j)[k]);
            }
        }
        assert(a.take(i)[j] == b.take(i)[j]);
        assert(below_at(a, c, path, j));
    } else {
        assert(a.take(i) =~= c.take(i)) by {
            assert forall|k: int| 0 <= k < i implies a.take(i)[k] == c.take(i)[k] by {
                assert(a.take(i)[k] == b.take(i)[k]);
                assert(b.take(j)[k] == c.take(j)[k]);
            }
        }
        assert(below_at(a, c, path, i));
    }
}

/// The outcome of comparing two values in an order.
#[derive(Clone, Copy, Debug, PartialEq, Eq, Structural)]
pub enum Precedence {
    Before,
    Same,
    After,
}

/// Compares two texts in text order (`path` false) or path order (`path` true).
pub fn compare_text(a: &str, b: &str, path: bool) -> (r: Precedence)
    ensures
        r == Precedence::Before <==> text_lt_by(a@, b@, path),
        r == Precedence::Same <==> a@ == b@,
        r == Precedence::After <==> text_lt_by(b@, a@, path),
{
    let n = a.unicode_len();
    let m = b.unicode_len();
    let mut i: usize = 0;
    while i < n && i < m
        invariant
            i <= n,
            i <= m,
            n == a@.len(),
            m == b@.len(),
            forall|j: int| 0 <= j < i ==> a@[j] == b@[j],
        decreases n - i,
    {
        let x = a.get_char(i);
        let y = b.get_char(i);
        if x != y {
            let rx: u32 = if path && x == '/' { 0 } else { x as u32 + 1 };
            let ry: u32 = if path && y == '/' { 0 } else { y as u32 + 1 };
            proof {
                assert(a@.take(i as int) =~= b@.take(i as int));
                assert(rx == char_rank(x, path));
                assert(ry == char_rank(y, path));
                assert(rx != ry) by {
                    assert((x as u32) != (y as u32));
                }
                if rx < ry {
                    assert(below_at(a@, b@, path, i as int));
                } else {
                    assert(below_at(b@, a@, path, i as int));
                }
                lemma_text_lt_order(a@, b@, path);
            }
            if rx < ry {
                return Precedence::Before;
            } else {
                return Precedence::After;
            }
        }
        i = i + 1;
    }
    proof {
        assert(a@.take(i as int) =~= b@.take(i as int));
        lemma_text_lt_order(a@, b@, path);
    }
    if i == n && i == m {
        assert(a@ =~= b@);
        Precedence::Same
    } else if i == n {
        assert(below_at(a@, b@, path, i as int));
        Precedence::Before
    } else {
        assert(below_at(b@, a@, path, i as int));
        Precedence::After
    }
}

/// At most one of `a < b`, `a == b`, `b < a` holds.
pub proof fn lemma_text_lt_order(a: Seq<char>, b: Seq<char>, path: bool)
    ensures
        text_lt_by(a, b, path) ==> a != b && !text_lt_by(b, a, path),
{
    if text_lt_by(a, b, path) && text_lt_by(b, a, path) {
        lemma_text_lt_transitive(a, b, a, path);
    }
}

} // verus!

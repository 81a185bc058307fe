//! String helpers shared by the validator and the registry: whitespace
//! trimming, lexicographic comparison, and decimal conversion.

use vstd::prelude::*;
use vstd::string::StrSliceExecFns;
use vstd::string::StringExecFns;

verus! {

/// What `str::trim` returns for a given character sequence.
pub uninterp spec fn trim_of(s: Seq<char>) -> Seq<char>;

/// Relies on `str::trim`: the returned slice is the input with leading and
/// trailing whitespace removed, a function of the input characters alone.
#[verifier::external_body]
pub(crate) fn trim_str(s: &str) -> (r: &str)
    ensures
        r@ == trim_of(s@),
{
    s.trim()
}

/// Lexicographic order on character sequences by code point: `a` comes
/// before `b`, or equals it.
pub open spec fn lex_le(a: Seq<char>, b: Seq<char>) -> bool
    decreases a.len(),
{
    if a.len() == 0 {
        true
    } else if b.len() == 0 {
        false
    } else if a[0] != b[0] {
        a[0] < b[0]
    } else {
        lex_le(a.skip(1), b.skip(1))
    }
}

/// Strict lexicographic order.
pub open spec fn lex_lt(a: Seq<char>, b: Seq<char>) -> bool {
    lex_le(a, b) && a != b
}

/// The lexicographic order is total.
pub proof fn lemma_lex_le_total(a: Seq<char>, b: Seq<char>)
    ensures
        lex_le(a, b) || lex_le(b, a),
    decreases a.len(),
{
    if a.len() == 0 || b.len() == 0 {
    } else if a[0] == b[0] {
        lemma_lex_le_total(a.skip(1), b.skip(1));
    }
}

/// The lexicographic order is antisymmetric.
pub proof fn lemma_lex_le_antisymmetric(a: Seq<char>, b: Seq<char>)
    requires
        lex_le(a, b),
        lex_le(b, a),
    ensures
        a == b,
    decreases a.len(),
{
    if a.len() == 0 {
        assert(b.len() == 0);
        assert(a =~= b);
    } else {
        assert(b.len() > 0);
        assert(a[0] == b[0]);
        lemma_lex_le_antisymmetric(a.skip(1), b.skip(1));
        assert forall|i: int| 0 <= i < a.len() implies a[i] == b[i] by {
            if i > 0 {
                assert(a.skip(1)[i - 1] == a[i]);
                assert(b.skip(1)[i - 1] == b[i]);
            }
        }
        assert(a =~= b);
    }
}

/// The lexicographic order is transitive.
pub proof fn lemma_lex_le_transitive(a: Seq<char>, b: Seq<char>, c: Seq<char>)
    requires
        lex_le(a, b),
        lex_le(b, c),
    ensures
        lex_le(a, c),
    decreases a.len(),
{
    if a.len() == 0 || b.len() == 0 || c.len() == 0 {
    } else if a[0] == b[0] && b[0] == c[0] {
        lemma_lex_le_transitive(a.skip(1), b.skip(1), c.skip(1));
    }
}

/// Skipping a shared prefix does not change how two sequences compare.
proof fn lemma_lex_le_skip(a: Seq<char>, b: Seq<char>, i: int)
    requires
        0 <= i <= a.len(),
        i <= b.len(),
        forall|j: int| 0 <= j < i ==> a[j] == b[j],
    ensures
        lex_le(a, b) == lex_le(a.skip(i), b.skip(i)),
    decreases i,
{
    if i > 0 {
        assert(a.len() > 0 && b.len() > 0 && a[0] == b[0]);
        lemma_lex_le_skip(a.skip(1), b.skip(1), i - 1);
        assert(a.skip(1).skip(i - 1) =~= a.skip(i));
        assert(b.skip(1).skip(i - 1) =~= b.skip(i));
    } else {
        assert(a.skip(0) =~= a);
        assert(b.skip(0) =~= b);
    }
}

/// Compares two strings in lexicographic code-point order.
pub(crate) fn str_lex_le(a: &str, b: &str) -> (r: bool)
    ensures
        r == lex_le(a@, b@),
{
    let a_len = a.unicode_len();
    let b_len = b.unicode_len();
    let mut i: usize = 0;
    loop
        invariant
            i <= a_len,
            i <= b_len,
            a_len == a@.len(),
            b_len == b@.len(),
            forall|j: int| 0 <= j < i ==> a@[j] == b@[j],
        decreases a_len - i,
    {
        proof {
            lemma_lex_le_skip(a@, b@, i as int);
        }
        if i == a_len {
            return true;
        }
        if i == b_len {
            return false;
        }
        let ca = a.get_char(i);
        let cb = b.get_char(i);
        if ca != cb {
            return ca < cb;
        }
        i = i + 1;
    }
}

/// Compares two strings for character-wise equality.
pub(crate) fn str_eq(a: &str, b: &str) -> (r: bool)
    ensures
        r == (a@ == b@),
{
    let a_len = a.unicode_len();
    let b_len = b.unicode_len();
    if a_len != b_len {
        return false;
    }
    let mut i: usize = 0;
    loop
        invariant
            i <= a_len,
            a_len == a@.len(),
            b_len == b@.len(),
            a_len == b_len,
            forall|j: int| 0 <= j < i ==> a@[j] == b@[j],
        decreases a_len - i,
    {
        if i == a_len {
            assert(a@ =~= b@);
            return true;
        }
        if a.get_char(i) != b.get_char(i) {
            return false;
        }
        i = i + 1;
    }
}

/// Whether the items of `s` are in strictly increasing lexicographic order
/// (which also makes them pairwise distinct).
pub open spec fn seq_sorted_strict(s: Seq<Seq<char>>) -> bool {
    forall|a: int, b: int| 0 <= a < b < s.len() ==> lex_lt(s[a], s[b])
}

fn lower_insert_position(list: &Vec<String>, value: &str) -> (pos: usize)
    requires
        seq_sorted_strict(list.deep_view()),
    ensures
        pos <= list.deep_view().len(),
        forall|a: int| 0 <= a < pos ==> lex_lt(list.deep_view()[a], value@),
        pos < list.deep_view().len() ==> !lex_lt(list.deep_view()[pos as int], value@),
{
    let ghost items = list.deep_view();
    let mut pos: usize = 0;
    while pos < list.len()
        invariant
            pos <= items.len(),
            items == list.deep_view(),
            forall|a: int| 0 <= a < pos ==> lex_lt(items[a], value@),
        decreases items.len() - pos,
    {
        proof {
            assert(items[pos as int] == list@[pos as int]@);
        }
        let le = str_lex_le(list[pos].as_str(), value);
        let eq = str_eq(list[pos].as_str(), value);
        if le && !eq {
            pos = pos + 1;
        } else {
            return pos;
        }
    }
    pos
}

/// Inserts `value` into a strictly sorted list of strings, keeping the list
/// sorted; a value already present is not inserted again.
pub(crate) fn insert_sorted_unique(list: &mut Vec<String>, value: &str)
    requires
        seq_sorted_strict(old(list).deep_view()),
    ensures
        seq_sorted_strict(final(list).deep_view()),
        forall|c: Seq<char>|
            final(list).deep_view().contains(c) <==> (old(list).deep_view().contains(c) || c
                == value@),
{
    let ghost pre = list.deep_view();
    let pos = lower_insert_position(list, value);
    if pos < list.len() {
        proof {
            assert(pre[pos as int] == list@[pos as int]@);
        }
        if str_eq(list[pos].as_str(), value) {
            proof {
                assert(pre.contains(value@)) by {
                    assert(pre[pos as int] == value@);
                }
            }
            return ;
        }
    }
    list.insert(pos, value.to_owned());
    proof {
        let post = list.deep_view();
        assert(list@ == old(list)@.insert(pos as int, list@[pos as int]));
        assert(list@[pos as int]@ == value@);
        assert(post.len() == pre.len() + 1);
        assert forall|j: int| 0 <= j < post.len() implies post[j] == (if j < pos {
            pre[j]
        } else if j == pos {
            value@
        } else {
            pre[j - 1]
        }) by {
            assert(post[j] == list@[j]@);
            if j < pos {
                assert(list@[j] == old(list)@[j]);
            } else if j > pos {
                assert(list@[j] == old(list)@[j - 1]);
            }
        }
        // value is strictly above everything before `pos` and strictly below
        // everything from `pos` on
        assert forall|b: int| pos <= b < pre.len() implies lex_lt(value@, pre[b]) by {
            lemma_lex_le_total(pre[pos as int], value@);
            assert(lex_le(value@, pre[pos as int]));
            assert(value@ != pre[pos as int]);
            if b > pos {
                assert(lex_lt(pre[pos as int], pre[b]));
                lemma_lex_le_transitive(value@, pre[pos as int], pre[b]);
                if value@ == pre[b] {
                    lemma_lex_le_antisymmetric(value@, pre[pos as int]);
                }
            }
        }
        assert forall|a: int, b: int| 0 <= a < b < post.len() implies lex_lt(post[a], post[b]) by {
            if a < pos && b == pos {
                assert(lex_lt(pre[a], value@));
            } else if a == pos && b > pos {
                assert(lex_lt(value@, pre[b - 1]));
            } else if a < pos && b > pos {
                assert(lex_lt(pre[a], value@));
                assert(lex_lt(value@, pre[b - 1]));
                lemma_lex_le_transitive(pre[a], value@, pre[b - 1]);
                if pre[a] == pre[b - 1] {
                    lemma_lex_le_antisymmetric(pre[a], value@);
                }
            }
        }
        assert forall|c: Seq<char>| post.contains(c) implies (pre.contains(c) || c == value@) by {
            let j = choose|j: int| 0 <= j < post.len() && post[j] == c;
            if j < pos {
                assert(pre[j] == c);
            } else if j > pos {
                assert(pre[j - 1] == c);
            }
        }
        assert forall|c: Seq<char>| pre.contains(c) || c == value@ implies post.contains(c) by {
            if c == value@ {
                assert(post[pos as int] == c);
            } else {
                let j = choose|j: int| 0 <= j < pre.len() && pre[j] == c;
                if j < pos {
                    assert(post[j] == c);
                } else {
                    assert(post[j + 1] == c);
                }
            }
        }
    }
}

/// Whether `c` is an ASCII decimal digit.
pub open spec fn is_decimal_digit(c: char) -> bool {
    48 <= c as u32 <= 57
}

/// The numeric value of an ASCII decimal digit.
pub open spec fn decimal_digit_value(c: char) -> int {
    c as u32 - 48
}

/// Whether every character of `s` is an ASCII decimal digit.
pub open spec fn all_decimal_digits(s: Seq<char>) -> bool {
    forall|i: int| 0 <= i < s.len() ==> is_decimal_digit(s[i])
}

/// The number denoted by a sequence of decimal digits, most significant first.
pub open spec fn decimal_value(s: Seq<char>) -> int
    decreases s.len(),
{
    if s.len() == 0 {
        0
    } else {
        decimal_value(s.drop_last()) * 10 + decimal_digit_value(s.last())
    }
}

/// What parsing a string as a `u64` yields: an optional leading `+`, then at
/// least one decimal digit, denoting a value that fits in a `u64`.
pub open spec fn parse_u64_of(s: Seq<char>) -> Option<u64> {
    let digits = if s.len() > 0 && s[0] == '+' {
        s.skip(1)
    } else {
        s
    };
    if digits.len() > 0 && all_decimal_digits(digits) && decimal_value(digits) <= u64::MAX {
        Some(decimal_value(digits) as u64)
    } else {
        None
    }
}

proof fn lemma_decimal_value_nonneg(s: Seq<char>)
    requires
        all_decimal_digits(s),
    ensures
        decimal_value(s) >= 0,
    decreases s.len(),
{
    if s.len() > 0 {
        assert(all_decimal_digits(s.drop_last()));
        lemma_decimal_value_nonneg(s.drop_last());
    }
}

/// A prefix of a digit string never denotes more than the whole string.
proof fn lemma_decimal_value_prefix_le(s: Seq<char>, j: int)
    requires
        0 <= j <= s.len(),
        all_decimal_digits(s),
    ensures
        decimal_value(s.take(j)) <= decimal_value(s),
    decreases s.len() - j,
{
    if j == s.len() {
        assert(s.take(j) =~= s);
    } else {
        lemma_decimal_value_prefix_le(s, j + 1);
        assert(s.take(j + 1).drop_last() =~= s.take(j));
        assert(all_decimal_digits(s.take(j)));
        lemma_decimal_value_nonneg(s.take(j));
        assert(decimal_value(s.take(j + 1)) == decimal_value(s.take(j)) * 10 + decimal_digit_value(
            s.take(j + 1).last(),
        ));
    }
}

/// Parses a string as `u64::from_str` does: an optional leading `+`, then
/// decimal digits; anything else, or a value over `u64::MAX`, is rejected.
#[verifier::rlimit(30)]
pub(crate) fn parse_u64_str(s: &str) -> (r: Option<u64>)
    ensures
        r == parse_u64_of(s@),
{
    let len = s.unicode_len();
    if len == 0 {
        return None;
    }
    let first = s.get_char(0);
    let start: usize = if first == '+' {
        1
    } else {
        0
    };
    let ghost digits = if s@[0] == '+' {
        s@.skip(1)
    } else {
        s@
    };
    if start == len {
        assert(digits.len() == 0);
        return None;
    }
    let mut value: u64 = 0;
    let mut i: usize = start;
    loop
        invariant
            start <= i <= len,
            start < len,
            len == s@.len(),
            start == 1 ==> s@[0] == '+',
            start == 0 ==> !(s@.len() > 0 && s@[0] == '+'),
            digits == (if s@.len() > 0 && s@[0] == '+' {
                s@.skip(1)
            } else {
                s@
            }),
            digits.len() == len - start,
            forall|j: int| start <= j < len ==> digits[j - start] == s@[j],
            all_decimal_digits(digits.take(i - start)),
            value == decimal_value(digits.take(i - start)),
        decreases len - i,
    {
        if i == len {
            assert(digits.take(i - start) =~= digits);
            return Some(value);
        }
        let c = s.get_char(i);
        let cu: u32 = c as u32;
        if cu < 48 || cu > 57 {
            assert(!is_decimal_digit(digits[i - start]));
            return None;
        }
        let d: u64 = (cu - 48) as u64;
        proof {
            assert(digits.take(i + 1 - start).drop_last() =~= digits.take(i - start));
            assert(digits.take(i + 1 - start).last() == digits[i - start]);
        }
        let next = match value.checked_mul(10) {
            Some(m) => m.checked_add(d),
            None => None,
        };
        match next {
            Some(nv) => {
                value = nv;
            },
            None => {
                proof {
                    assert(decimal_value(digits.take(i + 1 - start)) > u64::MAX);
                    if all_decimal_digits(digits) {
                        lemma_decimal_value_prefix_le(digits, i + 1 - start);
                    }
                }
                return None;
            },
        }
        i = i + 1;
    }
}

/// The character for one decimal digit.
pub open spec fn decimal_digit_char(d: int) -> char {
    if d == 0 {
        '0'
    } else if d == 1 {
        '1'
    } else if d == 2 {
        '2'
    } else if d == 3 {
        '3'
    } else if d == 4 {
        '4'
    } else if d == 5 {
        '5'
    } else if d == 6 {
        '6'
    } else if d == 7 {
        '7'
    } else if d == 8 {
        '8'
    } else {
        '9'
    }
}

/// The decimal rendering of a non-negative number, without sign or padding.
pub open spec fn decimal_string_of(n: int) -> Seq<char>
    decreases n,
{
    if n < 10 {
        seq![decimal_digit_char(n)]
    } else {
        decimal_string_of(n / 10) + seq![decimal_digit_char(n % 10)]
    }
}

fn decimal_digit_str(d: u64) -> (r: &'static str)
    requires
        d < 10,
    ensures
        r@ == seq![decimal_digit_char(d as int)],
{
    proof {
        reveal_strlit("0");
        reveal_strlit("1");
        reveal_strlit("2");
        reveal_strlit("3");
        reveal_strlit("4");
        reveal_strlit("5");
        reveal_strlit("6");
        reveal_strlit("7");
        reveal_strlit("8");
        reveal_strlit("9");
    }
    if d == 0 {
        let r = "0";
        assert(r@ =~= seq![decimal_digit_char(d as int)]);
        r
    } else if d == 1 {
        let r = "1";
        assert(r@ =~= seq![decimal_digit_char(d as int)]);
        r
    } else if d == 2 {
        let r = "2";
        assert(r@ =~= seq![decimal_digit_char(d as int)]);
        r
    } else if d == 3 {
        let r = "3";
        assert(r@ =~= seq![decimal_digit_char(d as int)]);
        r
    } else if d == 4 {
        let r = "4";
        assert(r@ =~= seq![decimal_digit_char(d as int)]);
        r
    } else if d == 5 {
        let r = "5";
        assert(r@ =~= seq![decimal_digit_char(d as int)]);
        r
    } else if d == 6 {
        let r = "6";
        assert(r@ =~= seq![decimal_digit_char(d as int)]);
        r
    } else if d == 7 {
        let r = "7";
        assert(r@ =~= seq![decimal_digit_char(d as int)]);
        r
    } else if d == 8 {
        let r = "8";
        assert(r@ =~= seq![decimal_digit_char(d as int)]);
        r
    } else {
        let r = "9";
        assert(r@ =~= seq![decimal_digit_char(d as int)]);
        r
    }
}

/// Renders a `u64` in decimal.
pub(crate) fn u64_to_decimal_string(n: u64) -> (r: String)
    ensures
        r@ == decimal_string_of(n as int),
    decreases n,
{
    if n < 10 {
        String::from_str(decimal_digit_str(n))
    } else {
        let prefix = u64_to_decimal_string(n / 10);
        prefix.concat(decimal_digit_str(n % 10))
    }
}

} // verus!

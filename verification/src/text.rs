//! Text utilities for the statement pipeline: string equality and prefix
//! tests, splitting a line on single spaces, and decimal reading and
//! writing of 32-bit ids. Each executable function is proved against a spec
//! function on character sequences.

use vstd::prelude::*;
use vstd::string::StrSliceExecFns;
use vstd::string::StringExecFns;

verus! {

/// `p` is a prefix of `s`.
pub open spec fn is_prefix_of(p: Seq<char>, s: Seq<char>) -> bool {
    p.len() <= s.len() && forall|i: int| 0 <= i < p.len() ==> #[trigger] p[i] == s[i]
}

/// Character-wise string equality.
pub fn str_eq(a: &str, b: &str) -> (r: bool)
    ensures
        r == (a@ == b@),
{
    let n = a.unicode_len();
    if n != b.unicode_len() {
        return false;
    }
    let mut i: usize = 0;
    while i < n
        invariant
            i <= n,
            n == a@.len(),
            n == b@.len(),
            forall|j: int| 0 <= j < i ==> a@[j] == b@[j],
        decreases n - i,
    {
        if a.get_char(i) != b.get_char(i) {
            return false;
        }
        i = i + 1;
    }
    proof {
        assert(a@ =~= b@);
    }
    true
}

/// Whether `s` begins with `p`.
pub fn str_starts_with(s: &str, p: &str) -> (r: bool)
    ensures
        r == is_prefix_of(p@, s@),
{
    let n = s.unicode_len();
    let m = p.unicode_len();
    if m > n {
        return false;
    }
    let mut i: usize = 0;
    while i < m
        invariant
            i <= m <= n,
            n == s@.len(),
            m == p@.len(),
            forall|j: int| 0 <= j < i ==> p@[j] == s@[j],
        decreases m - i,
    {
        if s.get_char(i) != p.get_char(i) {
            return false;
        }
        i = i + 1;
    }
    true
}

/// The tokens of `s` split on single spaces: always at least one token,
/// with empty tokens kept, exactly as splitting on a one-character
/// separator produces them.
pub open spec fn split_on_spaces(s: Seq<char>) -> Seq<Seq<char>>
    decreases s.len(),
{
    if s.len() == 0 {
        seq![Seq::<char>::empty()]
    } else if s[0] == ' ' {
        seq![Seq::<char>::empty()] + split_on_spaces(s.drop_first())
    } else {
        let rest = split_on_spaces(s.drop_first());
        seq![seq![s[0]] + rest[0]] + rest.drop_first()
    }
}

/// Splitting never yields an empty token list.
proof fn lemma_split_nonempty(s: Seq<char>)
    ensures
        split_on_spaces(s).len() >= 1,
    decreases s.len(),
{
    if s.len() > 0 {
        lemma_split_nonempty(s.drop_first());
    }
}

/// Splitting off the first token: if the first space of `s` stands at `i`,
/// the tokens of `s` are the head run followed by the tokens of the tail;
/// if `s` has no space at all, it is its own single token.
proof fn lemma_split_first_space(s: Seq<char>, i: int)
    requires
        0 <= i <= s.len(),
        forall|j: int| 0 <= j < i ==> s[j] != ' ',
        i < s.len() ==> s[i] == ' ',
    ensures
        i < s.len() ==> split_on_spaces(s) =~~= seq![s.subrange(0, i)] + split_on_spaces(
            s.subrange(i + 1, s.len() as int),
        ),
        i == s.len() ==> split_on_spaces(s) =~~= seq![s],
    decreases s.len(),
{
    lemma_split_nonempty(s);
    if s.len() == 0 {
        assert(split_on_spaces(s) =~~= seq![s]);
    } else if s[0] == ' ' {
        assert(i == 0);
        assert(s.drop_first() =~= s.subrange(1, s.len() as int));
        assert(s.subrange(0, 0) =~= Seq::<char>::empty());
    } else {
        let tail = s.drop_first();
        lemma_split_nonempty(tail);
        lemma_split_first_space(tail, i - 1);
        if i < s.len() {
            assert(tail.subrange(0, i - 1) =~= s.subrange(1, i));
            assert(tail.subrange(i, tail.len() as int) =~= s.subrange(i + 1, s.len() as int));
            assert(seq![s[0]] + s.subrange(1, i) =~= s.subrange(0, i));
        } else {
            assert(seq![s[0]] + tail =~= s);
        }
    }
}

/// The views of a vector of owned strings.
pub open spec fn views_of(tokens: Seq<String>) -> Seq<Seq<char>> {
    tokens.map_values(|t: String| t@)
}

/// Splits a line on single spaces into owned tokens, empty tokens kept.
pub fn split_spaces(s: &str) -> (tokens: Vec<String>)
    ensures
        views_of(tokens@) == split_on_spaces(s@),
        tokens@.len() >= 1,
{
    let n = s.unicode_len();
    let mut tokens: Vec<String> = Vec::new();
    let mut start: usize = 0;
    let mut i: usize = 0;
    proof {
        assert(s@.subrange(0, n as int) =~= s@);
    }
    while i < n
        invariant
            start <= i <= n,
            n == s@.len(),
            forall|j: int| start <= j < i ==> s@[j] != ' ',
            split_on_spaces(s@) =~~= views_of(tokens@) + split_on_spaces(
                s@.subrange(start as int, n as int),
            ),
        decreases n - i,
    {
        if s.get_char(i) == ' ' {
            let tok = s.substring_char(start, i);
            proof {
                let piece = s@.subrange(start as int, n as int);
                lemma_split_first_space(piece, i - start);
                assert(piece.subrange(0, i - start) =~= s@.subrange(start as int, i as int));
                assert(piece.subrange(i - start + 1, piece.len() as int) =~= s@.subrange(
                    i + 1,
                    n as int,
                ));
            }
            tokens.push(tok.to_owned());
            proof {
                assert(views_of(tokens@) =~= views_of(tokens@.drop_last()) + seq![tok@]);
            }
            start = i + 1;
        }
        i = i + 1;
    }
    let tok = s.substring_char(start, n);
    proof {
        let piece = s@.subrange(start as int, n as int);
        lemma_split_first_space(piece, n - start);
    }
    tokens.push(tok.to_owned());
    proof {
        assert(views_of(tokens@) =~= views_of(tokens@.drop_last()) + seq![tok@]);
        assert(views_of(tokens@) =~~= split_on_spaces(s@));
        assert(views_of(tokens@) == split_on_spaces(s@));
    }
    tokens
}

/// A decimal digit.
pub open spec fn is_digit(c: char) -> bool {
    '0' as u32 <= c as u32 && c as u32 <= '9' as u32
}

/// The numeric value of a decimal digit.
pub open spec fn digit_val(c: char) -> int {
    c as u32 - '0' as u32
}

/// Every character of `s` is a decimal digit.
pub open spec fn all_digits(s: Seq<char>) -> bool {
    forall|i: int| 0 <= i < s.len() ==> is_digit(#[trigger] s[i])
}

/// The value of `s` read as a decimal numeral, most significant digit
/// first.
pub open spec fn dec_value(s: Seq<char>) -> int
    decreases s.len(),
{
    if s.len() == 0 {
        0
    } else {
        dec_value(s.drop_last()) * 10 + digit_val(s.last())
    }
}

/// A longer run of digits never has a smaller value: appending digits can
/// only grow a numeral.
proof fn lemma_dec_value_grows(s: Seq<char>, k: int)
    requires
        all_digits(s),
        0 <= k <= s.len(),
    ensures
        dec_value(s.subrange(0, k)) <= dec_value(s),
    decreases s.len() - k,
{
    if k < s.len() {
        lemma_dec_value_grows(s, k + 1);
        let shorter = s.subrange(0, k);
        let longer = s.subrange(0, k + 1);
        assert(longer.drop_last() =~= shorter);
        assert(dec_value(longer) == dec_value(shorter) * 10 + digit_val(longer.last()));
        assert(dec_value(shorter) >= 0) by {
            lemma_dec_value_nonneg(shorter);
        }
    } else {
        assert(s.subrange(0, k) =~= s);
    }
}

/// A numeral's value is never negative.
proof fn lemma_dec_value_nonneg(s: Seq<char>)
    requires
        all_digits(s),
    ensures
        dec_value(s) >= 0,
    decreases s.len(),
{
    if s.len() > 0 {
        assert(all_digits(s.drop_last()));
        lemma_dec_value_nonneg(s.drop_last());
    }
}

/// Reads an unsigned 32-bit integer written in decimal. Succeeds exactly
/// on a nonempty all-digit string whose value fits; leading zeros are
/// accepted.
pub fn parse_u32(s: &str) -> (r: Option<u32>)
    ensures
        match r {
            Some(v) => s@.len() > 0 && all_digits(s@) && dec_value(s@) <= u32::MAX && v
                == dec_value(s@),
            None => s@.len() == 0 || !all_digits(s@) || dec_value(s@) > u32::MAX,
        },
{
    let n = s.unicode_len();
    if n == 0 {
        return None;
    }
    let mut acc: u32 = 0;
    let mut i: usize = 0;
    proof {
        assert(s@.subrange(0, 0) =~= Seq::<char>::empty());
    }
    while i < n
        invariant
            i <= n,
            n == s@.len(),
            n > 0,
            all_digits(s@.subrange(0, i as int)),
            acc == dec_value(s@.subrange(0, i as int)),
        decreases n - i,
    {
        let c = s.get_char(i);
        let cv = c as u32;
        if cv < '0' as u32 || cv > '9' as u32 {
            proof {
                assert(!is_digit(s@[i as int]));
            }
            return None;
        }
        let d = cv - '0' as u32;
        let ghost prefix = s@.subrange(0, i as int);
        let ghost extended = s@.subrange(0, i + 1);
        proof {
            assert(extended.drop_last() =~= prefix);
            assert(all_digits(extended));
            assert(dec_value(extended) == acc * 10 + d);
        }
        if acc > (u32::MAX - d) / 10 {
            proof {
                // The numeral already overflows here, and more digits only
                // grow it; any non-digit later justifies failure by itself.
                assert(acc * 10 + d > u32::MAX);
                if all_digits(s@) {
                    lemma_dec_value_grows(s@, i + 1);
                }
            }
            return None;
        }
        proof {
            assert(acc * 10 + d <= u32::MAX);
        }
        acc = acc * 10 + d;
        i = i + 1;
    }
    proof {
        assert(s@.subrange(0, n as int) =~= s@);
    }
    Some(acc)
}

/// The digit character of a value below ten.
pub open spec fn digit_char(d: int) -> char {
    if d == 0 {
        '0'
    } else if d == 1 {
        '1'
    } else if d == 2 {
        '2'
    } else if d == 3 {
        '3'
    } else if d == 4 {
        '4'
    } else if d == 5 {
        '5'
    } else if d == 6 {
        '6'
    } else if d == 7 {
        '7'
    } else if d == 8 {
        '8'
    } else {
        '9'
    }
}

/// The decimal numeral of a nonnegative value, most significant digit
/// first, without leading zeros.
pub open spec fn dec_str(n: int) -> Seq<char>
    decreases n,
{
    if n < 10 {
        seq![digit_char(n)]
    } else {
        dec_str(n / 10).push(digit_char(n % 10))
    }
}

/// The one-character string for a digit value.
fn digit_str(d: u32) -> (s: &'static str)
    requires
        d < 10,
    ensures
        s@ =~= seq![digit_char(d as int)],
{
    proof {
        reveal_strlit("0");
        reveal_strlit("1");
        reveal_strlit("2");
        reveal_strlit("3");
        reveal_strlit("4");
        reveal_strlit("5");
        reveal_strlit("6");
        reveal_strlit("7");
        reveal_strlit("8");
        reveal_strlit("9");
    }
    if d == 0 {
        "0"
    } else if d == 1 {
        "1"
    } else if d == 2 {
        "2"
    } else if d == 3 {
        "3"
    } else if d == 4 {
        "4"
    } else if d == 5 {
        "5"
    } else if d == 6 {
        "6"
    } else if d == 7 {
        "7"
    } else if d == 8 {
        "8"
    } else {
        "9"
    }
}

/// Writes a value in decimal, matching `dec_str`.
pub fn render_u32(n: u32) -> (s: String)
    ensures
        s@ == dec_str(n as int),
    decreases n,
{
    if n < 10 {
        digit_str(n).to_owned()
    } else {
        let mut s = render_u32(n / 10);
        s.append(digit_str(n % 10));
        proof {
            assert(s@ =~= dec_str((n / 10) as int).push(digit_char((n % 10) as int)));
        }
        s
    }
}

} // verus!

//! Text: numerals, padding, comparison and splitting of strings.
use vstd::prelude::*;
use vstd::string::StrSliceExecFns;
use vstd::string::StringExecFns;

verus! {

/// The digit of value `d`: `0` to `9`, then `a` to `f`.
pub open spec fn digit(d: int) -> char {
    if d < 10 {
        (48 + d) as char
    } else {
        (87 + d) as char
    }
}

/// The numeral of `n` in the given base, without leading zeros.
pub open spec fn numeral(n: nat, base: nat) -> Seq<char>
    decreases n,
    when base >= 2
{
    if n < base {
        seq![digit(n as int)]
    } else {
        proof {
            vstd::arithmetic::div_mod::lemma_div_decreases(n as int, base as int);
        }
        numeral(n / base, base).push(digit((n % base) as int))
    }
}

/// `count` zeros.
pub open spec fn zeros(count: int) -> Seq<char> {
    Seq::new(
        if count > 0 {
            count as nat
        } else {
            0
        },
        |i: int| '0',
    )
}

/// `s` with zeros in front, up to `width` characters.
pub open spec fn zero_padded(s: Seq<char>, width: int) -> Seq<char> {
    zeros(width - s.len()) + s
}

/// The two parts of `s` around the first occurrence of `c`.
pub open spec fn split_at_first(s: Seq<char>, c: char) -> Option<(Seq<char>, Seq<char>)> {
    match s.index_of_first(c) {
        Some(i) => Some((s.take(i), s.skip(i + 1))),
        None => None,
    }
}

/// A padded numeral is the padded numeral of the leading digits, then the last
/// digit.
pub(crate) proof fn lemma_padded_numeral_step(n: nat, base: nat, width: int)
    requires
        2 <= base,
        n >= base || width > 1,
    ensures
        zero_padded(numeral(n, base), width) == zero_padded(
            numeral(n / base, base),
            width - 1,
        ).push(digit((n % base) as int)),
{
    if n >= base {
        assert(zero_padded(numeral(n, base), width) =~= zero_padded(
            numeral(n / base, base),
            width - 1,
        ).push(digit((n % base) as int)));
    } else {
        vstd::arithmetic::div_mod::lemma_basic_div(n as int, base as int);
        vstd::arithmetic::div_mod::lemma_small_mod(n, base);
        assert(numeral(0, base) == seq!['0']);
        assert(zero_padded(numeral(n, base), width) =~= zero_padded(
            numeral(0, base),
            width - 1,
        ).push(digit(n as int)));
    }
}

/// The digit of value `d` as a string.
fn digit_str(d: u64) -> (res: &'static str)
    requires
        d < 16,
    ensures
        res@ == seq![digit(d as int)],
{
    proof {
        reveal_strlit("0");
        reveal_strlit("1");
        reveal_strlit("2");
        reveal_strlit("3");
        reveal_strlit("4");
        reveal_strlit("5");
        reveal_strlit("6");
        reveal_strlit("7");
        reveal_strlit("8");
        reveal_strlit("9");
        reveal_strlit("a");
        reveal_strlit("b");
        reveal_strlit("c");
        reveal_strlit("d");
        reveal_strlit("e");
        reveal_strlit("f");
    }
    match d {
        0 => "0",
        1 => "1",
        2 => "2",
        3 => "3",
        4 => "4",
        5 => "5",
        6 => "6",
        7 => "7",
        8 => "8",
        9 => "9",
        10 => "a",
        11 => "b",
        12 => "c",
        13 => "d",
        14 => "e",
        _ => "f",
    }
}

/// Appends the numeral of `n`, padded with zeros to `width` characters.
pub(crate) fn push_numeral(out: &mut String, n: u64, base: u64, width: u8)
    requires
        2 <= base <= 16,
    ensures
        final(out)@ == old(out)@ + zero_padded(numeral(n as nat, base as nat), width as int),
    decreases n, width,
{
    if n >= base || width > 1 {
        let rest: u8 = if width > 0 {
            width - 1
        } else {
            0
        };
        proof {
            lemma_padded_numeral_step(n as nat, base as nat, width as int);
            if n >= base {
                vstd::arithmetic::div_mod::lemma_div_decreases(n as int, base as int);
            } else {
                vstd::arithmetic::div_mod::lemma_basic_div(n as int, base as int);
            }
            assert(zero_padded(numeral(n as nat / base as nat, base as nat), rest as int)
                =~= zero_padded(numeral(n as nat / base as nat, base as nat), width - 1));
        }
        push_numeral(out, n / base, base, rest);
    }
    proof {
        if !(n >= base || width > 1) {
            vstd::arithmetic::div_mod::lemma_small_mod(n as nat, base as nat);
        }
    }
    out.append(digit_str(n % base));
}

/// Whether two strings hold the same characters.
pub(crate) fn str_eq(a: &str, b: &str) -> (res: bool)
    ensures
        res == (a@ == b@),
{
    let mut left = a.chars();
    let mut right = b.chars();
    let ghost mut done: int = 0;
    loop
        invariant
            0 <= done <= a@.len(),
            done <= b@.len(),
            a@.take(done) == b@.take(done),
            vstd::std_specs::iter::IteratorSpec::remaining(&left) == a@.skip(done),
            vstd::std_specs::iter::IteratorSpec::remaining(&right) == b@.skip(done),
        decreases a@.len() - done,
    {
        match (left.next(), right.next()) {
            (Some(x), Some(y)) => {
                if x != y {
                    assert(a@[done] != b@[done]);
                    return false;
                }
                proof {
                    assert(a@.take(done + 1) =~= a@.take(done).push(x));
                    assert(b@.take(done + 1) =~= b@.take(done).push(y));
                    assert(a@.skip(done).drop_first() =~= a@.skip(done + 1));
                    assert(b@.skip(done).drop_first() =~= b@.skip(done + 1));
                    done = done + 1;
                }
            },
            (None, None) => {
                assert(a@.take(done) =~= a@);
                assert(b@.take(done) =~= b@);
                return true;
            },
            _ => {
                return false;
            },
        }
    }
}

/// Splits `s` at the first occurrence of `c`.
pub(crate) fn split_once<'a>(s: &'a str, c: char) -> (res: Option<(&'a str, &'a str)>)
    ensures
        res is Some <==> split_at_first(s@, c) is Some,
        res matches Some((head, tail)) ==> split_at_first(s@, c) == Some((head@, tail@)),
{
    let len: usize = s.unicode_len();
    let mut rest = s.chars();
    let mut i: usize = 0;
    while i < len
        invariant
            len == s@.len(),
            i <= len,
            vstd::std_specs::iter::IteratorSpec::remaining(&rest) == s@.skip(i as int),
            forall|j: int| 0 <= j < i ==> s@[j] != c,
        decreases len - i,
    {
        if rest.next() == Some(c) {
            proof {
                s@.index_of_first_ensures(c);
                assert(s@[i as int] == c);
            }
            let head = s.substring_char(0, i);
            let tail = s.substring_char(i + 1, len);
            assert(s@.index_of_first(c) == Some(i as int));
            return Some((head, tail));
        }
        assert(s@.skip(i as int).drop_first() =~= s@.skip(i + 1));
        i = i + 1;
    }
    proof {
        s@.index_of_first_ensures(c);
    }
    None
}

/// The text that `bytes` encodes, where they are UTF-8.
///
/// Calls `core::str::from_utf8`, and takes from it that it succeeds on the
/// byte strings that are UTF-8 and on no other, and that the text it gives is
/// encoded by those bytes.
#[verifier::external_body]
pub(crate) fn from_utf8<'a>(bytes: &'a [u8]) -> (res: Option<&'a str>)
    ensures
        res is Some <==> vstd::utf8::valid_utf8(bytes@),
        res matches Some(s) ==> vstd::utf8::encode_utf8(s@) == bytes@,
{
    core::str::from_utf8(bytes).ok()
}

/// The value of a digit.
pub open spec fn digit_value(c: char) -> int {
    if (c as int) < 58 {
        c as int - 48
    } else {
        c as int - 87
    }
}

/// The number that digits stand for.
pub open spec fn numeral_value(s: Seq<char>, base: nat) -> int
    decreases s.len(),
{
    if s.len() == 0 {
        0
    } else {
        numeral_value(s.drop_last(), base) * base + digit_value(s.last())
    }
}

/// A numeral stands for the number that it was written for, padded or not.
pub proof fn law_numeral_reads_back(n: nat, base: nat, width: int)
    requires
        2 <= base <= 16,
    ensures
        numeral_value(zero_padded(numeral(n, base), width), base) == n,
    decreases n, width,
{
    let s = zero_padded(numeral(n, base), width);
    if n >= base || width > 1 {
        lemma_padded_numeral_step(n, base, width);
        if n >= base {
            vstd::arithmetic::div_mod::lemma_div_decreases(n as int, base as int);
        } else {
            vstd::arithmetic::div_mod::lemma_basic_div(n as int, base as int);
        }
        let shorter = if width > 0 {
            width - 1
        } else {
            0
        };
        law_numeral_reads_back(n / base, base, shorter);
        let head = zero_padded(numeral(n / base, base), width - 1);
        assert(head =~= zero_padded(numeral(n / base, base), shorter));
        assert(s.drop_last() =~= head);
        vstd::arithmetic::div_mod::lemma_mod_bound(n as int, base as int);
        vstd::arithmetic::div_mod::lemma_fundamental_div_mod(n as int, base as int);
        vstd::arithmetic::mul::lemma_mul_is_commutative(base as int, n as int / base as int);
    } else {
        assert(s =~= seq![digit(n as int)]);
        assert(s.drop_last() =~= Seq::<char>::empty());
        assert(numeral_value(Seq::<char>::empty(), base) == 0);
    }
}

/// Whether `c` is a digit of the base, in lower case.
pub open spec fn is_digit(c: char, base: nat) -> bool {
    &&& '0' <= c <= '9' || 'a' <= c <= 'f'
    &&& 0 <= digit_value(c) < base
}

/// Whether `s` is written in digits of the base and stands for `n`.
pub open spec fn reads_as(s: Seq<char>, base: nat, n: int) -> bool {
    &&& s.len() >= 1
    &&& forall|i: int| 0 <= i < s.len() ==> is_digit(#[trigger] s[i], base)
    &&& numeral_value(s, base) == n
}

/// The digits are the usual ones, in lower case.
pub proof fn law_digits(d: int)
    requires
        0 <= d < 16,
    ensures
        digit(d) == "0123456789abcdef"@[d],
        digit_value("0123456789abcdef"@[d]) == d,
{
    reveal_strlit("0123456789abcdef");
}

/// A numeral is written in digits of its base and stands for its number. It has
/// no leading zero, unless it is the numeral of zero.
pub proof fn law_numeral_is_plain(n: nat, base: nat)
    requires
        2 <= base <= 16,
    ensures
        reads_as(numeral(n, base), base, n as int),
        numeral(n, base).len() > 1 ==> numeral(n, base)[0] != '0',
        numeral(n, base)[0] == '0' ==> n == 0,
    decreases n,
{
    law_numeral_reads_back(n, base, 0);
    assert(zero_padded(numeral(n, base), 0) =~= numeral(n, base));
    if n >= base {
        vstd::arithmetic::div_mod::lemma_div_decreases(n as int, base as int);
        vstd::arithmetic::div_mod::lemma_div_non_zero(n as int, base as int);
        vstd::arithmetic::div_mod::lemma_mod_bound(n as int, base as int);
        law_numeral_is_plain(n / base, base);
        assert(numeral(n, base)[0] == numeral(n / base, base)[0]);
    }
}

/// Padding puts zeros in front of a text, just as many as it takes to reach the
/// width, and changes nothing else.
pub proof fn law_padding(s: Seq<char>, width: int)
    ensures
        ({
            let padded = zero_padded(s, width);
            let added = padded.len() - s.len();
            &&& padded.len() >= s.len()
            &&& padded.len() >= width
            &&& added == 0 || padded.len() == width
            &&& padded.skip(added) == s
            &&& forall|i: int| 0 <= i < added ==> padded[i] == '0'
        }),
{
    let padded = zero_padded(s, width);
    assert(padded.skip(padded.len() - s.len()) =~= s);
}

/// A padded numeral is written in digits of its base and stands for its number.
pub proof fn law_padded_numeral_is_plain(n: nat, base: nat, width: int)
    requires
        2 <= base <= 16,
    ensures
        reads_as(zero_padded(numeral(n, base), width), base, n as int),
{
    law_numeral_is_plain(n, base);
    law_numeral_reads_back(n, base, width);
    let padded = zero_padded(numeral(n, base), width);
    let added = padded.len() - numeral(n, base).len();
    assert forall|i: int| 0 <= i < padded.len() implies is_digit(#[trigger] padded[i], base) by {
        if i >= added {
            assert(padded[i] == numeral(n, base)[i - added]);
        }
    }
}

/// Splitting at a character loses nothing but that character, and splits at its
/// first occurrence. It fails exactly when there is none.
pub proof fn law_split(s: Seq<char>, c: char)
    ensures
        split_at_first(s, c) is None <==> !s.contains(c),
        split_at_first(s, c) matches Some((head, tail)) ==> {
            &&& head.push(c) + tail == s
            &&& !head.contains(c)
        },
{
    s.index_of_first_ensures(c);
    if let Some((head, tail)) = split_at_first(s, c) {
        let i = s.index_of_first(c)->0;
        assert(head.push(c) + tail =~= s);
        assert forall|j: int| 0 <= j < head.len() implies head[j] != c by {
            assert(head[j] == s[j]);
        }
    }
}

} // verus!

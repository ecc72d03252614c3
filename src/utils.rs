use vstd::prelude::*;

verus! {

/// The decimal digit character for `d` (0..=9).
pub open spec fn digit_char(d: int) -> char {
    if d == 0 { '0' }
    else if d == 1 { '1' }
    else if d == 2 { '2' }
    else if d == 3 { '3' }
    else if d == 4 { '4' }
    else if d == 5 { '5' }
    else if d == 6 { '6' }
    else if d == 7 { '7' }
    else if d == 8 { '8' }
    else { '9' }
}

/// Decimal digits of a natural number, most significant first, without leading zeros.
pub open spec fn digits_of(n: nat) -> Seq<char>
    decreases n,
{
    if n < 10 {
        seq![digit_char(n as int)]
    } else {
        digits_of(n / 10) + seq![digit_char((n % 10) as int)]
    }
}

/// How an integer is written in decimal: an optional minus sign, then its digits.
pub open spec fn decimal_text(n: int) -> Seq<char> {
    if n < 0 {
        seq!['-'] + digits_of((-n) as nat)
    } else {
        digits_of(n as nat)
    }
}

/// The text of a decimal digit.
fn digit_str(d: u32) -> (r: &'static str)
    requires
        d < 10,
    ensures
        r@ == seq![digit_char(d as int)],
{
    proof {
        reveal_strlit("0");
        reveal_strlit("1");
        reveal_strlit("2");
        reveal_strlit("3");
        reveal_strlit("4");
        reveal_strlit("5");
        reveal_strlit("6");
        reveal_strlit("7");
        reveal_strlit("8");
        reveal_strlit("9");
    }
    if d == 0 {
        assert("0"@ =~= seq!['0']);
        "0"
    } else if d == 1 {
        assert("1"@ =~= seq!['1']);
        "1"
    } else if d == 2 {
        assert("2"@ =~= seq!['2']);
        "2"
    } else if d == 3 {
        assert("3"@ =~= seq!['3']);
        "3"
    } else if d == 4 {
        assert("4"@ =~= seq!['4']);
        "4"
    } else if d == 5 {
        assert("5"@ =~= seq!['5']);
        "5"
    } else if d == 6 {
        assert("6"@ =~= seq!['6']);
        "6"
    } else if d == 7 {
        assert("7"@ =~= seq!['7']);
        "7"
    } else if d == 8 {
        assert("8"@ =~= seq!['8']);
        "8"
    } else {
        assert("9"@ =~= seq!['9']);
        "9"
    }
}

/// Appends the decimal digits of `n`.
fn write_digits(out: &mut String, n: u32)
    ensures
        final(out)@ == old(out)@ + digits_of(n as nat),
    decreases n,
{
    if n >= 10 {
        write_digits(out, n / 10);
    }
    out.append(digit_str(n % 10));
    proof {
        if n >= 10 {
            assert(old(out)@ + digits_of((n / 10) as nat) + seq![digit_char((n % 10) as int)] =~= old(out)@ + (digits_of(
                (n / 10) as nat,
            ) + seq![digit_char((n % 10) as int)]));
        }
    }
}

/// The integer written in decimal.
fn int_to_string(n: i32) -> (r: String)
    ensures
        r@ == decimal_text(n as int),
{
    let mut r = String::new();
    if n < 0 {
        r.append("-");
        proof {
            reveal_strlit("-");
            assert("-"@ =~= seq!['-']);
        }
        let m: u32 = (-(n as i64)) as u32;
        write_digits(&mut r, m);
    } else {
        write_digits(&mut r, n as u32);
        assert(r@ =~= digits_of(n as nat));
    }
    r
}

/// A count as shown to readers: millions with one decimal (rounded to the nearest
/// tenth, halves up), thousands truncated, smaller counts as they are.
pub open spec fn pretty_num_text(num: int) -> Seq<char> {
    if num >= 1_000_000 {
        let tenths = num / 100_000 + if num % 100_000 >= 50_000 { 1int } else { 0int };
        decimal_text(tenths / 10) + seq!['.'] + decimal_text(tenths % 10) + seq!['M']
    } else if num >= 1_000 {
        decimal_text(num / 1_000) + seq!['K']
    } else {
        decimal_text(num)
    }
}

/// Formats a count compactly: `2.5M`, `12K`, `999`.
pub fn pretty_format_num(num: i32) -> (r: String)
    ensures
        r@ == pretty_num_text(num as int),
{
    if num >= 1_000_000 {
        let round_up: i32 = if num % 100_000 >= 50_000 { 1 } else { 0 };
        let tenths: i32 = num / 100_000 + round_up;
        let whole = int_to_string(tenths / 10);
        let frac = int_to_string(tenths % 10);
        let mut r = whole;
        r.append(".");
        r.append(frac.as_str());
        r.append("M");
        proof {
            reveal_strlit(".");
            reveal_strlit("M");
        }
        r
    } else if num >= 1_000 {
        let mut r = int_to_string(num / 1_000);
        r.append("K");
        proof {
            reveal_strlit("K");
        }
        r
    } else {
        int_to_string(num)
    }
}

/// Compares two bytes behind references.
pub fn borrowed_u8_eq(a: &u8, b: &u8) -> (r: bool)
    ensures
        r == (*a == *b),
{
    *a == *b
}

/// Number of `/` characters in `s`.
pub open spec fn slash_count(s: Seq<char>) -> nat
    decreases s.len(),
{
    if s.len() == 0 {
        0
    } else {
        slash_count(s.drop_last()) + if s.last() == '/' { 1nat } else { 0nat }
    }
}

/// The path part of a URL: what follows its third `/`, or nothing when it has fewer
/// than three.
pub open spec fn url_path(url: Seq<char>) -> Seq<char> {
    if exists|k: int| 0 <= k < url.len() && #[trigger] slash_count(url.take(k + 1)) == 3 && url[k] == '/' {
        let k = choose|k: int| 0 <= k < url.len() && #[trigger] slash_count(url.take(k + 1)) == 3 && url[k] == '/';
        url.skip(k + 1)
    } else {
        Seq::empty()
    }
}

proof fn lemma_slash_count_step(s: Seq<char>, i: int)
    requires
        0 <= i < s.len(),
    ensures
        slash_count(s.take(i + 1)) == slash_count(s.take(i)) + if s[i] == '/' { 1nat } else { 0nat },
{
    assert(s.take(i + 1).drop_last() =~= s.take(i));
}

proof fn lemma_slash_count_mono(s: Seq<char>, i: int, j: int)
    requires
        0 <= i <= j <= s.len(),
    ensures
        slash_count(s.take(i)) <= slash_count(s.take(j)),
    decreases j - i,
{
    if i < j {
        lemma_slash_count_mono(s, i, j - 1);
        lemma_slash_count_step(s, j - 1);
    }
}

/// Gets the path part from a full URL; empty if the URL has no path.
///
/// `https://github.com/Insprill` gives `Insprill`, `github.com/Insprill` gives nothing.
pub fn path_from_url(url: &str) -> (r: String)
    ensures
        r@ == url_path(url@),
{
    let n = url.unicode_len();
    let mut seen: usize = 0;
    let mut i: usize = 0;
    while i < n
        invariant
            n == url@.len(),
            0 <= i <= n,
            seen == slash_count(url@.take(i as int)),
            seen < 3,
        decreases n - i,
    {
        let c = url.get_char(i);
        proof {
            lemma_slash_count_step(url@, i as int);
        }
        if c == '/' {
            seen = seen + 1;
            if seen == 3 {
                let rest = url.substring_char(i + 1, n);
                proof {
                    assert(slash_count(url@.take(i + 1)) == 3 && url@[i as int] == '/');
                    let k = choose|k: int| 0 <= k < url@.len() && #[trigger] slash_count(url@.take(k + 1)) == 3 && url@[k] == '/';
                    if k < i {
                        lemma_slash_count_step(url@, k);
                        lemma_slash_count_mono(url@, k + 1, i as int);
                    } else if k > i {
                        lemma_slash_count_step(url@, k);
                        lemma_slash_count_mono(url@, i as int + 1, k);
                    }
                    assert(k == i);
                    assert(rest@ =~= url@.skip(i + 1));
                }
                return String::from_str(rest);
            }
        }
        i = i + 1;
    }
    proof {
        assert(url@.take(n as int) =~= url@);
        assert forall|k: int| 0 <= k < url@.len() && url@[k] == '/' implies #[trigger] slash_count(url@.take(k + 1)) != 3 by {
            lemma_slash_count_mono(url@, k + 1, n as int);
            lemma_slash_count_step(url@, k);
            if slash_count(url@.take(k + 1)) == 3 {
                assert(false);
            }
        }
    }
    String::new()
}


pub open spec fn is_digit(c: char) -> bool {
    '0' <= c <= '9'
}

pub open spec fn all_digits(s: Seq<char>) -> bool {
    forall|i: int| 0 <= i < s.len() ==> is_digit(#[trigger] s[i])
}

/// The value of a string of decimal digits.
pub open spec fn decimal_value(s: Seq<char>) -> nat
    decreases s.len(),
{
    if s.len() == 0 {
        0
    } else {
        decimal_value(s.drop_last()) * 10 + ((s.last() as int - '0' as int) as nat)
    }
}

/// The number that `s` writes in decimal digits, where it is one and at most `max`.
pub open spec fn bounded_decimal(s: Seq<char>, max: nat) -> Option<nat> {
    if s.len() > 0 && all_digits(s) && decimal_value(s) <= max {
        Some(decimal_value(s))
    } else {
        None
    }
}

/// Reads a non-empty string of decimal digits whose value is at most `max`.
pub fn parse_digits(s: &str, max: u32) -> (r: Option<u32>)
    ensures
        r matches Some(v) ==> bounded_decimal(s@, max as nat) == Some(v as nat),
        r is None ==> bounded_decimal(s@, max as nat) is None,
{
    let n = s.unicode_len();
    if n == 0 {
        return None;
    }
    let cap: u64 = max as u64 + 1;
    let mut acc: u64 = 0;
    let mut i: usize = 0;
    while i < n
        invariant
            n == s@.len(),
            0 <= i <= n,
            cap == max as u64 + 1,
            all_digits(s@.take(i as int)),
            acc == if decimal_value(s@.take(i as int)) >= cap { cap as nat } else { decimal_value(s@.take(i as int)) },
        decreases n - i,
    {
        let c = s.get_char(i);
        if !('0' <= c && c <= '9') {
            proof {
                assert(!is_digit(s@[i as int]));
            }
            return None;
        }
        let d: u64 = (c as u32 - '0' as u32) as u64;
        let ghost prev = decimal_value(s@.take(i as int));
        proof {
            assert(s@.take(i + 1).drop_last() =~= s@.take(i as int));
            assert(decimal_value(s@.take(i + 1)) == prev * 10 + d);
            assert forall|j: int| 0 <= j < i + 1 implies is_digit(#[trigger] s@.take(i + 1)[j]) by {
                if j < i {
                    assert(s@.take(i + 1)[j] == s@.take(i as int)[j]);
                }
            }
        }
        if acc >= cap {
            proof {
                assert(prev * 10 + d >= prev) by (nonlinear_arith)
                    requires prev >= 0, d >= 0;
            }
        } else {
            let next = acc * 10 + d;
            acc = if next >= cap { cap } else { next };
        }
        i = i + 1;
    }
    proof {
        assert(s@.take(n as int) =~= s@);
    }
    if acc >= cap {
        None
    } else {
        Some(acc as u32)
    }
}

/// What follows the last `sep` of `s`; the whole of `s` where it has none.
pub open spec fn after_last(s: Seq<char>, sep: char) -> Seq<char>
    decreases s.len(),
{
    if s.len() == 0 {
        s
    } else if s.last() == sep {
        Seq::empty()
    } else {
        after_last(s.drop_last(), sep).push(s.last())
    }
}

proof fn lemma_after_last(s: Seq<char>, sep: char, k: int)
    requires
        0 <= k <= s.len(),
        forall|j: int| k <= j < s.len() ==> s[j] != sep,
        k == 0 || s[k - 1] == sep,
    ensures
        after_last(s, sep) == s.skip(k),
    decreases s.len(),
{
    if s.len() > k {
        lemma_after_last(s.drop_last(), sep, k);
        assert(s.drop_last().skip(k).push(s.last()) =~= s.skip(k));
    } else if k > 0 {
        assert(s.skip(k) =~= Seq::<char>::empty());
    } else {
        assert(s.skip(k) =~= s);
    }
}

/// The last of the pieces that `sep` cuts `s` into.
pub fn last_segment(s: &str, sep: char) -> (r: &str)
    ensures
        r@ == after_last(s@, sep),
{
    let n = s.unicode_len();
    let mut k: usize = n;
    while k > 0 && s.get_char(k - 1) != sep
        invariant
            n == s@.len(),
            0 <= k <= n,
            forall|j: int| k <= j < n ==> s@[j] != sep,
        decreases k,
    {
        k = k - 1;
    }
    proof {
        lemma_after_last(s@, sep, k as int);
    }
    s.substring_char(k, n)
}

} // verus!

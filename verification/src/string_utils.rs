//! Character and string helpers shared by the naming model: snake-case
//! folding for captions, decimal rendering for unique-name probes, joining
//! and splitting of `::`-separated path text.

use vstd::prelude::*;

verus! {

/// Appends one character to the end of a string.
///
/// Relies on `String::push`, whose documentation says it appends the given
/// `char` to the end of this `String`.
#[verifier::external_body]
pub(crate) fn push_char(s: &mut String, c: char)
    ensures
        final(s)@ == old(s)@ + seq![c],
{
    s.push(c);
}

pub open spec fn is_ascii_digit_char(c: char) -> bool {
    '0' <= c && c <= '9'
}

pub open spec fn is_ascii_upper_char(c: char) -> bool {
    'A' <= c && c <= 'Z'
}

/// An ASCII upper-case letter folded to lower case; any other character is
/// left as it is.
pub open spec fn lower_char(c: char) -> char {
    if is_ascii_upper_char(c) {
        ((c as int) + 32) as char
    } else {
        c
    }
}

pub fn to_lower_char(c: char) -> (r: char)
    ensures
        r == lower_char(c),
{
    match c {
        'A' => 'a',
        'B' => 'b',
        'C' => 'c',
        'D' => 'd',
        'E' => 'e',
        'F' => 'f',
        'G' => 'g',
        'H' => 'h',
        'I' => 'i',
        'J' => 'j',
        'K' => 'k',
        'L' => 'l',
        'M' => 'm',
        'N' => 'n',
        'O' => 'o',
        'P' => 'p',
        'Q' => 'q',
        'R' => 'r',
        'S' => 's',
        'T' => 't',
        'U' => 'u',
        'V' => 'v',
        'W' => 'w',
        'X' => 'x',
        'Y' => 'y',
        'Z' => 'z',
        _ => c,
    }
}

/// True when the string is non-empty and its last character is an ASCII
/// digit. Used to decide whether a separator is needed before a numeric
/// suffix, so that the suffix is not read as part of an existing run of
/// digits.
pub fn ends_with_digit(s: &str) -> (r: bool)
    ensures
        r == (s@.len() > 0 && is_ascii_digit_char(s@.last())),
{
    let n = s.unicode_len();
    if n == 0 {
        false
    } else {
        let c = s.get_char(n - 1);
        c >= '0' && c <= '9'
    }
}

/// The snake-case folding of the first `n` characters: every ASCII
/// upper-case letter is lowered, and preceded by an underscore unless it
/// stands first.
pub open spec fn snake_of_prefix(s: Seq<char>, n: int) -> Seq<char>
    decreases n,
{
    if n <= 0 {
        Seq::empty()
    } else {
        snake_of_prefix(s, n - 1) + (if is_ascii_upper_char(s[n - 1]) && n > 1 {
            seq!['_', lower_char(s[n - 1])]
        } else {
            seq![lower_char(s[n - 1])]
        })
    }
}

/// The snake-case folding of a whole character sequence.
pub open spec fn snake_of(s: Seq<char>) -> Seq<char> {
    snake_of_prefix(s, s.len() as int)
}

pub fn to_snake_case(s: &str) -> (r: String)
    ensures
        r@ == snake_of(s@),
{
    let n = s.unicode_len();
    let mut out = String::new();
    let mut i: usize = 0;
    while i < n
        invariant
            i <= n,
            n == s@.len(),
            out@ == snake_of_prefix(s@, i as int),
        decreases n - i,
    {
        let c = s.get_char(i);
        if i > 0 && c >= 'A' && c <= 'Z' {
            push_char(&mut out, '_');
        }
        push_char(&mut out, to_lower_char(c));
        i = i + 1;
        proof {
            assert(out@ =~= snake_of_prefix(s@, i as int));
        }
    }
    out
}

/// The character standing for one decimal digit.
pub open spec fn digit_char(d: int) -> char {
    if d == 0 {
        '0'
    } else if d == 1 {
        '1'
    } else if d == 2 {
        '2'
    } else if d == 3 {
        '3'
    } else if d == 4 {
        '4'
    } else if d == 5 {
        '5'
    } else if d == 6 {
        '6'
    } else if d == 7 {
        '7'
    } else if d == 8 {
        '8'
    } else {
        '9'
    }
}

/// The usual decimal rendering of a non-negative integer, most significant
/// digit first, without leading zeros.
pub open spec fn dec_digits(n: int) -> Seq<char>
    decreases n,
{
    if n < 10 {
        seq![digit_char(n)]
    } else {
        dec_digits(n / 10) + seq![digit_char(n % 10)]
    }
}

fn digit_str(d: u64) -> (r: &'static str)
    requires
        d < 10,
    ensures
        r@ =~= seq![digit_char(d as int)],
{
    proof {
        reveal_strlit("0");
        reveal_strlit("1");
        reveal_strlit("2");
        reveal_strlit("3");
        reveal_strlit("4");
        reveal_strlit("5");
        reveal_strlit("6");
        reveal_strlit("7");
        reveal_strlit("8");
        reveal_strlit("9");
    }
    match d {
        0 => "0",
        1 => "1",
        2 => "2",
        3 => "3",
        4 => "4",
        5 => "5",
        6 => "6",
        7 => "7",
        8 => "8",
        _ => "9",
    }
}

pub fn u64_to_dec_string(n: u64) -> (r: String)
    ensures
        r@ == dec_digits(n as int),
    decreases n,
{
    if n < 10 {
        String::from_str(digit_str(n))
    } else {
        let mut s = u64_to_dec_string(n / 10);
        s.append(digit_str(n % 10));
        proof {
            assert(s@ =~= dec_digits(n as int));
        }
        s
    }
}

pub proof fn lemma_dec_digits_len(n: int)
    requires
        n >= 0,
    ensures
        dec_digits(n).len() >= 1,
        n >= 10 ==> dec_digits(n).len() >= 2,
    decreases n,
{
    if n >= 10 {
        lemma_dec_digits_len(n / 10);
    }
}

/// Distinct non-negative integers render to distinct decimal digit strings.
pub proof fn lemma_dec_digits_injective(a: int, b: int)
    requires
        a >= 0,
        b >= 0,
        dec_digits(a) == dec_digits(b),
    ensures
        a == b,
    decreases a,
{
    lemma_dec_digits_len(a);
    lemma_dec_digits_len(b);
    if a < 10 && b < 10 {
        assert(dec_digits(a)[0] == digit_char(a));
        assert(dec_digits(b)[0] == digit_char(b));
    } else if a < 10 {
        assert(dec_digits(b).len() >= 2);
    } else if b < 10 {
        assert(dec_digits(a).len() >= 2);
    } else {
        let pa = dec_digits(a / 10);
        let pb = dec_digits(b / 10);
        assert(dec_digits(a).last() == digit_char(a % 10));
        assert(dec_digits(b).last() == digit_char(b % 10));
        assert(a % 10 == b % 10);
        assert(pa =~= dec_digits(a).drop_last());
        assert(pb =~= dec_digits(b).drop_last());
        lemma_dec_digits_injective(a / 10, b / 10);
    }
}

/// Sequences that share a prefix and are equal as wholes have equal
/// remainders.
pub proof fn lemma_concat_cancel_left(p: Seq<char>, a: Seq<char>, b: Seq<char>)
    requires
        p + a == p + b,
    ensures
        a == b,
{
    assert(a =~= (p + a).subrange(p.len() as int, (p + a).len() as int));
    assert(b =~= (p + b).subrange(p.len() as int, (p + b).len() as int));
}

/// The parts joined with a separator between neighbours; a single part
/// stands alone, no parts give the empty text.
pub open spec fn join_with(parts: Seq<Seq<char>>, sep: Seq<char>) -> Seq<char>
    decreases parts.len(),
{
    if parts.len() == 0 {
        Seq::empty()
    } else if parts.len() == 1 {
        parts[0]
    } else {
        join_with(parts.drop_last(), sep) + sep + parts.last()
    }
}

/// Joins the parts from position `from` onward with the separator.
pub fn join_parts(parts: &Vec<String>, from: usize, sep: &str) -> (r: String)
    requires
        from <= parts@.len(),
    ensures
        r@ == join_with(parts.deep_view().skip(from as int), sep@),
{
    let ghost dv = parts.deep_view().skip(from as int);
    let mut out = String::new();
    let mut i: usize = from;
    while i < parts.len()
        invariant
            from <= i <= parts@.len(),
            dv == parts.deep_view().skip(from as int),
            out@ == join_with(dv.take(i - from), sep@),
        decreases parts@.len() - i,
    {
        if i > from {
            out.append(sep);
        }
        out.append(parts[i].as_str());
        i = i + 1;
        proof {
            let m = i - from;
            assert(dv.take(m).drop_last() =~= dv.take(m - 1));
            assert(dv.take(m).last() == parts@[i - 1]@);
            assert(out@ =~= join_with(dv.take(m), sep@));
        }
    }
    proof {
        assert(dv.take(parts@.len() - from) =~= dv);
    }
    out
}

/// Character-for-character comparison of two string slices.
pub fn str_eq(a: &str, b: &str) -> (r: bool)
    ensures
        r == (a@ == b@),
{
    let n = a.unicode_len();
    let m = b.unicode_len();
    if n != m {
        return false;
    }
    let mut i: usize = 0;
    while i < n
        invariant
            i <= n,
            n == a@.len(),
            n == b@.len(),
            forall|j: int| 0 <= j < i ==> a@[j] == b@[j],
        decreases n - i,
    {
        if a.get_char(i) != b.get_char(i) {
            return false;
        }
        i = i + 1;
    }
    proof {
        assert(a@ =~= b@);
    }
    true
}

pub open spec fn opt_string_view(o: Option<String>) -> Option<Seq<char>> {
    match o {
        Option::Some(s) => Option::Some(s@),
        Option::None => Option::None,
    }
}

pub fn eq_opt_string(a: &Option<String>, b: &Option<String>) -> (r: bool)
    ensures
        r == (opt_string_view(*a) == opt_string_view(*b)),
{
    match (a, b) {
        (Option::Some(x), Option::Some(y)) => str_eq(x.as_str(), y.as_str()),
        (Option::None, Option::None) => true,
        _ => false,
    }
}

/// Element-for-element comparison of two vectors of strings.
pub fn eq_string_vec(a: &Vec<String>, b: &Vec<String>) -> (r: bool)
    ensures
        r == (a.deep_view() == b.deep_view()),
{
    if a.len() != b.len() {
        proof {
            assert(a.deep_view().len() != b.deep_view().len());
        }
        return false;
    }
    let n = a.len();
    let mut i: usize = 0;
    while i < n
        invariant
            i <= n,
            n == a@.len(),
            n == b@.len(),
            forall|j: int| 0 <= j < i ==> a@[j]@ == b@[j]@,
        decreases n - i,
    {
        if !str_eq(a[i].as_str(), b[i].as_str()) {
            proof {
                assert(a.deep_view()[i as int] != b.deep_view()[i as int]);
            }
            return false;
        }
        i = i + 1;
    }
    proof {
        assert(a.deep_view() =~= b.deep_view());
    }
    true
}

/// An element-for-element copy of a vector of strings.
pub(crate) fn clone_string_vec(v: &Vec<String>) -> (r: Vec<String>)
    ensures
        r@.len() == v@.len(),
        forall|i: int| 0 <= i < v@.len() ==> r@[i] == v@[i],
        r.deep_view() == v.deep_view(),
{
    let mut out: Vec<String> = Vec::new();
    let mut i: usize = 0;
    while i < v.len()
        invariant
            i <= v@.len(),
            out@.len() == i,
            forall|j: int| 0 <= j < i ==> out@[j] == v@[j],
        decreases v@.len() - i,
    {
        out.push(v[i].clone());
        i = i + 1;
    }
    proof {
        assert(out.deep_view() =~= v.deep_view());
    }
    out
}

/// One scanning step of splitting on `::`: the text from position `i`
/// onward, with `cur` the segment collected so far and `acc` the segments
/// already finished.
pub open spec fn split_scan(s: Seq<char>, i: int, cur: Seq<char>, acc: Seq<Seq<char>>) -> Seq<
    Seq<char>,
>
    decreases s.len() - i,
{
    if i >= s.len() || i < 0 {
        acc.push(cur)
    } else if s[i] == ':' && i + 1 < s.len() && s[i + 1] == ':' {
        split_scan(s, i + 2, Seq::empty(), acc.push(cur))
    } else {
        split_scan(s, i + 1, cur.push(s[i]), acc)
    }
}

/// The segments of a text split on every (leftmost-first) occurrence of
/// `::`. The result always holds at least one segment; segments may be
/// empty where separators touch.
pub open spec fn split_path(s: Seq<char>) -> Seq<Seq<char>> {
    split_scan(s, 0, Seq::empty(), Seq::empty())
}

pub proof fn lemma_split_scan_len(s: Seq<char>, i: int, cur: Seq<char>, acc: Seq<Seq<char>>)
    ensures
        split_scan(s, i, cur, acc).len() > acc.len(),
    decreases s.len() - i,
{
    if i >= s.len() || i < 0 {
    } else if s[i] == ':' && i + 1 < s.len() && s[i + 1] == ':' {
        lemma_split_scan_len(s, i + 2, Seq::empty(), acc.push(cur));
    } else {
        lemma_split_scan_len(s, i + 1, cur.push(s[i]), acc);
    }
}

pub fn split_double_colon(s: &str) -> (r: Vec<String>)
    ensures
        r.deep_view() == split_path(s@),
        r@.len() >= 1,
{
    let n = s.unicode_len();
    let mut out: Vec<String> = Vec::new();
    let mut cur = String::new();
    let mut i: usize = 0;
    proof {
        assert(out.deep_view() =~= Seq::<Seq<char>>::empty());
    }
    while i < n
        invariant
            i <= n,
            n == s@.len(),
            split_path(s@) == split_scan(s@, i as int, cur@, out.deep_view()),
        decreases n - i,
    {
        let ghost old_i = i as int;
        let ghost old_cur = cur@;
        let ghost old_out = out.deep_view();
        let c = s.get_char(i);
        if c == ':' && i + 1 < n && s.get_char(i + 1) == ':' {
            out.push(cur);
            cur = String::new();
            i = i + 2;
            proof {
                assert(out.deep_view() =~= old_out.push(old_cur));
                assert(split_scan(s@, old_i, old_cur, old_out) == split_scan(
                    s@,
                    i as int,
                    cur@,
                    out.deep_view(),
                ));
            }
        } else {
            push_char(&mut cur, c);
            i = i + 1;
            proof {
                assert(cur@ =~= old_cur.push(s@[old_i]));
                assert(split_scan(s@, old_i, old_cur, old_out) == split_scan(
                    s@,
                    i as int,
                    cur@,
                    out.deep_view(),
                ));
            }
        }
    }
    let ghost old_out = out.deep_view();
    out.push(cur);
    proof {
        assert(out.deep_view() =~= old_out.push(out@.last()@));
        lemma_split_scan_len(s@, 0, Seq::empty(), Seq::empty());
    }
    out
}

} // verus!

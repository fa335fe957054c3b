//! Small text operations used to prepare command-line arguments: removing
//! surrounding quotes, trimming whitespace, and writing a number in decimal.
use vstd::prelude::*;

verus! {

/// `s` without its leading run of `c`.
pub open spec fn drop_leading(s: Seq<char>, c: char) -> Seq<char>
    decreases s.len(),
{
    if s.len() > 0 && s[0] == c {
        drop_leading(s.drop_first(), c)
    } else {
        s
    }
}

/// `s` without its trailing run of `c`.
pub open spec fn drop_trailing(s: Seq<char>, c: char) -> Seq<char>
    decreases s.len(),
{
    if s.len() > 0 && s.last() == c {
        drop_trailing(s.drop_last(), c)
    } else {
        s
    }
}

/// A value that starts and ends with a double quote loses every double quote
/// at either end; any other value is kept.
pub open spec fn unquoted(s: Seq<char>) -> Seq<char> {
    if s.len() > 0 && s[0] == '"' && s.last() == '"' {
        drop_trailing(drop_leading(s, '"'), '"')
    } else {
        s
    }
}

/// The characters with the Unicode `White_Space` property.
pub open spec fn is_white_space(c: char) -> bool {
    let u = c as u32;
    (0x09 <= u <= 0x0D) || u == 0x20 || u == 0x85 || u == 0xA0 || u == 0x1680 || (0x2000 <= u
        <= 0x200A) || u == 0x2028 || u == 0x2029 || u == 0x202F || u == 0x205F || u == 0x3000
}

pub open spec fn drop_leading_space(s: Seq<char>) -> Seq<char>
    decreases s.len(),
{
    if s.len() > 0 && is_white_space(s[0]) {
        drop_leading_space(s.drop_first())
    } else {
        s
    }
}

pub open spec fn drop_trailing_space(s: Seq<char>) -> Seq<char>
    decreases s.len(),
{
    if s.len() > 0 && is_white_space(s.last()) {
        drop_trailing_space(s.drop_last())
    } else {
        s
    }
}

/// `s` without leading and trailing whitespace.
pub open spec fn trimmed(s: Seq<char>) -> Seq<char> {
    drop_trailing_space(drop_leading_space(s))
}

pub open spec fn digit_char(d: nat) -> char {
    if d == 0 {
        '0'
    } else if d == 1 {
        '1'
    } else if d == 2 {
        '2'
    } else if d == 3 {
        '3'
    } else if d == 4 {
        '4'
    } else if d == 5 {
        '5'
    } else if d == 6 {
        '6'
    } else if d == 7 {
        '7'
    } else if d == 8 {
        '8'
    } else {
        '9'
    }
}

/// The decimal digits of `n`, most significant first, without sign or padding.
pub open spec fn decimal(n: nat) -> Seq<char>
    decreases n,
{
    if n < 10 {
        seq![digit_char(n)]
    } else {
        decimal(n / 10) + seq![digit_char(n % 10)]
    }
}

fn white_space(c: char) -> (r: bool)
    ensures
        r == is_white_space(c),
{
    let u = c as u32;
    (0x09 <= u && u <= 0x0D) || u == 0x20 || u == 0x85 || u == 0xA0 || u == 0x1680 || (0x2000 <= u
        && u <= 0x200A) || u == 0x2028 || u == 0x2029 || u == 0x202F || u == 0x205F || u == 0x3000
}

/// Removes surrounding double quotes from a value written as JSON text.
pub fn unquote(s: &String) -> (r: String)
    ensures
        r@ == unquoted(s@),
{
    let t = s.as_str();
    let n = t.unicode_len();
    if n == 0 || t.get_char(0) != '"' || t.get_char(n - 1) != '"' {
        return s.clone();
    }
    let mut i: usize = 0;
    assert(t@.subrange(0, n as int) =~= t@);
    while i < n && t.get_char(i) == '"'
        invariant
            0 <= i <= n,
            n == t@.len(),
            drop_leading(t@, '"') == drop_leading(t@.subrange(i as int, n as int), '"'),
        decreases n - i,
    {
        assert(t@.subrange(i as int + 1, n as int) =~= t@.subrange(i as int, n as int).drop_first());
        i += 1;
    }
    let mut j: usize = n;
    while j > i && t.get_char(j - 1) == '"'
        invariant
            i <= j <= n,
            n == t@.len(),
            drop_trailing(t@.subrange(i as int, n as int), '"') == drop_trailing(
                t@.subrange(i as int, j as int),
                '"',
            ),
        decreases j,
    {
        assert(t@.subrange(i as int, j as int - 1) =~= t@.subrange(i as int, j as int).drop_last());
        j -= 1;
    }
    String::from_str(t.substring_char(i, j))
}

/// Removes leading and trailing whitespace.
pub fn trim_whitespace(s: &String) -> (r: String)
    ensures
        r@ == trimmed(s@),
{
    let t = s.as_str();
    let n = t.unicode_len();
    let mut i: usize = 0;
    assert(t@.subrange(0, n as int) =~= t@);
    while i < n && white_space(t.get_char(i))
        invariant
            0 <= i <= n,
            n == t@.len(),
            drop_leading_space(t@) == drop_leading_space(t@.subrange(i as int, n as int)),
        decreases n - i,
    {
        assert(t@.subrange(i as int + 1, n as int) =~= t@.subrange(i as int, n as int).drop_first());
        i += 1;
    }
    assert(drop_leading_space(t@) == t@.subrange(i as int, n as int));
    let mut j: usize = n;
    while j > i && white_space(t.get_char(j - 1))
        invariant
            i <= j <= n,
            n == t@.len(),
            drop_trailing_space(t@.subrange(i as int, n as int)) == drop_trailing_space(
                t@.subrange(i as int, j as int),
            ),
        decreases j,
    {
        assert(t@.subrange(i as int, j as int - 1) =~= t@.subrange(i as int, j as int).drop_last());
        j -= 1;
    }
    String::from_str(t.substring_char(i, j))
}

fn digit_text(d: usize) -> (r: String)
    requires
        d < 10,
    ensures
        r@ == seq![digit_char(d as nat)],
{
    proof {
        reveal_strlit("0");
        reveal_strlit("1");
        reveal_strlit("2");
        reveal_strlit("3");
        reveal_strlit("4");
        reveal_strlit("5");
        reveal_strlit("6");
        reveal_strlit("7");
        reveal_strlit("8");
        reveal_strlit("9");
    }
    let r = if d == 0 {
        String::from_str("0")
    } else if d == 1 {
        String::from_str("1")
    } else if d == 2 {
        String::from_str("2")
    } else if d == 3 {
        String::from_str("3")
    } else if d == 4 {
        String::from_str("4")
    } else if d == 5 {
        String::from_str("5")
    } else if d == 6 {
        String::from_str("6")
    } else if d == 7 {
        String::from_str("7")
    } else if d == 8 {
        String::from_str("8")
    } else {
        String::from_str("9")
    };
    assert(r@ =~= seq![digit_char(d as nat)]);
    r
}

/// `n` written in decimal, most significant digit first, with no sign or
/// padding.
pub fn decimal_text(n: usize) -> (r: String)
    ensures
        r@ == decimal(n as nat),
    decreases n,
{
    if n < 10 {
        digit_text(n)
    } else {
        let mut r = decimal_text(n / 10);
        let last = digit_text(n % 10);
        r.append(last.as_str());
        r
    }
}

} // verus!

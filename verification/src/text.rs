//! Text helpers over `char` sequences: substring search and decimal rendering.

use vstd::prelude::*;
use vstd::string::*;

verus! {

/// `pat` occurs in `s` as a contiguous run of characters.
pub open spec fn has_substring(s: Seq<char>, pat: Seq<char>) -> bool {
    exists|i: int| 0 <= i && i + pat.len() <= s.len() && #[trigger] s.subrange(i, i + pat.len()) == pat
}

/// The characters of `s`, one per element.
pub fn chars_of(s: &str) -> (r: Vec<char>)
    ensures
        r@ == s@,
{
    let n = s.unicode_len();
    let mut r: Vec<char> = Vec::new();
    let mut i: usize = 0;
    while i < n
        invariant
            n == s@.len(),
            i <= n,
            r@ == s@.subrange(0, i as int),
        decreases n - i,
    {
        let c = s.get_char(i);
        r.push(c);
        i = i + 1;
        assert(r@ =~= s@.subrange(0, i as int));
    }
    assert(r@ =~= s@);
    r
}

/// Whether `pat` occurs at position `at` of `hay`.
fn matches_at(hay: &Vec<char>, pat: &Vec<char>, at: usize) -> (r: bool)
    requires
        at + pat@.len() <= hay@.len(),
    ensures
        r == (hay@.subrange(at as int, at + pat@.len()) == pat@),
{
    let m = pat.len();
    let mut j: usize = 0;
    while j < m
        invariant
            m == pat@.len(),
            at + m <= hay@.len(),
            j <= m,
            forall|k: int| 0 <= k < j ==> hay@[at + k] == pat@[k],
        decreases m - j,
    {
        assert(hay@.len() == hay.len());
        if hay[at + j] != pat[j] {
            assert(hay@.subrange(at as int, at + m)[j as int] != pat@[j as int]);
            return false;
        }
        j = j + 1;
    }
    assert(hay@.subrange(at as int, at + m) =~= pat@);
    true
}

/// Substring search, as `str::contains` with a `&str` pattern.
pub fn contains_str(hay: &str, pat: &str) -> (r: bool)
    ensures
        r == has_substring(hay@, pat@),
{
    let h = chars_of(hay);
    let p = chars_of(pat);
    let n = h.len();
    let m = p.len();
    if m > n {
        return false;
    }
    let last = n - m;
    let mut i: usize = 0;
    loop
        invariant
            n == hay@.len(),
            m == pat@.len(),
            m <= n,
            last == n - m,
            h@ == hay@,
            p@ == pat@,
            i <= last,
            forall|k: int| 0 <= k < i ==> #[trigger] hay@.subrange(k, k + m) != pat@,
        decreases last - i,
    {
        if matches_at(&h, &p, i) {
            return true;
        }
        if i == last {
            return false;
        }
        i = i + 1;
    }
}

/// The decimal digit for `d` (which is below ten).
pub open spec fn digit_char(d: nat) -> char {
    if d == 0 { '0' }
    else if d == 1 { '1' }
    else if d == 2 { '2' }
    else if d == 3 { '3' }
    else if d == 4 { '4' }
    else if d == 5 { '5' }
    else if d == 6 { '6' }
    else if d == 7 { '7' }
    else if d == 8 { '8' }
    else { '9' }
}

/// The decimal notation of `n`, without sign or leading zeros.
pub open spec fn decimal(n: nat) -> Seq<char>
    decreases n,
{
    if n < 10 {
        seq![digit_char(n)]
    } else {
        decimal(n / 10).push(digit_char(n % 10))
    }
}

fn digit_str(d: u64) -> (r: &'static str)
    requires
        d < 10,
    ensures
        r@ == seq![digit_char(d as nat)],
{
    proof {
        reveal_strlit("0");
        reveal_strlit("1");
        reveal_strlit("2");
        reveal_strlit("3");
        reveal_strlit("4");
        reveal_strlit("5");
        reveal_strlit("6");
        reveal_strlit("7");
        reveal_strlit("8");
        reveal_strlit("9");
    }
    if d == 0 { "0" }
    else if d == 1 { "1" }
    else if d == 2 { "2" }
    else if d == 3 { "3" }
    else if d == 4 { "4" }
    else if d == 5 { "5" }
    else if d == 6 { "6" }
    else if d == 7 { "7" }
    else if d == 8 { "8" }
    else { "9" }
}

/// Decimal rendering of an unsigned integer, as `format!("{}", n)`.
pub fn u64_to_decimal(n: u64) -> (r: String)
    ensures
        r@ == decimal(n as nat),
    decreases n,
{
    if n < 10 {
        String::from_str(digit_str(n))
    } else {
        let mut s = u64_to_decimal(n / 10);
        s.append(digit_str(n % 10));
        s
    }
}

/// The ASCII lowercase of a character: 'A' to 'Z' become 'a' to 'z', any
/// other character stays.
pub open spec fn ascii_lower_char(c: char) -> char {
    if 'A' <= c && c <= 'Z' { ((c as u32) + 32) as char } else { c }
}

/// The ASCII uppercase of a character: 'a' to 'z' become 'A' to 'Z', any
/// other character stays.
pub open spec fn ascii_upper_char(c: char) -> char {
    if 'a' <= c && c <= 'z' { ((c as u32) - 32) as char } else { c }
}

/// `str::to_ascii_lowercase` of a character sequence.
pub open spec fn ascii_lowercase(s: Seq<char>) -> Seq<char> {
    s.map_values(|c: char| ascii_lower_char(c))
}

/// `str::to_ascii_uppercase` of a character sequence.
pub open spec fn ascii_uppercase(s: Seq<char>) -> Seq<char> {
    s.map_values(|c: char| ascii_upper_char(c))
}

/// Changing the ASCII case keeps text ASCII, and lowercasing forgets which
/// case the text was in.
pub proof fn lemma_ascii_case(s: Seq<char>)
    requires
        vstd::utf8::is_ascii_chars(s),
    ensures
        vstd::utf8::is_ascii_chars(ascii_uppercase(s)),
        vstd::utf8::is_ascii_chars(ascii_lowercase(s)),
        ascii_lowercase(ascii_uppercase(s)) == ascii_lowercase(s),
        ascii_lowercase(ascii_lowercase(s)) == ascii_lowercase(s),
{
    assert forall|i: int| 0 <= i < s.len() implies ascii_lower_char(ascii_upper_char(s[i]))
        == ascii_lower_char(s[i]) && ascii_lower_char(ascii_lower_char(s[i])) == ascii_lower_char(s[i])
        && '\0' <= #[trigger] ascii_upper_char(s[i]) <= '\u{7f}' && '\0' <= ascii_lower_char(s[i])
        <= '\u{7f}' by {
        assert('\0' <= s[i] <= '\u{7f}');
    }
    assert(ascii_lowercase(ascii_uppercase(s)) =~= ascii_lowercase(s));
    assert(ascii_lowercase(ascii_lowercase(s)) =~= ascii_lowercase(s));
    assert forall|i: int| 0 <= i < ascii_uppercase(s).len() implies '\0' <= #[trigger] ascii_uppercase(s)[i] <= '\u{7f}' by {
        assert(ascii_uppercase(s)[i] == ascii_upper_char(s[i]));
    }
    assert forall|i: int| 0 <= i < ascii_lowercase(s).len() implies '\0' <= #[trigger] ascii_lowercase(s)[i] <= '\u{7f}' by {
        assert(ascii_lowercase(s)[i] == ascii_lower_char(s[i]));
    }
}

} // verus!

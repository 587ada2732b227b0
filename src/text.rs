//! Plain-text helpers: appending to strings, line splitting, digits and
//! whitespace, all stated over `Seq<char>`.
use vstd::prelude::*;
use vstd::string::*;

verus! {

/// Relies on `String::push`: appends one character at the end.
#[verifier::external_body]
pub(crate) fn push_char(s: &mut String, c: char)
    ensures
        final(s)@ == old(s)@.push(c),
{
    s.push(c)
}

/// Appends every character of `t` to `s`.
pub fn push_all(s: &mut String, t: &str)
    ensures
        final(s)@ == old(s)@ + t@,
{
    s.append(t);
}

/// `a` followed by `b`, as a new string.
pub fn concat(a: &str, b: &str) -> (r: String)
    ensures
        r@ == a@ + b@,
{
    String::from_str(a).concat(b)
}

pub open spec fn is_digit(c: char) -> bool {
    '0' <= c && c <= '9'
}

pub open spec fn all_digits(s: Seq<char>) -> bool {
    forall|i: int| 0 <= i < s.len() ==> is_digit(#[trigger] s[i])
}

/// Number of leading ASCII digits of `s`.
pub open spec fn digit_run(s: Seq<char>) -> nat
    decreases s.len(),
{
    if s.len() == 0 || !is_digit(s[0]) {
        0
    } else {
        1 + digit_run(s.drop_first())
    }
}

/// Unicode `White_Space` characters.
pub open spec fn is_space(c: char) -> bool {
    ('\u{9}' <= c && c <= '\u{d}') || c == ' ' || c == '\u{85}' || c == '\u{a0}'
        || c == '\u{1680}' || ('\u{2000}' <= c && c <= '\u{200a}') || c == '\u{2028}'
        || c == '\u{2029}' || c == '\u{202f}' || c == '\u{205f}' || c == '\u{3000}'
}

pub open spec fn all_spaces(s: Seq<char>) -> bool {
    forall|i: int| 0 <= i < s.len() ==> is_space(#[trigger] s[i])
}

pub fn char_is_digit(c: char) -> (r: bool)
    ensures
        r == is_digit(c),
{
    '0' <= c && c <= '9'
}

pub fn char_is_space(c: char) -> (r: bool)
    ensures
        r == is_space(c),
{
    ('\u{9}' <= c && c <= '\u{d}') || c == ' ' || c == '\u{85}' || c == '\u{a0}'
        || c == '\u{1680}' || ('\u{2000}' <= c && c <= '\u{200a}') || c == '\u{2028}'
        || c == '\u{2029}' || c == '\u{202f}' || c == '\u{205f}' || c == '\u{3000}'
}

/// Decimal digits of `n`, most significant first, without leading zeros.
pub open spec fn dec(n: nat) -> Seq<char>
    decreases n,
{
    if n < 10 {
        seq![digit_char(n)]
    } else {
        dec(n / 10).push(digit_char(n % 10))
    }
}

pub open spec fn digit_char(d: nat) -> char {
    ((d + 48) as u8) as char
}

/// The decimal text of `n`.
pub fn decimal(n: u8) -> (r: String)
    ensures
        r@ == dec(n as nat),
{
    let mut r = String::new();
    proof {
        reveal_with_fuel(dec, 3);
    }
    if n >= 100 {
        push_char(&mut r, ((n / 100 + 48) as u8) as char);
    }
    if n >= 10 {
        push_char(&mut r, (((n / 10) % 10 + 48) as u8) as char);
    }
    push_char(&mut r, ((n % 10 + 48) as u8) as char);
    proof {
        if n >= 100 {
            assert((n / 10) as nat / 10 == n as nat / 100);
            assert(((n / 10) as nat) % 10 == (n as nat / 10) % 10);
        }
        assert(r@ =~= dec(n as nat));
    }
    r
}

/// The length of the first line of `t`: the characters before the first `'\n'`.
pub open spec fn line_len(t: Seq<char>) -> nat
    decreases t.len(),
{
    if t.len() == 0 || t[0] == '\n' {
        0
    } else {
        1 + line_len(t.drop_first())
    }
}

/// A line that ended in `'\n'` loses one trailing `'\r'`.
pub open spec fn strip_cr(l: Seq<char>) -> Seq<char> {
    if l.len() > 0 && l.last() == '\r' {
        l.drop_last()
    } else {
        l
    }
}

/// The lines of `t`: split at `'\n'`, a `"\r\n"` ending counting as one line
/// end, and no empty line after a final line end.
pub open spec fn lines_of(t: Seq<char>) -> Seq<Seq<char>>
    decreases t.len(),
{
    if t.len() == 0 {
        seq![]
    } else if line_len(t) >= t.len() {
        seq![t]
    } else {
        seq![strip_cr(t.take(line_len(t) as int))] + lines_of(t.skip(line_len(t) + 1 as int))
    }
}

/// A run of `k` characters free of `'\n'` followed by a `'\n'` has length `k`.
pub proof fn lemma_line_len_at(t: Seq<char>, k: int)
    requires
        0 <= k <= t.len(),
        forall|i: int| 0 <= i < k ==> t[i] != '\n',
        k == t.len() || t[k] == '\n',
    ensures
        line_len(t) == k,
    decreases k,
{
    if k > 0 {
        lemma_line_len_at(t.drop_first(), k - 1);
    }
}

pub open spec fn views(v: Seq<String>) -> Seq<Seq<char>> {
    v.map_values(|s: String| s@)
}

/// The characters of `t` from index `from` up to `to`.
pub fn slice_of(t: &str, from: usize, to: usize) -> (r: String)
    requires
        from <= to <= t@.len(),
    ensures
        r@ == t@.subrange(from as int, to as int),
{
    String::from_str(t.substring_char(from, to))
}

/// The lines of `t` (see `lines_of`).
pub fn split_lines(t: &str) -> (r: Vec<String>)
    ensures
        views(r@) == lines_of(t@),
{
    let n = t.unicode_len();
    let mut out: Vec<String> = Vec::new();
    let mut start: usize = 0;
    let mut i: usize = 0;
    proof {
        assert(t@.skip(0) =~= t@);
        assert(views(out@) =~= Seq::<Seq<char>>::empty());
        assert(lines_of(t@) =~= views(out@) + lines_of(t@.skip(0)));
    }
    while i < n
        invariant
            n == t@.len(),
            start <= i <= n,
            lines_of(t@) == views(out@) + lines_of(t@.skip(start as int)),
            forall|k: int| start <= k < i ==> t@[k] != '\n',
        decreases n - i,
    {
        let c = t.get_char(i);
        if c == '\n' {
            let ghost u = t@.skip(start as int);
            let ghost k = i - start;
            let end: usize = if i > start && t.get_char(i - 1) == '\r' {
                i - 1
            } else {
                i
            };
            let line = slice_of(t, start, end);
            proof {
                lemma_line_len_at(u, k as int);
                assert(u.take(k as int) =~= t@.subrange(start as int, i as int));
                assert(u.skip(k + 1) =~= t@.skip(i + 1));
                assert(line@ =~= strip_cr(u.take(k as int)));
                assert(views(out@.push(line)) =~= views(out@).push(line@));
                assert(lines_of(u) == seq![line@] + lines_of(t@.skip(i + 1)));
            }
            out.push(line);
            proof {
                assert(lines_of(t@) =~= views(out@) + lines_of(t@.skip(i + 1)));
            }
            start = i + 1;
        }
        i = i + 1;
    }
    if start < n {
        let line = slice_of(t, start, n);
        proof {
            let u = t@.skip(start as int);
            lemma_line_len_at(u, u.len() as int);
            assert(u =~= line@);
            assert(views(out@.push(line)) =~= views(out@).push(line@));
        }
        out.push(line);
        proof {
            assert(lines_of(t@) =~= views(out@));
        }
    } else {
        proof {
            assert(t@.skip(start as int).len() == 0);
            assert(lines_of(t@) =~= views(out@));
        }
    }
    out
}

} // verus!

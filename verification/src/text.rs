//! Character-level helpers on strings, each stated over `Seq<char>`.
//!
//! The classification predicates follow the Unicode definitions that the
//! standard library uses for `char::is_whitespace` (the `White_Space`
//! property) and `char::is_control` (general category `Cc`).

use vstd::prelude::*;

verus! {

/// Unicode `White_Space`.
pub open spec fn is_white_space(c: char) -> bool {
    ||| ('\u{9}' <= c && c <= '\u{d}')
    ||| c == ' '
    ||| c == '\u{85}'
    ||| c == '\u{a0}'
    ||| c == '\u{1680}'
    ||| ('\u{2000}' <= c && c <= '\u{200a}')
    ||| c == '\u{2028}'
    ||| c == '\u{2029}'
    ||| c == '\u{202f}'
    ||| c == '\u{205f}'
    ||| c == '\u{3000}'
}

/// Unicode general category `Cc`.
pub open spec fn is_control(c: char) -> bool {
    c <= '\u{1f}' || ('\u{7f}' <= c && c <= '\u{9f}')
}

pub open spec fn is_ascii_alphanumeric(c: char) -> bool {
    ('0' <= c && c <= '9') || ('a' <= c && c <= 'z') || ('A' <= c && c <= 'Z')
}

pub fn char_is_white_space(c: char) -> (b: bool)
    ensures
        b == is_white_space(c),
{
    ('\u{9}' <= c && c <= '\u{d}') || c == ' ' || c == '\u{85}' || c == '\u{a0}' || c == '\u{1680}'
        || ('\u{2000}' <= c && c <= '\u{200a}') || c == '\u{2028}' || c == '\u{2029}' || c
        == '\u{202f}' || c == '\u{205f}' || c == '\u{3000}'
}

pub fn char_is_ascii_alphanumeric(c: char) -> (b: bool)
    ensures
        b == is_ascii_alphanumeric(c),
{
    ('0' <= c && c <= '9') || ('a' <= c && c <= 'z') || ('A' <= c && c <= 'Z')
}

/// Copies the characters of `s` into a vector, in order.
pub fn chars_of(s: &str) -> (out: Vec<char>)
    ensures
        out@ == s@,
{
    let mut out: Vec<char> = Vec::new();
    for c in it: s.chars()
        invariant
            out@ == it.seq().take(it.index() as int),
            it.seq() == s@,
    {
        out.push(c);
    }
    proof {
        assert(s@.take(s@.len() as int) =~= s@);
    }
    out
}

/// An owned copy of `s`.
pub fn owned(s: &str) -> (out: String)
    ensures
        out@ == s@,
{
    s.to_owned()
}

/// Whether two strings hold the same characters.
pub fn str_eq(a: &str, b: &str) -> (eq: bool)
    ensures
        eq == (a@ == b@),
{
    let x = chars_of(a);
    let y = chars_of(b);
    if x.len() != y.len() {
        return false;
    }
    let mut i: usize = 0;
    while i < x.len()
        invariant
            x@ == a@,
            y@ == b@,
            x.len() == y.len(),
            i <= x.len(),
            forall|k: int| 0 <= k < i ==> x@[k] == y@[k],
        decreases x.len() - i,
    {
        if x[i] != y[i] {
            return false;
        }
        i = i + 1;
    }
    proof {
        assert(a@ =~= b@);
    }
    true
}

// ── trimming and tokens ──────────────────────────────────────────────────────

/// `s` without its leading white space.
pub open spec fn trimmed_start(s: Seq<char>) -> Seq<char>
    decreases s.len(),
{
    if s.len() > 0 && is_white_space(s[0]) {
        trimmed_start(s.drop_first())
    } else {
        s
    }
}

/// `s` without its trailing white space.
pub open spec fn trimmed_end(s: Seq<char>) -> Seq<char>
    decreases s.len(),
{
    if s.len() > 0 && is_white_space(s.last()) {
        trimmed_end(s.drop_last())
    } else {
        s
    }
}

/// `s` without leading or trailing white space.
pub open spec fn trimmed(s: Seq<char>) -> Seq<char> {
    trimmed_end(trimmed_start(s))
}

/// The longest prefix of `s` that holds no white space.
pub open spec fn word(s: Seq<char>) -> Seq<char>
    decreases s.len(),
{
    if s.len() == 0 || is_white_space(s[0]) {
        Seq::empty()
    } else {
        seq![s[0]] + word(s.drop_first())
    }
}

/// The first white-space separated token of `s`, if there is one.
pub open spec fn first_token(s: Seq<char>) -> Option<Seq<char>> {
    let t = trimmed_start(s);
    if t.len() == 0 {
        None
    } else {
        Some(word(t))
    }
}

/// Whether `s` holds nothing but white space.
pub open spec fn is_blank(s: Seq<char>) -> bool {
    trimmed(s).len() == 0
}

proof fn lemma_trimmed_start_skip(s: Seq<char>, i: int)
    requires
        0 <= i < s.len(),
        is_white_space(s[i]),
    ensures
        trimmed_start(s.skip(i)) == trimmed_start(s.skip(i + 1)),
{
    assert(s.skip(i).drop_first() =~= s.skip(i + 1));
}

proof fn lemma_trimmed_end_sub(s: Seq<char>, i: int, j: int)
    requires
        0 <= i < j <= s.len(),
        is_white_space(s[j - 1]),
    ensures
        trimmed_end(s.subrange(i, j)) == trimmed_end(s.subrange(i, j - 1)),
{
    assert(s.subrange(i, j).drop_last() =~= s.subrange(i, j - 1));
}

/// Index of the first non-white-space character of `cs` at or after `from`.
fn skip_white_space(cs: &Vec<char>, from: usize) -> (i: usize)
    requires
        from <= cs.len(),
    ensures
        from <= i <= cs.len(),
        trimmed_start(cs@.skip(from as int)) == trimmed_start(cs@.skip(i as int)),
        i < cs.len() ==> !is_white_space(cs@[i as int]),
        trimmed_start(cs@.skip(from as int)) == cs@.skip(i as int),
{
    let mut i = from;
    while i < cs.len() && char_is_white_space(cs[i])
        invariant
            from <= i <= cs.len(),
            trimmed_start(cs@.skip(from as int)) == trimmed_start(cs@.skip(i as int)),
        decreases cs.len() - i,
    {
        proof {
            lemma_trimmed_start_skip(cs@, i as int);
        }
        i = i + 1;
    }
    proof {
        if i == cs.len() {
            assert(cs@.skip(i as int) =~= Seq::<char>::empty());
        } else {
            assert(cs@.skip(i as int)[0] == cs@[i as int]);
        }
    }
    i
}

/// Removes leading and trailing white space.
pub fn trim(s: &str) -> (t: String)
    ensures
        t@ == trimmed(s@),
{
    let cs = chars_of(s);
    let n = cs.len();
    proof {
        assert(cs@.skip(0) =~= cs@);
    }
    let i = skip_white_space(&cs, 0);
    let mut j = n;
    proof {
        assert(cs@.skip(i as int) =~= cs@.subrange(i as int, n as int));
    }
    while j > i && char_is_white_space(cs[j - 1])
        invariant
            i <= j <= n,
            n == cs.len(),
            cs@ == s@,
            trimmed(s@) == trimmed_end(cs@.subrange(i as int, j as int)),
        decreases j,
    {
        proof {
            lemma_trimmed_end_sub(cs@, i as int, j as int);
        }
        j = j - 1;
    }
    proof {
        if j == i {
            assert(cs@.subrange(i as int, j as int) =~= Seq::<char>::empty());
        } else {
            assert(cs@.subrange(i as int, j as int).last() == cs@[j - 1]);
        }
    }
    s.substring_char(i, j).to_owned()
}

/// Whether `s` holds nothing but white space.
pub fn is_blank_str(s: &str) -> (b: bool)
    ensures
        b == is_blank(s@),
{
    let cs = chars_of(s);
    proof {
        assert(cs@.skip(0) =~= cs@);
    }
    let i = skip_white_space(&cs, 0);
    proof {
        if i == cs.len() {
            assert(cs@.skip(i as int) =~= Seq::<char>::empty());
        } else {
            assert(cs@.skip(i as int).len() > 0);
            assert(trimmed_end(cs@.skip(i as int)).len() > 0) by {
                let t = cs@.skip(i as int);
                assert(t[0] == cs@[i as int]);
                lemma_trimmed_end_keeps_first(t);
            }
        }
    }
    i == cs.len()
}

proof fn lemma_trimmed_end_keeps_first(t: Seq<char>)
    requires
        t.len() > 0,
        !is_white_space(t[0]),
    ensures
        trimmed_end(t).len() > 0,
    decreases t.len(),
{
    if t.len() > 1 && is_white_space(t.last()) {
        assert(t.drop_last()[0] == t[0]);
        lemma_trimmed_end_keeps_first(t.drop_last());
    }
}

/// The first white-space separated token of `s`, if any.
pub fn first_token_of(s: &str) -> (tok: Option<String>)
    ensures
        tok matches Some(t) ==> first_token(s@) == Some(t@),
        tok is None ==> first_token(s@) is None,
{
    let cs = chars_of(s);
    let n = cs.len();
    proof {
        assert(cs@.skip(0) =~= cs@);
    }
    let i = skip_white_space(&cs, 0);
    if i == n {
        proof {
            assert(cs@.skip(i as int) =~= Seq::<char>::empty());
        }
        return None;
    }
    let mut j = i;
    proof {
        assert(cs@.subrange(i as int, j as int) =~= Seq::<char>::empty());
    }
    while j < n && !char_is_white_space(cs[j])
        invariant
            i <= j <= n,
            n == cs.len(),
            word(cs@.skip(i as int)) == cs@.subrange(i as int, j as int) + word(cs@.skip(j as int)),
        decreases n - j,
    {
        proof {
            let t = cs@.skip(j as int);
            assert(t[0] == cs@[j as int]);
            assert(t.drop_first() =~= cs@.skip(j + 1));
            assert(cs@.subrange(i as int, j as int) + seq![cs@[j as int]] =~= cs@.subrange(
                i as int,
                j + 1,
            ));
            assert(cs@.subrange(i as int, j as int) + (seq![cs@[j as int]] + word(
                cs@.skip(j + 1),
            )) =~= cs@.subrange(i as int, j + 1) + word(cs@.skip(j + 1)));
        }
        j = j + 1;
    }
    proof {
        if j == n {
            assert(cs@.skip(j as int) =~= Seq::<char>::empty());
        } else {
            assert(cs@.skip(j as int)[0] == cs@[j as int]);
        }
        assert(cs@.subrange(i as int, j as int) + Seq::<char>::empty() =~= cs@.subrange(
            i as int,
            j as int,
        ));
    }
    Some(s.substring_char(i, j).to_owned())
}

// ── searching and replacing ──────────────────────────────────────────────────

/// `p` occurs in `s` starting at position `i`.
pub open spec fn occurs_at(s: Seq<char>, p: Seq<char>, i: int) -> bool {
    0 <= i && i + p.len() <= s.len() && s.subrange(i, i + p.len()) == p
}

/// `p` occurs somewhere in `s`.
pub open spec fn contains_seq(s: Seq<char>, p: Seq<char>) -> bool {
    exists|i: int| #[trigger] occurs_at(s, p, i)
}

/// `s` begins with `p`.
pub open spec fn starts_with_seq(s: Seq<char>, p: Seq<char>) -> bool {
    occurs_at(s, p, 0)
}

fn matches_at(s: &Vec<char>, p: &Vec<char>, i: usize) -> (b: bool)
    ensures
        b == occurs_at(s@, p@, i as int),
{
    if i > s.len() || p.len() > s.len() - i {
        return false;
    }
    let mut k: usize = 0;
    while k < p.len()
        invariant
            i + p.len() <= s.len(),
            k <= p.len(),
            forall|m: int| 0 <= m < k ==> s@[i + m] == p@[m],
        decreases p.len() - k,
    {
        if s[i + k] != p[k] {
            proof {
                assert(s@.subrange(i as int, i + p.len())[k as int] != p@[k as int]);
            }
            return false;
        }
        k = k + 1;
    }
    proof {
        assert(s@.subrange(i as int, i + p.len()) =~= p@);
    }
    true
}

/// Whether `p` occurs in `s`.
pub fn contains_str(s: &str, p: &str) -> (b: bool)
    ensures
        b == contains_seq(s@, p@),
{
    let cs = chars_of(s);
    let ps = chars_of(p);
    if ps.len() > cs.len() {
        proof {
            assert forall|i: int| !#[trigger] occurs_at(s@, p@, i) by {}
        }
        return false;
    }
    let last = cs.len() - ps.len();
    let mut i: usize = 0;
    while i < last
        invariant
            last == cs.len() - ps.len(),
            i <= last,
            cs@ == s@,
            ps@ == p@,
            forall|k: int| 0 <= k < i ==> !#[trigger] occurs_at(s@, p@, k),
        decreases last - i,
    {
        if matches_at(&cs, &ps, i) {
            return true;
        }
        i = i + 1;
    }
    let found = matches_at(&cs, &ps, last);
    proof {
        if !found {
            assert forall|k: int| !#[trigger] occurs_at(s@, p@, k) by {
                if k > last as int {
                }
            }
        }
    }
    found
}

/// Whether `s` begins with `p`.
pub fn starts_with_str(s: &str, p: &str) -> (b: bool)
    ensures
        b == starts_with_seq(s@, p@),
{
    let cs = chars_of(s);
    let ps = chars_of(p);
    matches_at(&cs, &ps, 0)
}

/// Every non-overlapping occurrence of `p` in `s`, scanning from the left,
/// replaced by `r`.
pub open spec fn replace_all(s: Seq<char>, p: Seq<char>, r: Seq<char>) -> Seq<char>
    recommends
        p.len() > 0,
    decreases s.len(),
{
    if p.len() == 0 || s.len() < p.len() {
        s
    } else if s.take(p.len() as int) == p {
        r + replace_all(s.skip(p.len() as int), p, r)
    } else {
        seq![s[0]] + replace_all(s.drop_first(), p, r)
    }
}

/// Replaces every non-overlapping occurrence of a non-empty `p` in `s` by `r`.
pub fn replace_str(s: &str, p: &str, r: &str) -> (out: String)
    requires
        p@.len() > 0,
    ensures
        out@ == replace_all(s@, p@, r@),
{
    let cs = chars_of(s);
    let ps = chars_of(p);
    let n = cs.len();
    let mut out = String::new();
    let mut i: usize = 0;
    proof {
        assert(cs@.skip(0) =~= cs@);
    }
    while i < n
        invariant
            n == cs.len(),
            cs@ == s@,
            ps@ == p@,
            p@.len() > 0,
            i <= n,
            out@ + replace_all(cs@.skip(i as int), p@, r@) == replace_all(s@, p@, r@),
        decreases n - i,
    {
        let ghost t = cs@.skip(i as int);
        if matches_at(&cs, &ps, i) {
            proof {
                assert(t.take(p@.len() as int) =~= cs@.subrange(i as int, i + p@.len()));
                assert(t.skip(p@.len() as int) =~= cs@.skip(i + p@.len()));
                assert(out@ + r@ + replace_all(cs@.skip(i + p@.len()), p@, r@) =~= out@ + (r@
                    + replace_all(cs@.skip(i + p@.len()), p@, r@)));
            }
            out.append(r);
            i = i + ps.len();
        } else {
            proof {
                if t.len() >= p@.len() {
                    assert(t.take(p@.len() as int) =~= cs@.subrange(i as int, i + p@.len()));
                }
                assert(t.drop_first() =~= cs@.skip(i + 1));
                assert(t[0] == cs@[i as int]);
                assert(s@.subrange(i as int, i + 1) =~= seq![cs@[i as int]]);
            }
            let ghost before = out@;
            out.append(s.substring_char(i, i + 1));
            proof {
                assert(before + seq![cs@[i as int]] + replace_all(cs@.skip(i + 1), p@, r@)
                    =~= before + (seq![cs@[i as int]] + replace_all(cs@.skip(i + 1), p@, r@)));
            }
            i = i + 1;
        }
    }
    proof {
        assert(cs@.skip(i as int) =~= Seq::<char>::empty());
        assert(out@ + Seq::<char>::empty() =~= out@);
    }
    out
}

// ── decimal numerals ─────────────────────────────────────────────────────────

pub open spec fn digit_char(d: nat) -> char {
    if d == 0 {
        '0'
    } else if d == 1 {
        '1'
    } else if d == 2 {
        '2'
    } else if d == 3 {
        '3'
    } else if d == 4 {
        '4'
    } else if d == 5 {
        '5'
    } else if d == 6 {
        '6'
    } else if d == 7 {
        '7'
    } else if d == 8 {
        '8'
    } else {
        '9'
    }
}

/// The decimal numeral of `n`, without leading zeros.
pub open spec fn decimal(n: nat) -> Seq<char>
    decreases n,
{
    if n < 10 {
        seq![digit_char(n)]
    } else {
        decimal(n / 10).push(digit_char(n % 10))
    }
}

/// The value of a decimal digit character.
pub open spec fn digit_value(c: char) -> nat {
    if c == '1' {
        1
    } else if c == '2' {
        2
    } else if c == '3' {
        3
    } else if c == '4' {
        4
    } else if c == '5' {
        5
    } else if c == '6' {
        6
    } else if c == '7' {
        7
    } else if c == '8' {
        8
    } else if c == '9' {
        9
    } else {
        0
    }
}

/// The number spelled by decimal digits, most significant first.
pub open spec fn numeral_value(s: Seq<char>) -> nat
    decreases s.len(),
{
    if s.len() == 0 {
        0
    } else {
        numeral_value(s.drop_last()) * 10 + digit_value(s.last())
    }
}

/// The numeral of `n` is a non-empty run of digits, with no leading zero
/// unless `n` is zero, that reads back as `n`.
pub proof fn lemma_decimal_reads_back(n: nat)
    ensures
        decimal(n).len() > 0,
        forall|i: int| 0 <= i < decimal(n).len() ==> '0' <= #[trigger] decimal(n)[i] <= '9',
        n > 0 ==> decimal(n)[0] != '0',
        numeral_value(decimal(n)) == n,
    decreases n,
{
    if n >= 10 {
        let q = n / 10;
        let r = n % 10;
        lemma_decimal_reads_back(q);
        let p = decimal(q);
        let d = decimal(n);
        assert(d == p.push(digit_char(r)));
        assert(d.drop_last() =~= p);
        assert(d.last() == digit_char(r));
        assert(digit_value(digit_char(r)) == r);
        vstd::arithmetic::div_mod::lemma_fundamental_div_mod(n as int, 10);
        assert(q * 10 + r == n);
        assert(d[0] == p[0]);
        assert forall|i: int| 0 <= i < d.len() implies '0' <= #[trigger] d[i] <= '9' by {
            if i < p.len() {
                assert(d[i] == p[i]);
            }
        }
    } else {
        assert(decimal(n) == seq![digit_char(n)]);
        assert(decimal(n).drop_last() =~= Seq::<char>::empty());
        assert(numeral_value(decimal(n).drop_last()) == 0);
        assert(digit_value(digit_char(n)) == n);
    }
}

fn digit_str(d: u64) -> (s: &'static str)
    requires
        d < 10,
    ensures
        s@ == seq![digit_char(d as nat)],
{
    if d == 0 {
        proof {
            reveal_strlit("0");
        }
        "0"
    } else if d == 1 {
        proof {
            reveal_strlit("1");
        }
        "1"
    } else if d == 2 {
        proof {
            reveal_strlit("2");
        }
        "2"
    } else if d == 3 {
        proof {
            reveal_strlit("3");
        }
        "3"
    } else if d == 4 {
        proof {
            reveal_strlit("4");
        }
        "4"
    } else if d == 5 {
        proof {
            reveal_strlit("5");
        }
        "5"
    } else if d == 6 {
        proof {
            reveal_strlit("6");
        }
        "6"
    } else if d == 7 {
        proof {
            reveal_strlit("7");
        }
        "7"
    } else if d == 8 {
        proof {
            reveal_strlit("8");
        }
        "8"
    } else {
        proof {
            reveal_strlit("9");
        }
        "9"
    }
}

/// Appends the decimal numeral of `n` to `out`.
pub fn push_decimal(out: &mut String, n: u64)
    ensures
        final(out)@ == old(out)@ + decimal(n as nat),
    decreases n,
{
    if n >= 10 {
        push_decimal(out, n / 10);
    }
    let ghost mid = out@;
    out.append(digit_str(n % 10));
    proof {
        if n >= 10 {
            assert(mid + seq![digit_char((n % 10) as nat)] =~= old(out)@ + decimal(
                (n / 10) as nat,
            ).push(digit_char((n % 10) as nat)));
        } else {
            assert(old(out)@ + decimal(n as nat) =~= mid + seq![digit_char((n % 10) as nat)]);
        }
    }
}

/// `a` followed by `b`.
pub fn concat2(a: &str, b: &str) -> (s: String)
    ensures
        s@ == a@ + b@,
{
    let mut s = a.to_owned();
    s.append(b);
    s
}

// ── dotted-quad addresses ────────────────────────────────────────────────────

/// The dotted-quad text of an IPv4 address, as `Ipv4Addr` displays it.
pub open spec fn ipv4_text(o: Seq<u8>) -> Seq<char> {
    decimal(o[0] as nat) + seq!['.'] + decimal(o[1] as nat) + seq!['.'] + decimal(o[2] as nat)
        + seq!['.'] + decimal(o[3] as nat)
}

/// Dotted-quad text of an IPv4 address.
pub fn ipv4_to_string(o: [u8; 4]) -> (s: String)
    ensures
        s@ == ipv4_text(o@),
{
    proof {
        reveal_strlit(".");
    }
    let mut s = String::new();
    push_decimal(&mut s, o[0] as u64);
    s.append(".");
    push_decimal(&mut s, o[1] as u64);
    s.append(".");
    push_decimal(&mut s, o[2] as u64);
    s.append(".");
    push_decimal(&mut s, o[3] as u64);
    proof {
        assert(s@ =~= ipv4_text(o@));
    }
    s
}

} // verus!

verus! {

// ── lines ────────────────────────────────────────────────────────────────────

/// The pieces of `s` between newlines: one more than it has newlines.
pub open spec fn nl_pieces(s: Seq<char>) -> Seq<Seq<char>>
    decreases s.len(),
{
    if s.len() == 0 {
        seq![Seq::empty()]
    } else {
        let p = nl_pieces(s.drop_last());
        if s.last() == '\n' {
            p.push(Seq::empty())
        } else {
            p.update(p.len() - 1, p.last().push(s.last()))
        }
    }
}

/// A line without the carriage return that ended it.
pub open spec fn strip_cr(l: Seq<char>) -> Seq<char> {
    if l.len() > 0 && l.last() == '\r' {
        l.drop_last()
    } else {
        l
    }
}

/// The lines of `s`, as `str::lines` gives them: split at each newline, a
/// carriage return before a newline removed, and no empty last line after a
/// final newline.
pub open spec fn lines(s: Seq<char>) -> Seq<Seq<char>> {
    let p = nl_pieces(s);
    let body = p.drop_last().map_values(|l: Seq<char>| strip_cr(l));
    if p.last().len() == 0 {
        body
    } else {
        body.push(p.last())
    }
}

/// `ls` joined with newlines.
pub open spec fn join_lines(ls: Seq<Seq<char>>) -> Seq<char>
    decreases ls.len(),
{
    if ls.len() == 0 {
        Seq::empty()
    } else if ls.len() == 1 {
        ls[0]
    } else {
        join_lines(ls.drop_last()) + seq!['\n'] + ls.last()
    }
}

pub open spec fn texts_of(v: Seq<String>) -> Seq<Seq<char>> {
    v.map_values(|s: String| s@)
}

/// The characters `start..end` of `s`, without a carriage return at the end.
fn piece_without_cr(s: &str, cs: &Vec<char>, start: usize, end: usize) -> (l: String)
    requires
        cs@ == s@,
        start <= end <= cs@.len(),
    ensures
        l@ == strip_cr(cs@.subrange(start as int, end as int)),
{
    if end > start && cs[end - 1] == '\r' {
        proof {
            assert(cs@.subrange(start as int, end as int).drop_last() =~= cs@.subrange(
                start as int,
                end - 1,
            ));
        }
        s.substring_char(start, end - 1).to_owned()
    } else {
        s.substring_char(start, end).to_owned()
    }
}

/// The lines of `s`.
pub fn lines_of(s: &str) -> (ls: Vec<String>)
    ensures
        texts_of(ls@) == lines(s@),
{
    let cs = chars_of(s);
    let mut done: Vec<String> = Vec::new();
    let ghost mut raw: Seq<Seq<char>> = Seq::empty();
    let mut start: usize = 0;
    let mut i: usize = 0;
    proof {
        assert(cs@.take(0) =~= Seq::<char>::empty());
        assert(cs@.subrange(0, 0) =~= Seq::<char>::empty());
        assert(raw.push(cs@.subrange(0, 0)) =~= seq![Seq::<char>::empty()]);
    }
    while i < cs.len()
        invariant
            cs@ == s@,
            start <= i <= cs@.len(),
            nl_pieces(cs@.take(i as int)) == raw.push(cs@.subrange(start as int, i as int)),
            texts_of(done@) == raw.map_values(|l: Seq<char>| strip_cr(l)),
        decreases cs@.len() - i,
    {
        proof {
            assert(cs@.take(i + 1).drop_last() =~= cs@.take(i as int));
            assert(cs@.take(i + 1).last() == cs@[i as int]);
        }
        if cs[i] == '\n' {
            let l = piece_without_cr(s, &cs, start, i);
            proof {
                assert(texts_of(done@.push(l)) =~= texts_of(done@).push(l@));
                assert(raw.push(cs@.subrange(start as int, i as int)).map_values(
                    |l: Seq<char>| strip_cr(l),
                ) =~= raw.map_values(|l: Seq<char>| strip_cr(l)).push(
                    strip_cr(cs@.subrange(start as int, i as int)),
                ));
                raw = raw.push(cs@.subrange(start as int, i as int));
                assert(cs@.subrange(i + 1, i + 1) =~= Seq::<char>::empty());
            }
            done.push(l);
            start = i + 1;
        } else {
            proof {
                assert(cs@.subrange(start as int, i as int).push(cs@[i as int]) =~= cs@.subrange(
                    start as int,
                    i + 1,
                ));
                assert(raw.push(cs@.subrange(start as int, i as int)).update(
                    raw.len() as int,
                    cs@.subrange(start as int, i + 1),
                ) =~= raw.push(cs@.subrange(start as int, i + 1)));
            }
        }
        i = i + 1;
    }
    proof {
        assert(cs@.take(cs@.len() as int) =~= cs@);
        assert(nl_pieces(s@).drop_last() =~= raw);
    }
    if start < cs.len() {
        let l = s.substring_char(start, cs.len()).to_owned();
        proof {
            assert(texts_of(done@.push(l)) =~= texts_of(done@).push(l@));
        }
        done.push(l);
    }
    done
}

/// `ls` joined with newlines.
pub fn join_with_newlines(ls: &Vec<String>) -> (s: String)
    ensures
        s@ == join_lines(texts_of(ls@)),
{
    let mut s = String::new();
    let mut i: usize = 0;
    proof {
        assert(texts_of(ls@).take(0) =~= Seq::<Seq<char>>::empty());
    }
    while i < ls.len()
        invariant
            i <= ls@.len(),
            s@ == join_lines(texts_of(ls@).take(i as int)),
        decreases ls@.len() - i,
    {
        let ghost t = texts_of(ls@);
        proof {
            assert(t.take(i + 1).drop_last() =~= t.take(i as int));
            assert(t.take(i + 1).last() == ls@[i as int]@);
        }
        if i > 0 {
            s.append("\n");
            proof {
                reveal_strlit("\n");
            }
        } else {
            proof {
                assert(t.take(1) =~= seq![ls@[0]@]);
            }
        }
        s.append(ls[i].as_str());
        i = i + 1;
    }
    proof {
        assert(texts_of(ls@).take(ls@.len() as int) =~= texts_of(ls@));
    }
    s
}

} // verus!

verus! {

// ── white-space separated words ──────────────────────────────────────────────

/// Trimming leading white space gives a suffix that, when not empty, starts
/// with a non-white-space character.
pub proof fn lemma_trimmed_start_len(s: Seq<char>)
    ensures
        trimmed_start(s).len() <= s.len(),
        trimmed_start(s).len() > 0 ==> !is_white_space(trimmed_start(s)[0]),
        exists|k: int| 0 <= k <= s.len() && trimmed_start(s) == #[trigger] s.skip(k),
    decreases s.len(),
{
    if s.len() > 0 && is_white_space(s[0]) {
        lemma_trimmed_start_len(s.drop_first());
        let k = choose|k: int|
            0 <= k <= s.drop_first().len() && trimmed_start(s.drop_first())
                == #[trigger] s.drop_first().skip(k);
        assert(s.drop_first().skip(k) =~= s.skip(k + 1));
    } else {
        assert(s.skip(0) =~= s);
    }
}

/// The leading word of a text is a prefix of it, not empty when the text
/// starts with a non-white-space character.
pub proof fn lemma_word_len(t: Seq<char>)
    ensures
        word(t).len() <= t.len(),
        t.len() > 0 && !is_white_space(t[0]) ==> word(t).len() >= 1,
        word(t) == t.take(word(t).len() as int),
    decreases t.len(),
{
    if t.len() > 0 && !is_white_space(t[0]) {
        lemma_word_len(t.drop_first());
        assert(seq![t[0]] + t.drop_first().take(word(t.drop_first()).len() as int) =~= t.take(
            word(t).len() as int,
        ));
    } else {
        assert(t.take(0) =~= Seq::<char>::empty());
    }
}

/// The white-space separated words of `s`, as `str::split_whitespace` gives them.
pub open spec fn words(s: Seq<char>) -> Seq<Seq<char>>
    decreases s.len(),
{
    let t = trimmed_start(s);
    if t.len() == 0 {
        Seq::empty()
    } else {
        proof {
            lemma_trimmed_start_len(s);
            lemma_word_len(t);
        }
        seq![word(t)] + words(t.skip(word(t).len() as int))
    }
}

/// Index just past the word of `cs` that starts at `from`.
fn word_end(cs: &Vec<char>, from: usize) -> (j: usize)
    requires
        from <= cs.len(),
    ensures
        from <= j <= cs.len(),
        word(cs@.skip(from as int)) == cs@.subrange(from as int, j as int),
{
    let mut j = from;
    proof {
        assert(cs@.subrange(from as int, from as int) =~= Seq::<char>::empty());
    }
    while j < cs.len() && !char_is_white_space(cs[j])
        invariant
            from <= j <= cs.len(),
            word(cs@.skip(from as int)) == cs@.subrange(from as int, j as int) + word(
                cs@.skip(j as int),
            ),
        decreases cs.len() - j,
    {
        proof {
            let t = cs@.skip(j as int);
            assert(t[0] == cs@[j as int]);
            assert(t.drop_first() =~= cs@.skip(j + 1));
            assert(cs@.subrange(from as int, j as int) + (seq![cs@[j as int]] + word(
                cs@.skip(j + 1),
            )) =~= cs@.subrange(from as int, j + 1) + word(cs@.skip(j + 1)));
        }
        j = j + 1;
    }
    proof {
        if j == cs.len() {
            assert(cs@.skip(j as int) =~= Seq::<char>::empty());
        } else {
            assert(cs@.skip(j as int)[0] == cs@[j as int]);
        }
        assert(cs@.subrange(from as int, j as int) + Seq::<char>::empty() =~= cs@.subrange(
            from as int,
            j as int,
        ));
    }
    j
}

/// The white-space separated words of `s`.
pub fn words_of(s: &str) -> (ws: Vec<String>)
    ensures
        texts_of(ws@) == words(s@),
{
    let cs = chars_of(s);
    let n = cs.len();
    let mut ws: Vec<String> = Vec::new();
    let mut i: usize = 0;
    proof {
        assert(cs@.skip(0) =~= cs@);
    }
    while i < n
        invariant
            cs@ == s@,
            n == cs@.len(),
            i <= n,
            texts_of(ws@) + words(cs@.skip(i as int)) == words(s@),
        decreases n - i,
    {
        let start = skip_white_space(&cs, i);
        if start == n {
            proof {
                assert(trimmed_start(cs@.skip(i as int)).len() == 0);
                assert(texts_of(ws@) + Seq::<Seq<char>>::empty() =~= texts_of(ws@));
            }
            i = n;
        } else {
            let end = word_end(&cs, start);
            let ghost t = cs@.skip(start as int);
            proof {
                assert(trimmed_start(cs@.skip(i as int)) == t);
                assert(t[0] == cs@[start as int]);
                lemma_word_len(t);
                assert(t.skip(word(t).len() as int) =~= cs@.skip(end as int));
                assert(s@.subrange(start as int, end as int) == word(t));
            }
            let w = s.substring_char(start, end).to_owned();
            let ghost before = texts_of(ws@);
            ws.push(w);
            proof {
                assert(texts_of(ws@) =~= before.push(word(t)));
                assert(before.push(word(t)) + words(cs@.skip(end as int)) =~= before + (seq![
                    word(t),
                ] + words(cs@.skip(end as int))));
            }
            i = end;
        }
    }
    proof {
        assert(cs@.skip(n as int) =~= Seq::<char>::empty());
        assert(texts_of(ws@) + Seq::<Seq<char>>::empty() =~= texts_of(ws@));
    }
    ws
}

} // verus!

verus! {

// ── hexadecimal ──────────────────────────────────────────────────────────────

/// The value of a hexadecimal digit.
pub open spec fn hex_value(c: char) -> Option<nat> {
    if '0' <= c && c <= '9' {
        Some(((c as nat) - ('0' as nat)) as nat)
    } else if 'a' <= c && c <= 'f' {
        Some(((c as nat) - ('a' as nat) + 10) as nat)
    } else if 'A' <= c && c <= 'F' {
        Some(((c as nat) - ('A' as nat) + 10) as nat)
    } else {
        None
    }
}

/// The value of a run of hexadecimal digits.
pub open spec fn hex_digits_value(s: Seq<char>) -> Option<nat>
    decreases s.len(),
{
    if s.len() == 0 {
        Some(0)
    } else {
        match (hex_digits_value(s.drop_last()), hex_value(s.last())) {
            (Some(v), Some(d)) => Some(v * 16 + d),
            _ => None,
        }
    }
}

/// What `u32::from_str_radix(s, 16)` accepts: an optional `+`, then one or
/// more hexadecimal digits whose value fits in 32 bits.
pub open spec fn parse_hex_u32(s: Seq<char>) -> Option<u32> {
    let d = if s.len() > 0 && s[0] == '+' {
        s.drop_first()
    } else {
        s
    };
    if d.len() == 0 {
        None
    } else {
        match hex_digits_value(d) {
            Some(v) => if v <= u32::MAX {
                Some(v as u32)
            } else {
                None
            },
            None => None,
        }
    }
}

fn hex_digit_value(c: char) -> (v: Option<u64>)
    ensures
        match hex_value(c) {
            Some(d) => v == Some(d as u64),
            None => v is None,
        },
        v matches Some(d) ==> d < 16,
{
    if '0' <= c && c <= '9' {
        Some((c as u64) - ('0' as u64))
    } else if 'a' <= c && c <= 'f' {
        Some((c as u64) - ('a' as u64) + 10)
    } else if 'A' <= c && c <= 'F' {
        Some((c as u64) - ('A' as u64) + 10)
    } else {
        None
    }
}

proof fn lemma_hex_digits_grow(s: Seq<char>, i: int)
    requires
        0 <= i <= s.len(),
        hex_digits_value(s) is Some,
    ensures
        hex_digits_value(s.take(i)) is Some,
        hex_digits_value(s.take(i))->0 <= hex_digits_value(s)->0,
    decreases s.len() - i,
{
    if i < s.len() {
        assert(s.take(i + 1).drop_last() =~= s.take(i));
        lemma_hex_digits_grow(s, i + 1);
    } else {
        assert(s.take(i) =~= s);
    }
}

proof fn lemma_hex_digits_invalid(s: Seq<char>, i: int)
    requires
        0 <= i <= s.len(),
        hex_digits_value(s.take(i)) is None,
    ensures
        hex_digits_value(s) is None,
    decreases s.len() - i,
{
    if i < s.len() {
        assert(s.take(i + 1).drop_last() =~= s.take(i));
        lemma_hex_digits_invalid(s, i + 1);
    } else {
        assert(s.take(i) =~= s);
    }
}

/// Parses `s` as `u32::from_str_radix(s, 16)` does.
pub fn hex_to_u32(s: &str) -> (v: Option<u32>)
    ensures
        v == parse_hex_u32(s@),
{
    let cs = chars_of(s);
    let start: usize = if cs.len() > 0 && cs[0] == '+' {
        1
    } else {
        0
    };
    let ghost d = if s@.len() > 0 && s@[0] == '+' {
        s@.drop_first()
    } else {
        s@
    };
    proof {
        assert(d =~= cs@.skip(start as int));
    }
    if start == cs.len() {
        return None;
    }
    let mut value: u64 = 0;
    let mut i = start;
    proof {
        assert(d.take(0) =~= Seq::<char>::empty());
    }
    while i < cs.len()
        invariant
            cs@ == s@,
            start <= i <= cs@.len(),
            d == cs@.skip(start as int),
            d == (if s@.len() > 0 && s@[0] == '+' {
                s@.drop_first()
            } else {
                s@
            }),
            d.len() > 0,
            hex_digits_value(d.take(i - start)) == Some(value as nat),
            value <= u32::MAX,
        decreases cs@.len() - i,
    {
        proof {
            assert(d.take(i - start + 1).drop_last() =~= d.take(i - start));
            assert(d.take(i - start + 1).last() == cs@[i as int]);
        }
        match hex_digit_value(cs[i]) {
            None => {
                proof {
                    lemma_hex_digits_invalid(d, i - start + 1);
                }
                return None;
            },
            Some(digit) => {
                let next = value * 16 + digit;
                if next > 0xffff_ffff {
                    proof {
                        if hex_digits_value(d) is Some {
                            lemma_hex_digits_grow(d, i - start + 1);
                        }
                    }
                    return None;
                }
                value = next;
            },
        }
        i = i + 1;
    }
    proof {
        assert(d.take(i - start) =~= d);
    }
    Some(value as u32)
}

/// The lower-case hexadecimal digit of `d` (below 16).
pub open spec fn hex_digit_char(d: nat) -> char {
    if d < 10 {
        ((d + ('0' as nat)) as u32) as char
    } else {
        ((d - 10 + ('a' as nat)) as u32) as char
    }
}

/// Two lower-case hexadecimal digits per byte.
pub open spec fn hex_text(bytes: Seq<u8>) -> Seq<char>
    decreases bytes.len(),
{
    if bytes.len() == 0 {
        Seq::empty()
    } else {
        hex_text(bytes.drop_last()) + seq![
            hex_digit_char((bytes.last() / 16) as nat),
            hex_digit_char((bytes.last() % 16) as nat),
        ]
    }
}

fn hex_digit_str(d: u8) -> (s: &'static str)
    requires
        d < 16,
    ensures
        s@ == seq![hex_digit_char(d as nat)],
{
    let digits = "0123456789abcdef";
    proof {
        reveal_strlit("0123456789abcdef");
    }
    digits.substring_ascii(d as usize, d as usize + 1)
}

/// Lower-case hexadecimal text of the first `n` bytes (all of them when fewer).
pub fn hex_prefix(bytes: &[u8], n: usize) -> (s: String)
    ensures
        s@ == hex_text(bytes@.take(if n < bytes@.len() {
            n as int
        } else {
            bytes@.len() as int
        })),
{
    let m = if n < bytes.len() {
        n
    } else {
        bytes.len()
    };
    let mut s = String::new();
    let mut i: usize = 0;
    proof {
        assert(bytes@.take(0) =~= Seq::<u8>::empty());
    }
    while i < m
        invariant
            m <= bytes@.len(),
            i <= m,
            s@ == hex_text(bytes@.take(i as int)),
        decreases m - i,
    {
        proof {
            assert(bytes@.take(i + 1).drop_last() =~= bytes@.take(i as int));
            assert(bytes@.take(i + 1).last() == bytes@[i as int]);
        }
        let b = bytes[i];
        s.append(hex_digit_str(b / 16));
        s.append(hex_digit_str(b % 16));
        i = i + 1;
    }
    s
}

} // verus!

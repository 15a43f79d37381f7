//! Character-level string helpers: reading a `&str` as characters, building a `String` from
//! characters, and the trimming / line / search operations the command-output parsers need.
use vstd::prelude::*;

verus! {

/// `String::push`: the contract claims the string's characters are the old ones followed by `c`.
#[verifier::external_body]
pub(crate) fn push_char(s: &mut String, c: char)
    ensures
        final(s)@ == old(s)@.push(c),
{
    s.push(c);
}

/// The characters of `s`.
pub fn chars_of(s: &str) -> (v: Vec<char>)
    ensures
        v@ == s@,
{
    let n = s.unicode_len();
    let mut v: Vec<char> = Vec::new();
    let mut i: usize = 0;
    while i < n
        invariant
            n == s@.len(),
            i <= n,
            v@ == s@.subrange(0, i as int),
        decreases n - i,
    {
        v.push(s.get_char(i));
        i = i + 1;
    }
    v
}

/// A `String` holding exactly the characters `cs`.
pub fn string_of(cs: &[char]) -> (s: String)
    ensures
        s@ == cs@,
{
    let mut s = String::new();
    let mut i: usize = 0;
    while i < cs.len()
        invariant
            i <= cs@.len(),
            s@ == cs@.subrange(0, i as int),
        decreases cs.len() - i,
    {
        push_char(&mut s, cs[i]);
        i = i + 1;
    }
    s
}

/// `a` followed by `b`, as a new `String`.
pub fn cat(a: &str, b: &str) -> (s: String)
    ensures
        s@ == a@ + b@,
{
    let s = String::from_str(a);
    s.concat(b)
}

/// ASCII whitespace as `str::trim` treats it (space, tab, newline, carriage return, form feed,
/// vertical tab) plus the other Unicode white-space characters.
pub open spec fn is_ws(c: char) -> bool {
    c == ' ' || c == '\t' || c == '\n' || c == '\r' || c == '\u{0B}' || c == '\u{0C}'
        || c == '\u{85}' || c == '\u{A0}' || c == '\u{1680}' || ('\u{2000}' <= c && c <= '\u{200A}')
        || c == '\u{2028}' || c == '\u{2029}' || c == '\u{202F}' || c == '\u{205F}' || c == '\u{3000}'
}

pub fn is_ws_exec(c: char) -> (b: bool)
    ensures
        b == is_ws(c),
{
    c == ' ' || c == '\t' || c == '\n' || c == '\r' || c == '\u{0B}' || c == '\u{0C}'
        || c == '\u{85}' || c == '\u{A0}' || c == '\u{1680}' || ('\u{2000}' <= c && c <= '\u{200A}')
        || c == '\u{2028}' || c == '\u{2029}' || c == '\u{202F}' || c == '\u{205F}' || c == '\u{3000}'
}

/// Number of leading white-space characters of `s`.
pub open spec fn leading_ws(s: Seq<char>) -> nat
    decreases s.len(),
{
    if s.len() > 0 && is_ws(s[0]) { 1 + leading_ws(s.drop_first()) } else { 0 }
}

/// Number of trailing white-space characters of `s`.
pub open spec fn trailing_ws(s: Seq<char>) -> nat
    decreases s.len(),
{
    if s.len() > 0 && is_ws(s.last()) { 1 + trailing_ws(s.drop_last()) } else { 0 }
}

/// `s` with leading white space removed.
pub open spec fn trim_start(s: Seq<char>) -> Seq<char> {
    s.subrange(leading_ws(s) as int, s.len() as int)
}

/// `s` with leading and trailing white space removed, as `str::trim` does.
pub open spec fn trim(s: Seq<char>) -> Seq<char> {
    let t = trim_start(s);
    t.subrange(0, t.len() - trailing_ws(t))
}

proof fn lemma_leading_ws_step(s: Seq<char>, i: int)
    requires
        0 <= i < s.len(),
        forall|k: int| 0 <= k < i ==> is_ws(s[k]),
        !is_ws(s[i]),
    ensures
        leading_ws(s) == i,
    decreases i,
{
    if i > 0 {
        assert(s.drop_first()[i - 1] == s[i]);
        lemma_leading_ws_step(s.drop_first(), i - 1);
    }
}

proof fn lemma_leading_ws_all(s: Seq<char>)
    requires
        forall|k: int| 0 <= k < s.len() ==> is_ws(s[k]),
    ensures
        leading_ws(s) == s.len(),
    decreases s.len(),
{
    if s.len() > 0 {
        lemma_leading_ws_all(s.drop_first());
    }
}

proof fn lemma_trailing_ws_step(s: Seq<char>, j: int)
    requires
        0 < j <= s.len(),
        forall|k: int| j <= k < s.len() ==> is_ws(s[k]),
        !is_ws(s[j - 1]),
    ensures
        trailing_ws(s) == s.len() - j,
    decreases s.len() - j,
{
    if j < s.len() {
        assert(s.drop_last()[j - 1] == s[j - 1]);
        lemma_trailing_ws_step(s.drop_last(), j);
    }
}

proof fn lemma_trailing_ws_all(s: Seq<char>)
    requires
        forall|k: int| 0 <= k < s.len() ==> is_ws(s[k]),
    ensures
        trailing_ws(s) == s.len(),
    decreases s.len(),
{
    if s.len() > 0 {
        lemma_trailing_ws_all(s.drop_last());
    }
}

/// The characters of `s` without leading and trailing white space.
pub fn trim_chars(s: &[char]) -> (t: Vec<char>)
    ensures
        t@ == trim(s@),
{
    let n = s.len();
    let mut i: usize = 0;
    while i < n && is_ws_exec(s[i])
        invariant
            n == s@.len(),
            i <= n,
            forall|k: int| 0 <= k < i ==> is_ws(s@[k]),
        decreases n - i,
    {
        i = i + 1;
    }
    proof {
        if i < n {
            lemma_leading_ws_step(s@, i as int);
        } else {
            lemma_leading_ws_all(s@);
        }
    }
    let mut j: usize = n;
    while j > i && is_ws_exec(s[j - 1])
        invariant
            n == s@.len(),
            i <= j <= n,
            forall|k: int| j <= k < n ==> is_ws(s@[k]),
        decreases j,
    {
        j = j - 1;
    }
    let ghost t0 = trim_start(s@);
    proof {
        assert(t0 =~= s@.subrange(i as int, n as int));
        if j > i {
            assert forall|k: int| j - i <= k < t0.len() implies is_ws(t0[k]) by {
                assert(t0[k] == s@[k + i]);
            }
            assert(t0[j - i - 1] == s@[j - 1]);
            lemma_trailing_ws_step(t0, j - i);
        } else {
            assert forall|k: int| 0 <= k < t0.len() implies is_ws(t0[k]) by {
                assert(t0[k] == s@[k + i]);
            }
            lemma_trailing_ws_all(t0);
        }
    }
    let mut t: Vec<char> = Vec::new();
    let mut k: usize = i;
    while k < j
        invariant
            n == s@.len(),
            i <= k <= j <= n,
            t@ == s@.subrange(i as int, k as int),
        decreases j - k,
    {
        t.push(s[k]);
        k = k + 1;
    }
    proof {
        assert(t@ =~= trim(s@));
    }
    t
}

/// `needle` occurs in `hay` starting at position `i`.
pub open spec fn occurs_at(hay: Seq<char>, needle: Seq<char>, i: int) -> bool {
    0 <= i && i + needle.len() <= hay.len() && hay.subrange(i, i + needle.len()) == needle
}

/// `needle` occurs somewhere in `hay`, as `str::contains` reports.
pub open spec fn contains(hay: Seq<char>, needle: Seq<char>) -> bool {
    exists|i: int| occurs_at(hay, needle, i)
}

/// Whether `needle` occurs in `hay` starting at `i`.
fn matches_at(hay: &[char], needle: &[char], i: usize) -> (b: bool)
    requires
        i + needle@.len() <= hay@.len(),
    ensures
        b == occurs_at(hay@, needle@, i as int),
{
    let mut k: usize = 0;
    while k < needle.len()
        invariant
            i + needle@.len() <= hay@.len(),
            hay@.len() == hay.len(),
            k <= needle@.len(),
            forall|m: int| 0 <= m < k ==> hay@[i + m] == needle@[m],
        decreases needle.len() - k,
    {
        if hay[i + k] != needle[k] {
            proof {
                assert(hay@.subrange(i as int, i + needle@.len())[k as int] != needle@[k as int]);
            }
            return false;
        }
        k = k + 1;
    }
    proof {
        assert(hay@.subrange(i as int, i + needle@.len()) =~= needle@);
    }
    true
}

/// Whether `needle` occurs in `hay`.
pub fn contains_chars(hay: &[char], needle: &[char]) -> (b: bool)
    ensures
        b == contains(hay@, needle@),
{
    if needle.len() > hay.len() {
        return false;
    }
    let last = hay.len() - needle.len();
    let mut i: usize = 0;
    loop
        invariant
            last == hay@.len() - needle@.len(),
            i <= last,
            forall|m: int| 0 <= m < i ==> !occurs_at(hay@, needle@, m),
        decreases last - i,
    {
        if matches_at(hay, needle, i) {
            return true;
        }
        if i == last {
            proof {
                assert forall|m: int| !occurs_at(hay@, needle@, m) by {
                    if 0 <= m < i {
                    } else if m == i {
                    } else {
                    }
                }
            }
            return false;
        }
        i = i + 1;
    }
}

/// Whether the text of `hay` contains the text of `needle`.
pub fn str_contains(hay: &str, needle: &str) -> (b: bool)
    ensures
        b == contains(hay@, needle@),
{
    let h = chars_of(hay);
    let n = chars_of(needle);
    contains_chars(h.as_slice(), n.as_slice())
}


/// The decimal digit character for `d` (0..=9).
pub open spec fn digit(d: nat) -> char {
    if d == 0 { '0' } else if d == 1 { '1' } else if d == 2 { '2' } else if d == 3 { '3' }
    else if d == 4 { '4' } else if d == 5 { '5' } else if d == 6 { '6' } else if d == 7 { '7' }
    else if d == 8 { '8' } else { '9' }
}

/// The decimal representation of `n`, without leading zeros.
pub open spec fn decimal(n: nat) -> Seq<char>
    decreases n,
{
    if n < 10 { seq![digit(n)] } else { decimal(n / 10).push(digit(n % 10)) }
}

/// A decimal representation is not empty and starts with a digit, never a `-`.
pub(crate) proof fn lemma_decimal_starts_with_digit(n: nat)
    ensures
        decimal(n).len() >= 1,
        decimal(n)[0] != '-',
    decreases n,
{
    if n >= 10 {
        lemma_decimal_starts_with_digit(n / 10);
    }
}

/// A decimal representation holds digits only.
pub(crate) proof fn lemma_decimal_all_digits(n: nat)
    ensures
        forall|k: int| 0 <= k < decimal(n).len() ==> is_digit(#[trigger] decimal(n)[k]),
    decreases n,
{
    if n >= 10 {
        lemma_decimal_all_digits(n / 10);
        assert forall|k: int| 0 <= k < decimal(n).len() implies is_digit(#[trigger] decimal(n)[k]) by {
            if k < decimal(n / 10).len() {
                assert(decimal(n)[k] == decimal(n / 10)[k]);
            }
        }
    }
}

/// Different numbers have different decimal representations.
pub(crate) proof fn lemma_decimal_injective(a: nat, b: nat)
    requires
        decimal(a) == decimal(b),
    ensures
        a == b,
    decreases a,
{
    if a >= 10 {
        lemma_decimal_starts_with_digit(a / 10);
    }
    if b >= 10 {
        lemma_decimal_starts_with_digit(b / 10);
    }
    if a >= 10 && b >= 10 {
        let da = decimal(a);
        assert(da.last() == digit(a % 10));
        assert(decimal(b).last() == digit(b % 10));
        assert(decimal(a / 10) == da.drop_last());
        assert(decimal(b / 10) == decimal(b).drop_last());
        lemma_decimal_injective(a / 10, b / 10);
        assert(a % 10 == b % 10);
        assert(a == 10 * (a / 10) + a % 10);
        assert(b == 10 * (b / 10) + b % 10);
    } else if a < 10 && b < 10 {
        assert(decimal(a)[0] == digit(a));
        assert(decimal(b)[0] == digit(b));
    } else if a < 10 {
        assert(decimal(a).len() == 1);
        assert(decimal(b).len() == decimal(b / 10).len() + 1);
    } else {
        assert(decimal(b).len() == 1);
        assert(decimal(a).len() == decimal(a / 10).len() + 1);
    }
}

/// Different integers have different signed decimal representations.
pub(crate) proof fn lemma_signed_decimal_injective(a: int, b: int)
    requires
        signed_decimal(a) == signed_decimal(b),
    ensures
        a == b,
{
    if a < 0 {
        lemma_decimal_starts_with_digit((-a) as nat);
    } else {
        lemma_decimal_starts_with_digit(a as nat);
    }
    if b < 0 {
        lemma_decimal_starts_with_digit((-b) as nat);
    } else {
        lemma_decimal_starts_with_digit(b as nat);
    }
    if a < 0 && b < 0 {
        assert(decimal((-a) as nat) == signed_decimal(a).drop_first());
        assert(decimal((-b) as nat) == signed_decimal(b).drop_first());
        lemma_decimal_injective((-a) as nat, (-b) as nat);
    } else if a >= 0 && b >= 0 {
        lemma_decimal_injective(a as nat, b as nat);
    } else if a < 0 {
        assert(signed_decimal(a)[0] == '-');
    } else {
        assert(signed_decimal(b)[0] == '-');
    }
}

fn digit_exec(d: u64) -> (c: char)
    requires
        d < 10,
    ensures
        c == digit(d as nat),
{
    if d == 0 { '0' } else if d == 1 { '1' } else if d == 2 { '2' } else if d == 3 { '3' }
    else if d == 4 { '4' } else if d == 5 { '5' } else if d == 6 { '6' } else if d == 7 { '7' }
    else if d == 8 { '8' } else { '9' }
}

/// `n` written in decimal, as `format!("{n}")` writes it.
pub fn u64_to_decimal(n: u64) -> (s: String)
    ensures
        s@ == decimal(n as nat),
    decreases n,
{
    if n < 10 {
        let mut s = String::new();
        push_char(&mut s, digit_exec(n));
        s
    } else {
        let mut s = u64_to_decimal(n / 10);
        push_char(&mut s, digit_exec(n % 10));
        s
    }
}

/// The decimal representation of a signed integer (a leading `-` when negative).
pub open spec fn signed_decimal(n: int) -> Seq<char> {
    if n < 0 { seq!['-'] + decimal((-n) as nat) } else { decimal(n as nat) }
}

/// `n` written in decimal, as `format!("{n}")` writes it.
pub fn i64_to_decimal(n: i64) -> (s: String)
    ensures
        s@ == signed_decimal(n as int),
{
    if n < 0 {
        let mag: u64 = if n == i64::MIN { 9223372036854775808u64 } else { (-n) as u64 };
        let digits = u64_to_decimal(mag);
        let mut s = String::new();
        push_char(&mut s, '-');
        let r = s.concat(digits.as_str());
        proof {
            assert(r@ =~= seq!['-'] + decimal((-(n as int)) as nat));
        }
        r
    } else {
        u64_to_decimal(n as u64)
    }
}

/// Whether two strings hold the same characters.
pub fn str_eq(a: &str, b: &str) -> (r: bool)
    ensures
        r == (a@ == b@),
{
    let x = chars_of(a);
    let y = chars_of(b);
    if x.len() != y.len() {
        return false;
    }
    let mut i: usize = 0;
    while i < x.len()
        invariant
            x@ == a@,
            y@ == b@,
            x@.len() == y@.len(),
            i <= x@.len(),
            forall|k: int| 0 <= k < i ==> x@[k] == y@[k],
        decreases x.len() - i,
    {
        if x[i] != y[i] {
            return false;
        }
        i = i + 1;
    }
    proof {
        assert(x@ =~= y@);
    }
    true
}


/// The pieces of `s` between `\n` characters (an empty `s` is one empty piece).
pub open spec fn pieces(s: Seq<char>) -> Seq<Seq<char>>
    decreases s.len(),
{
    if s.len() == 0 {
        seq![Seq::empty()]
    } else {
        let p = pieces(s.drop_last());
        if s.last() == '\n' {
            p.push(Seq::empty())
        } else {
            p.update(p.len() - 1, p.last().push(s.last()))
        }
    }
}

/// `line` without one trailing `\r`.
pub open spec fn strip_cr(line: Seq<char>) -> Seq<char> {
    if line.len() > 0 && line.last() == '\r' { line.drop_last() } else { line }
}

/// The lines of `s` as `str::lines` yields them: split at `\n`, no final empty line after a
/// trailing `\n`, and one `\r` removed from the end of each line that a `\n` ends.
pub open spec fn lines(s: Seq<char>) -> Seq<Seq<char>> {
    let p = pieces(s);
    let q = if p.last().len() == 0 { p.drop_last() } else { p };
    Seq::new(q.len(), |i: int| if i + 1 < p.len() { strip_cr(q[i]) } else { q[i] })
}

/// The views of a sequence of strings.
pub open spec fn strs(v: Seq<String>) -> Seq<Seq<char>> {
    v.map_values(|s: String| s@)
}

/// The views of a vector of character vectors.
pub open spec fn views(v: Seq<Vec<char>>) -> Seq<Seq<char>> {
    v.map_values(|x: Vec<char>| x@)
}

/// `line` without one trailing `\r`.
fn strip_cr_chars(line: Vec<char>) -> (r: Vec<char>)
    ensures
        r@ == strip_cr(line@),
{
    let mut line = line;
    if line.len() > 0 && line[line.len() - 1] == '\r' {
        line.pop();
    }
    line
}

/// The lines of `s` (see [`lines`]).
pub fn lines_of(s: &str) -> (r: Vec<Vec<char>>)
    ensures
        views(r@) == lines(s@),
{
    let cs = chars_of(s);
    let mut ps: Vec<Vec<char>> = Vec::new();
    ps.push(Vec::new());
    proof {
        assert(views(ps@) =~= pieces(cs@.subrange(0, 0)));
    }
    let mut i: usize = 0;
    while i < cs.len()
        invariant
            cs@ == s@,
            i <= cs@.len(),
            views(ps@) == pieces(cs@.subrange(0, i as int)),
            ps@.len() >= 1,
        decreases cs.len() - i,
    {
        let c = cs[i];
        let ghost before = cs@.subrange(0, i as int);
        proof {
            assert(cs@.subrange(0, i + 1).drop_last() =~= before);
            assert(cs@.subrange(0, i + 1).last() == c);
        }
        if c == '\n' {
            ps.push(Vec::new());
            proof {
                assert(views(ps@) =~= pieces(before).push(Seq::empty()));
            }
        } else {
            let mut last = ps.pop().unwrap();
            last.push(c);
            ps.push(last);
            proof {
                let p = pieces(before);
                assert(views(ps@) =~= p.update(p.len() - 1, p.last().push(c)));
            }
        }
        i = i + 1;
    }
    proof {
        assert(cs@.subrange(0, cs@.len() as int) =~= cs@);
    }
    let n = ps.len();
    if ps[n - 1].len() == 0 {
        ps.pop();
    }
    let ghost q = views(ps@);
    proof {
        assert(q =~= (if pieces(s@).last().len() == 0 { pieces(s@).drop_last() } else { pieces(s@) }));
    }
    let mut out: Vec<Vec<char>> = Vec::new();
    let mut src = ps;
    let ghost srcv = src@;
    let mut rev: Vec<Vec<char>> = Vec::new();
    while src.len() > 0
        invariant
            n == pieces(s@).len(),
            q == views(srcv),
            q == (if pieces(s@).last().len() == 0 { pieces(s@).drop_last() } else { pieces(s@) }),
            lines(s@).len() == srcv.len(),
            src@.len() + rev@.len() == srcv.len(),
            forall|j: int| 0 <= j < src@.len() ==> src@[j] == srcv[j],
            forall|j: int| 0 <= j < rev@.len() ==> rev@[j]@ == lines(s@)[srcv.len() - 1 - j],
        decreases src.len(),
    {
        let k = src.len() - 1;
        let l = src.pop().unwrap();
        proof {
            assert(l@ == q[k as int]);
        }
        if k + 1 < n {
            rev.push(strip_cr_chars(l));
        } else {
            rev.push(l);
        }
        proof {
            assert(rev@.last()@ == lines(s@)[k as int]);
        }
    }
    while rev.len() > 0
        invariant
            lines(s@).len() == srcv.len(),
            rev@.len() + out@.len() == srcv.len(),
            forall|j: int| 0 <= j < rev@.len() ==> rev@[j]@ == lines(s@)[srcv.len() - 1 - j],
            forall|j: int| 0 <= j < out@.len() ==> out@[j]@ == lines(s@)[j],
        decreases rev.len(),
    {
        let l = rev.pop().unwrap();
        out.push(l);
    }
    proof {
        assert(views(out@) =~= lines(s@));
    }
    out
}

/// Whether `s` begins with `prefix`; if so, the rest.
pub fn strip_prefix_chars(s: &[char], prefix: &str) -> (r: Option<Vec<char>>)
    ensures
        match r {
            Some(rest) => prefix@.len() <= s@.len() && s@.subrange(0, prefix@.len() as int) == prefix@
                && rest@ == s@.subrange(prefix@.len() as int, s@.len() as int),
            None => !(prefix@.len() <= s@.len() && s@.subrange(0, prefix@.len() as int) == prefix@),
        },
{
    let p = chars_of(prefix);
    if p.len() > s.len() {
        return None;
    }
    let mut i: usize = 0;
    while i < p.len()
        invariant
            p@ == prefix@,
            p@.len() <= s@.len(),
            i <= p@.len(),
            forall|k: int| 0 <= k < i ==> s@[k] == p@[k],
        decreases p.len() - i,
    {
        if s[i] != p[i] {
            proof {
                assert(s@.subrange(0, p@.len() as int)[i as int] != p@[i as int]);
            }
            return None;
        }
        i = i + 1;
    }
    proof {
        assert(s@.subrange(0, p@.len() as int) =~= p@);
    }
    let mut rest: Vec<char> = Vec::new();
    let mut k: usize = p.len();
    while k < s.len()
        invariant
            p@.len() <= k <= s@.len(),
            rest@ == s@.subrange(p@.len() as int, k as int),
        decreases s.len() - k,
    {
        rest.push(s[k]);
        k = k + 1;
    }
    Some(rest)
}

/// Whether the characters `a` equal the text `b`.
pub fn chars_eq_str(a: &[char], b: &str) -> (r: bool)
    ensures
        r == (a@ == b@),
{
    let s = string_of(a);
    str_eq(s.as_str(), b)
}


/// The upper-case form `str::to_uppercase` gives.
pub uninterp spec fn unicode_uppercase(s: Seq<char>) -> Seq<char>;

/// `str::to_uppercase`: the contract claims only that the result is the named upper-case form of
/// the input, the same for the same text.
#[verifier::external_body]
pub(crate) fn to_upper(s: &str) -> (r: String)
    ensures
        r@ == unicode_uppercase(s@),
{
    s.to_uppercase()
}

/// The lower-case form `str::to_lowercase` gives.
pub uninterp spec fn unicode_lowercase(s: Seq<char>) -> Seq<char>;

/// `str::to_lowercase`: the contract claims only that the result is the named lower-case form of
/// the input, the same for the same text.
#[verifier::external_body]
pub(crate) fn to_lower(s: &str) -> (r: String)
    ensures
        r@ == unicode_lowercase(s@),
{
    s.to_lowercase()
}

/// `s` starts with `p`.
pub open spec fn starts_with(s: Seq<char>, p: Seq<char>) -> bool {
    p.len() <= s.len() && s.subrange(0, p.len() as int) == p
}

/// `s` after its prefix `p`.
pub open spec fn after(s: Seq<char>, p: Seq<char>) -> Seq<char> {
    s.subrange(p.len() as int, s.len() as int)
}

/// The first `n` characters of `s` (all of it when shorter).
pub open spec fn take_chars(s: Seq<char>, n: nat) -> Seq<char> {
    if s.len() <= n { s } else { s.subrange(0, n as int) }
}

/// The first `n` characters of `s`, as `s.chars().take(n).collect()` gives.
pub fn take_chars_exec(s: &[char], n: usize) -> (r: String)
    ensures
        r@ == take_chars(s@, n as nat),
{
    let m = if s.len() <= n { s.len() } else { n };
    let mut out = String::new();
    let mut i: usize = 0;
    while i < m
        invariant
            m <= s@.len(),
            m == if s@.len() <= n { s@.len() } else { n as nat },
            i <= m,
            out@ == s@.subrange(0, i as int),
        decreases m - i,
    {
        push_char(&mut out, s[i]);
        i = i + 1;
    }
    proof {
        if s@.len() <= n {
            assert(s@.subrange(0, m as int) =~= s@);
        }
    }
    out
}


/// Splitting into white-space separated words: (finished words, word in progress).
pub open spec fn words_acc(s: Seq<char>) -> (Seq<Seq<char>>, Seq<char>)
    decreases s.len(),
{
    if s.len() == 0 {
        (Seq::empty(), Seq::empty())
    } else {
        let (w, cur) = words_acc(s.drop_last());
        if is_ws(s.last()) {
            if cur.len() > 0 { (w.push(cur), Seq::empty()) } else { (w, cur) }
        } else {
            (w, cur.push(s.last()))
        }
    }
}

/// The words of `s`, as `str::split_whitespace` yields them.
pub open spec fn words(s: Seq<char>) -> Seq<Seq<char>> {
    let (w, cur) = words_acc(s);
    if cur.len() > 0 { w.push(cur) } else { w }
}

/// The words of `s`.
pub fn words_of(s: &[char]) -> (r: Vec<Vec<char>>)
    ensures
        views(r@) == words(s@),
{
    let mut w: Vec<Vec<char>> = Vec::new();
    let mut cur: Vec<char> = Vec::new();
    let mut i: usize = 0;
    while i < s.len()
        invariant
            i <= s@.len(),
            (views(w@), cur@) == words_acc(s@.subrange(0, i as int)),
        decreases s.len() - i,
    {
        let c = s[i];
        proof {
            assert(s@.subrange(0, i + 1).drop_last() =~= s@.subrange(0, i as int));
            assert(s@.subrange(0, i + 1).last() == c);
        }
        if is_ws_exec(c) {
            if cur.len() > 0 {
                let done = cur;
                w.push(done);
                cur = Vec::new();
                proof {
                    assert(views(w@) =~= words_acc(s@.subrange(0, i as int)).0.push(done@));
                }
            }
        } else {
            cur.push(c);
        }
        i = i + 1;
    }
    proof {
        assert(s@.subrange(0, s@.len() as int) =~= s@);
    }
    if cur.len() > 0 {
        let last = cur;
        let ghost before = views(w@);
        w.push(last);
        proof {
            assert(views(w@) =~= before.push(last@));
        }
    }
    w
}

/// The value of a decimal digit character.
pub open spec fn digit_value(c: char) -> int {
    (c as int) - 48
}

/// `c` is an ASCII digit.
pub open spec fn is_digit(c: char) -> bool {
    48 <= (c as int) <= 57
}

/// The number the decimal digits `s` spell.
pub open spec fn digits_value(s: Seq<char>) -> int
    decreases s.len(),
{
    if s.len() == 0 { 0 } else { digits_value(s.drop_last()) * 10 + digit_value(s.last()) }
}

/// What `str::parse::<u64>` gives: an optional `+`, then one or more ASCII digits, whose value fits.
pub open spec fn parse_u64_spec(s: Seq<char>) -> Option<u64> {
    parse_digits(if s.len() > 0 && s[0] == '+' { s.drop_first() } else { s })
}

/// One or more ASCII digits whose value fits a `u64`.
pub open spec fn parse_digits(d: Seq<char>) -> Option<u64> {
    if d.len() > 0 && (forall|k: int| 0 <= k < d.len() ==> is_digit(#[trigger] d[k])) && digits_value(d) <= u64::MAX {
        Some(digits_value(d) as u64)
    } else {
        None
    }
}

proof fn lemma_digits_nonneg(s: Seq<char>)
    requires
        forall|k: int| 0 <= k < s.len() ==> is_digit(#[trigger] s[k]),
    ensures
        digits_value(s) >= 0,
    decreases s.len(),
{
    if s.len() > 0 {
        lemma_digits_nonneg(s.drop_last());
    }
}

proof fn lemma_digits_monotone(s: Seq<char>, i: int)
    requires
        0 <= i <= s.len(),
        forall|k: int| 0 <= k < s.len() ==> is_digit(#[trigger] s[k]),
    ensures
        digits_value(s.subrange(0, i)) <= digits_value(s),
    decreases s.len() - i,
{
    if i < s.len() {
        lemma_digits_monotone(s, i + 1);
        let t = s.subrange(0, i + 1);
        assert(t.drop_last() =~= s.subrange(0, i));
        lemma_digits_nonneg(s.subrange(0, i));
        assert(is_digit(s[i]));
        assert(t.last() == s[i]);
        assert(digit_value(t.last()) >= 0);
    } else {
        assert(s.subrange(0, s.len() as int) =~= s);
    }
}

/// The value of `c` when it is an ASCII digit.
fn digit_of(c: char) -> (r: Option<u64>)
    ensures
        match r {
            Some(d) => is_digit(c) && d == digit_value(c),
            None => !is_digit(c),
        },
{
    if c == '0' { Some(0) } else if c == '1' { Some(1) } else if c == '2' { Some(2) }
    else if c == '3' { Some(3) } else if c == '4' { Some(4) } else if c == '5' { Some(5) }
    else if c == '6' { Some(6) } else if c == '7' { Some(7) } else if c == '8' { Some(8) }
    else if c == '9' { Some(9) } else { None }
}

/// The value of one or more ASCII digits, `None` on any other character or on overflow.
pub fn parse_digits_exec(d: &[char]) -> (r: Option<u64>)
    ensures
        r == parse_digits(d@),
{
    if d.len() == 0 {
        return None;
    }
    let mut v: u64 = 0;
    let mut i: usize = 0;
    while i < d.len()
        invariant
            i <= d@.len(),
            d@.len() > 0,
            forall|k: int| 0 <= k < i ==> is_digit(#[trigger] d@[k]),
            v == digits_value(d@.subrange(0, i as int)),
        decreases d.len() - i,
    {
        let c = d[i];
        let ghost t = d@.subrange(0, i + 1);
        proof {
            assert(t.drop_last() =~= d@.subrange(0, i as int));
            assert(t.last() == c);
        }
        let dv: u64 = match digit_of(c) {
            Some(x) => x,
            None => {
                proof {
                    assert(!is_digit(d@[i as int]));
                }
                return None;
            },
        };
        if v > (u64::MAX - dv) / 10 {
            proof {
                assert(digits_value(t) == v * 10 + dv);
                assert(v * 10 + dv > u64::MAX) by (nonlinear_arith)
                    requires
                        v > (u64::MAX - dv) / 10,
                        dv <= 9,
                ;
                if forall|k: int| 0 <= k < d@.len() ==> is_digit(#[trigger] d@[k]) {
                    lemma_digits_monotone(d@, i + 1);
                }
            }
            return None;
        }
        v = v * 10 + dv;
        i = i + 1;
    }
    proof {
        assert(d@.subrange(0, d@.len() as int) =~= d@);
    }
    Some(v)
}

/// `str::parse::<u64>` written out: `None` on anything but an optional `+` and digits, or on overflow.
pub fn parse_u64(s: &[char]) -> (r: Option<u64>)
    ensures
        r == parse_u64_spec(s@),
{
    if s.len() > 0 && s[0] == '+' {
        let mut d: Vec<char> = Vec::new();
        let mut i: usize = 1;
        while i < s.len()
            invariant
                1 <= i <= s@.len(),
                d@ == s@.subrange(1, i as int),
            decreases s.len() - i,
        {
            d.push(s[i]);
            i = i + 1;
        }
        proof {
            assert(d@ =~= s@.drop_first());
        }
        parse_digits_exec(d.as_slice())
    } else {
        parse_digits_exec(s)
    }
}


/// The concatenation of `ps`.
pub open spec fn concat_all(ps: Seq<Seq<char>>) -> Seq<char>
    decreases ps.len(),
{
    if ps.len() == 0 { Seq::empty() } else { concat_all(ps.drop_last()) + ps.last() }
}

/// The texts of string slices.
pub open spec fn texts(ps: Seq<&str>) -> Seq<Seq<char>> {
    ps.map_values(|p: &str| p@)
}

/// The concatenation of `parts`.
pub fn join_parts(parts: &[&str]) -> (s: String)
    ensures
        s@ == concat_all(texts(parts@)),
{
    let mut s = String::new();
    let mut i: usize = 0;
    while i < parts.len()
        invariant
            i <= parts@.len(),
            s@ == concat_all(texts(parts@.subrange(0, i as int))),
        decreases parts.len() - i,
    {
        proof {
            assert(texts(parts@.subrange(0, i + 1)).drop_last() =~= texts(parts@.subrange(0, i as int)));
        }
        s.append(parts[i]);
        i = i + 1;
    }
    proof {
        assert(parts@.subrange(0, parts@.len() as int) =~= parts@);
    }
    s
}


/// `s` without its trailing run of `\n` and `\r` characters, as
/// `s.trim_end_matches(['\n', '\r'])` gives.
pub open spec fn strip_line_end(s: Seq<char>) -> Seq<char>
    decreases s.len(),
{
    if s.len() > 0 && (s.last() == '\n' || s.last() == '\r') { strip_line_end(s.drop_last()) } else { s }
}

pub fn strip_line_end_exec(s: &str) -> (r: String)
    ensures
        r@ == strip_line_end(s@),
{
    let cs = chars_of(s);
    let mut n: usize = cs.len();
    proof {
        assert(cs@.subrange(0, cs@.len() as int) =~= cs@);
    }
    while n > 0 && (cs[n - 1] == '\n' || cs[n - 1] == '\r')
        invariant
            n <= cs@.len(),
            cs@ == s@,
            strip_line_end(cs@.subrange(0, n as int)) == strip_line_end(s@),
        decreases n,
    {
        proof {
            assert(cs@.subrange(0, n as int).drop_last() =~= cs@.subrange(0, n - 1));
        }
        n = n - 1;
    }
    proof {
        if n == cs@.len() {
            assert(cs@.subrange(0, n as int) =~= cs@);
        }
    }
    take_chars_exec(cs.as_slice(), n)
}

/// `s` with every single quote doubled, as a PowerShell single-quoted literal needs.
pub open spec fn double_quotes(s: Seq<char>) -> Seq<char>
    decreases s.len(),
{
    if s.len() == 0 {
        s
    } else if s.last() == '\'' {
        double_quotes(s.drop_last()) + seq!['\'', '\'']
    } else {
        double_quotes(s.drop_last()).push(s.last())
    }
}

pub fn double_quotes_exec(s: &str) -> (r: String)
    ensures
        r@ == double_quotes(s@),
{
    let cs = chars_of(s);
    let mut out = String::new();
    let mut i: usize = 0;
    while i < cs.len()
        invariant
            i <= cs@.len(),
            cs@ == s@,
            out@ == double_quotes(cs@.subrange(0, i as int)),
        decreases cs.len() - i,
    {
        proof {
            assert(cs@.subrange(0, i + 1).drop_last() =~= cs@.subrange(0, i as int));
        }
        let ghost before = out@;
        push_char(&mut out, cs[i]);
        if cs[i] == '\'' {
            push_char(&mut out, '\'');
            proof {
                assert(out@ =~= before + seq!['\'', '\'']);
            }
        }
        i = i + 1;
    }
    proof {
        assert(cs@.subrange(0, cs@.len() as int) =~= cs@);
    }
    out
}

} // verus!

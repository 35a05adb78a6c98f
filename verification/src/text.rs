//! Character-level helpers on strings, stated over the `Seq<char>` view.
use vstd::prelude::*;
use vstd::string::*;

verus! {

/// What `str::len` returns for `s`: the number of bytes of its UTF-8 encoding.
pub open spec fn byte_len(s: Seq<char>) -> usize {
    vstd::utf8::encode_utf8(s).len() as usize
}

/// `p` is a prefix of `s`.
pub open spec fn is_prefix(p: Seq<char>, s: Seq<char>) -> bool {
    p.len() <= s.len() && s.subrange(0, p.len() as int) == p
}

/// `p` is a suffix of `s`.
pub open spec fn is_suffix(p: Seq<char>, s: Seq<char>) -> bool {
    p.len() <= s.len() && s.subrange(s.len() - p.len(), s.len() as int) == p
}

/// The index of the first occurrence of `c` in `s`, if any.
pub open spec fn first_index_of(s: Seq<char>, c: char) -> Option<int> {
    if exists|i: int| 0 <= i < s.len() && s[i] == c {
        Some(choose|i: int| 0 <= i < s.len() && s[i] == c && forall|j: int| 0 <= j < i ==> s[j] != c)
    } else {
        None
    }
}

/// ASCII case folding of one character: `A`..`Z` become `a`..`z`, all else is kept.
pub open spec fn ascii_lower(c: char) -> char {
    if 'A' <= c <= 'Z' {
        ((c as u32) + 32) as char
    } else {
        c
    }
}

/// Two sequences are equal up to ASCII case.
pub open spec fn eq_ascii_fold(a: Seq<char>, b: Seq<char>) -> bool {
    a.len() == b.len() && forall|i: int| 0 <= i < a.len() ==> ascii_lower(a[i]) == ascii_lower(b[i])
}

/// Equality of two strings by their characters.
pub fn same_text(a: &str, b: &str) -> (res: bool)
    ensures
        res == (a@ == b@),
{
    let x = a.to_owned();
    let y = b.to_owned();
    x == y
}

/// Whether `s` begins with `p`.
pub fn starts_with(s: &str, p: &str) -> (res: bool)
    ensures
        res == is_prefix(p@, s@),
{
    let n = s.unicode_len();
    let m = p.unicode_len();
    if m > n {
        return false;
    }
    let mut i: usize = 0;
    while i < m
        invariant
            n == s@.len(),
            m == p@.len(),
            m <= n,
            i <= m,
            forall|j: int| 0 <= j < i ==> s@[j] == p@[j],
        decreases m - i,
    {
        if s.get_char(i) != p.get_char(i) {
            assert(s@.subrange(0, m as int)[i as int] != p@[i as int]);
            return false;
        }
        i = i + 1;
    }
    assert(s@.subrange(0, m as int) =~= p@);
    true
}

/// Whether `s` ends with `p`.
pub fn ends_with(s: &str, p: &str) -> (res: bool)
    ensures
        res == is_suffix(p@, s@),
{
    let n = s.unicode_len();
    let m = p.unicode_len();
    if m > n {
        return false;
    }
    let off = n - m;
    let mut i: usize = 0;
    while i < m
        invariant
            n == s@.len(),
            m == p@.len(),
            m <= n,
            off == n - m,
            i <= m,
            forall|j: int| 0 <= j < i ==> s@[off + j] == p@[j],
        decreases m - i,
    {
        if s.get_char(off + i) != p.get_char(i) {
            assert(s@.subrange(off as int, n as int)[i as int] != p@[i as int]);
            return false;
        }
        i = i + 1;
    }
    assert(s@.subrange(off as int, n as int) =~= p@);
    true
}

/// The index of the first `c` in `s`.
pub fn index_of_char(s: &str, c: char) -> (res: Option<usize>)
    ensures
        match res {
            Some(i) => i < s@.len() && s@[i as int] == c && forall|j: int| 0 <= j < i ==> s@[j] != c,
            None => forall|j: int| 0 <= j < s@.len() ==> s@[j] != c,
        },
        res matches Some(i) ==> first_index_of(s@, c) == Some(i as int),
        res is None ==> first_index_of(s@, c) is None,
{
    let n = s.unicode_len();
    let mut i: usize = 0;
    while i < n
        invariant
            n == s@.len(),
            i <= n,
            forall|j: int| 0 <= j < i ==> s@[j] != c,
        decreases n - i,
    {
        if s.get_char(i) == c {
            proof {
                let k = choose|k: int| 0 <= k < s@.len() && s@[k] == c && forall|j: int| 0 <= j < k ==> s@[j] != c;
                assert(k == i as int) by {
                    if k < i as int {
                    } else if k > i as int {
                        assert(s@[i as int] == c);
                    }
                }
            }
            return Some(i);
        }
        i = i + 1;
    }
    None
}

/// The characters of `s` from `from` up to `to`, as a new string.
pub fn slice(s: &str, from: usize, to: usize) -> (res: String)
    requires
        from <= to <= s@.len(),
    ensures
        res@ == s@.subrange(from as int, to as int),
{
    let part = s.substring_char(from, to);
    String::from_str(part)
}

/// `a` followed by `b`, as a new string.
pub fn join2(a: &str, b: &str) -> (res: String)
    ensures
        res@ == a@ + b@,
{
    let mut out = String::from_str(a);
    out.append(b);
    out
}

/// One character folded to ASCII lower case.
pub fn ascii_lower_char(c: char) -> (res: char)
    ensures
        res == ascii_lower(c),
{
    if 'A' <= c && c <= 'Z' {
        let b: u8 = c as u8;
        assert(b == c as u32);
        ((b + 32) as char)
    } else {
        c
    }
}

/// ASCII case-insensitive comparison, as `str::eq_ignore_ascii_case` does it.
pub fn eq_ignore_ascii_case(a: &str, b: &str) -> (res: bool)
    ensures
        res == eq_ascii_fold(a@, b@),
{
    let n = a.unicode_len();
    let m = b.unicode_len();
    if n != m {
        return false;
    }
    let mut i: usize = 0;
    while i < n
        invariant
            n == a@.len(),
            m == b@.len(),
            n == m,
            i <= n,
            forall|j: int| 0 <= j < i ==> ascii_lower(a@[j]) == ascii_lower(b@[j]),
        decreases n - i,
    {
        if ascii_lower_char(a.get_char(i)) != ascii_lower_char(b.get_char(i)) {
            return false;
        }
        i = i + 1;
    }
    true
}


/// The character of a decimal digit.
pub open spec fn digit_char(d: nat) -> char {
    ((48 + d) as u32) as char
}

/// The decimal representation of `n`, without leading zeros.
pub open spec fn decimal(n: nat) -> Seq<char>
    decreases n,
{
    if n < 10 {
        seq![digit_char(n)]
    } else {
        decimal(n / 10).push(digit_char(n % 10))
    }
}

/// The decimal representation of `n`, padded with a leading zero to two digits.
pub open spec fn decimal2(n: nat) -> Seq<char> {
    if n < 10 {
        seq!['0'] + decimal(n)
    } else {
        decimal(n)
    }
}

fn digit_text(d: u64) -> (res: String)
    requires
        d < 10,
    ensures
        res@ == seq![digit_char(d as nat)],
{
    let digits = "0123456789";
    proof {
        reveal_strlit("0123456789");
    }
    let part = digits.substring_char(d as usize, (d + 1) as usize);
    proof {
        assert(digits@.subrange(d as int, d + 1) =~= seq![digits@[d as int]]);
        assert(digits@[d as int] == digit_char(d as nat)) by {
            assert(d == 0 || d == 1 || d == 2 || d == 3 || d == 4 || d == 5 || d == 6 || d == 7
                || d == 8 || d == 9);
        }
    }
    String::from_str(part)
}

/// `n` written in decimal, as `format!("{}", n)` writes it.
pub fn decimal_text(n: u64) -> (res: String)
    ensures
        res@ == decimal(n as nat),
    decreases n,
{
    if n < 10 {
        digit_text(n)
    } else {
        let mut out = decimal_text(n / 10);
        let last = digit_text(n % 10);
        out.append(last.as_str());
        out
    }
}

/// `n` written in decimal with at least two digits, as `format!("{:02}", n)` writes it.
pub fn decimal2_text(n: u64) -> (res: String)
    ensures
        res@ == decimal2(n as nat),
{
    if n < 10 {
        let mut out = String::from_str("0");
        proof {
            reveal_strlit("0");
        }
        let d = decimal_text(n);
        out.append(d.as_str());
        out
    } else {
        decimal_text(n)
    }
}

/// `p` occurs in `s` starting at index `i`.
pub open spec fn occurs_at(s: Seq<char>, p: Seq<char>, i: int) -> bool {
    0 <= i && i + p.len() <= s.len() && s.subrange(i, i + p.len()) == p
}

/// `p` occurs somewhere in `s`.
pub open spec fn contains_seq(s: Seq<char>, p: Seq<char>) -> bool {
    exists|i: int| occurs_at(s, p, i)
}

/// Every occurrence of `from` in `s`, scanned left to right without overlap, replaced by `to`,
/// as `str::replace` does it for a non-empty pattern.
pub open spec fn replace_all(s: Seq<char>, from: Seq<char>, to: Seq<char>) -> Seq<char>
    decreases s.len(),
{
    if s.len() == 0 {
        seq![]
    } else if from.len() > 0 && is_prefix(from, s) {
        to + replace_all(s.skip(from.len() as int), from, to)
    } else {
        seq![s[0]] + replace_all(s.skip(1), from, to)
    }
}

/// Whether `p` occurs in `s` at index `i`.
pub fn occurs_at_index(s: &str, p: &str, i: usize) -> (res: bool)
    requires
        i <= s@.len(),
    ensures
        res == occurs_at(s@, p@, i as int),
{
    let n = s.unicode_len();
    let m = p.unicode_len();
    if m > n - i {
        return false;
    }
    let mut j: usize = 0;
    while j < m
        invariant
            n == s@.len(),
            m == p@.len(),
            i + m <= n,
            j <= m,
            forall|k: int| 0 <= k < j ==> s@[i + k] == p@[k],
        decreases m - j,
    {
        if s.get_char(i + j) != p.get_char(j) {
            assert(s@.subrange(i as int, i + m)[j as int] != p@[j as int]);
            return false;
        }
        j = j + 1;
    }
    assert(s@.subrange(i as int, i + m) =~= p@);
    true
}

/// Whether `p` occurs anywhere in `s`, as `str::contains` answers it.
pub fn contains(s: &str, p: &str) -> (res: bool)
    ensures
        res == contains_seq(s@, p@),
{
    let n = s.unicode_len();
    let mut i: usize = 0;
    while i < n
        invariant
            n == s@.len(),
            i <= n,
            forall|k: int| 0 <= k < i ==> !occurs_at(s@, p@, k),
        decreases n - i,
    {
        if occurs_at_index(s, p, i) {
            return true;
        }
        i = i + 1;
    }
    if occurs_at_index(s, p, n) {
        return true;
    }
    assert forall|k: int| !occurs_at(s@, p@, k) by {
        if 0 <= k && k + p@.len() <= s@.len() {
            assert(k < n || k == n);
        }
    }
    false
}

proof fn lemma_skip_skip(s: Seq<char>, a: int, b: int)
    requires
        0 <= a,
        0 <= b,
        a + b <= s.len(),
    ensures
        s.skip(a).skip(b) == s.skip(a + b),
{
    assert(s.skip(a).skip(b) =~= s.skip(a + b));
}

/// `s` with every occurrence of `from` replaced by `to`, as `str::replace` does it.
pub fn replace(s: &str, from: &str, to: &str) -> (res: String)
    requires
        from@.len() > 0,
    ensures
        res@ == replace_all(s@, from@, to@),
{
    let n = s.unicode_len();
    let m = from.unicode_len();
    let mut out = String::new();
    let mut i: usize = 0;
    assert(s@.skip(0) =~= s@);
    assert(out@ + s@ =~= s@);
    while i < n
        invariant
            n == s@.len(),
            m == from@.len(),
            m > 0,
            i <= n,
            out@ + replace_all(s@.skip(i as int), from@, to@) == replace_all(s@, from@, to@),
        decreases n - i,
    {
        let ghost rest = s@.skip(i as int);
        if occurs_at_index(s, from, i) {
            proof {
                assert(rest.subrange(0, m as int) =~= s@.subrange(i as int, i + m));
                lemma_skip_skip(s@, i as int, m as int);
                assert(replace_all(rest, from@, to@) == to@ + replace_all(rest.skip(m as int), from@, to@));
                assert(out@ + to@ + replace_all(s@.skip(i + m), from@, to@) == out@ + (to@ + replace_all(s@.skip(i + m), from@, to@)));
            }
            out.append(to);
            i = i + m;
        } else {
            let one = slice(s, i, i + 1);
            proof {
                if is_prefix(from@, rest) {
                    assert(rest.subrange(0, m as int) =~= s@.subrange(i as int, i + m));
                }
                lemma_skip_skip(s@, i as int, 1);
                assert(rest[0] == s@[i as int]);
                assert(one@ =~= seq![rest[0]]);
                assert(out@ + one@ + replace_all(s@.skip(i + 1), from@, to@) == out@ + (one@ + replace_all(s@.skip(i + 1), from@, to@)));
            }
            out.append(one.as_str());
            i = i + 1;
        }
    }
    proof {
        assert(s@.skip(n as int).len() == 0);
        assert(out@ + seq![] =~= out@);
    }
    out
}


/// What `str::to_lowercase` makes of `s`: the Unicode lower-case mapping of each character.
pub uninterp spec fn spec_to_lowercase(s: Seq<char>) -> Seq<char>;

/// A character of the Unicode `White_Space` property: what `str::trim` removes.
pub open spec fn white_space(c: char) -> bool {
    ||| '\u{9}' <= c <= '\u{d}'
    ||| c == ' '
    ||| c == '\u{85}'
    ||| c == '\u{a0}'
    ||| c == '\u{1680}'
    ||| '\u{2000}' <= c <= '\u{200a}'
    ||| c == '\u{2028}'
    ||| c == '\u{2029}'
    ||| c == '\u{202f}'
    ||| c == '\u{205f}'
    ||| c == '\u{3000}'
}

/// `s` without its leading white space.
pub open spec fn trim_start_text(s: Seq<char>) -> Seq<char>
    decreases s.len(),
{
    if s.len() > 0 && white_space(s[0]) {
        trim_start_text(s.drop_first())
    } else {
        s
    }
}

/// `s` without its trailing white space.
pub open spec fn trim_end_text(s: Seq<char>) -> Seq<char>
    decreases s.len(),
{
    if s.len() > 0 && white_space(s.last()) {
        trim_end_text(s.drop_last())
    } else {
        s
    }
}

/// `s` without its leading and trailing white space, as `str::trim` returns it.
pub open spec fn trim_text(s: Seq<char>) -> Seq<char> {
    trim_end_text(trim_start_text(s))
}

/// Whether `c` is white space.
pub fn is_white_space(c: char) -> (ws: bool)
    ensures
        ws == white_space(c),
{
    ('\u{9}' <= c && c <= '\u{d}') || c == ' ' || c == '\u{85}' || c == '\u{a0}' || c == '\u{1680}' || (
    '\u{2000}' <= c && c <= '\u{200a}') || c == '\u{2028}' || c == '\u{2029}' || c == '\u{202f}' || c
        == '\u{205f}' || c == '\u{3000}'
}

/// `s` with leading and trailing white space removed, as a new string.
pub fn trim(s: &str) -> (res: String)
    ensures
        res@ == trim_text(s@),
{
    let n = s.unicode_len();
    let mut i: usize = 0;
    assert(s@.skip(0) =~= s@);
    loop
        invariant
            n == s@.len(),
            i <= n,
            trim_start_text(s@.skip(i as int)) == trim_start_text(s@),
        ensures
            i <= n,
            trim_start_text(s@) == s@.skip(i as int),
        decreases n - i,
    {
        if i == n {
            assert(s@.skip(n as int).len() == 0);
            break;
        }
        let c = s.get_char(i);
        if !is_white_space(c) {
            break;
        }
        assert(s@.skip(i as int).drop_first() =~= s@.skip(i + 1));
        i = i + 1;
    }
    let mut j: usize = n;
    assert(s@.subrange(i as int, n as int) =~= s@.skip(i as int));
    loop
        invariant
            n == s@.len(),
            i <= j <= n,
            trim_end_text(s@.subrange(i as int, j as int)) == trim_end_text(s@.skip(i as int)),
        ensures
            i <= j <= n,
            trim_end_text(s@.skip(i as int)) == s@.subrange(i as int, j as int),
        decreases j - i,
    {
        if j == i {
            break;
        }
        let c = s.get_char(j - 1);
        if !is_white_space(c) {
            break;
        }
        assert(s@.subrange(i as int, j as int).drop_last() =~= s@.subrange(i as int, j - 1));
        j = j - 1;
    }
    slice(s, i, j)
}

/// `str::to_lowercase`: each character's Unicode lower-case mapping, which for ASCII text is
/// ASCII lower-casing.
#[verifier::external_body]
pub(crate) fn to_lowercase(s: &str) -> (res: String)
    ensures
        res@ == spec_to_lowercase(s@),
        (forall|i: int| 0 <= i < s@.len() ==> (s@[i] as u32) < 128) ==> res@ == s@.map_values(
            |c: char| ascii_lower(c),
        ),
{
    s.to_lowercase()
}

/// The number of characters of `s` before its first `\n`, or all of them.
pub open spec fn line_len(s: Seq<char>) -> nat
    decreases s.len(),
{
    if s.len() == 0 || s[0] == '\n' {
        0
    } else {
        1 + line_len(s.drop_first())
    }
}

proof fn lemma_line_len_bound(s: Seq<char>)
    ensures
        line_len(s) <= s.len(),
    decreases s.len(),
{
    if s.len() > 0 && s[0] != '\n' {
        lemma_line_len_bound(s.drop_first());
    }
}

proof fn lemma_line_len_at(s: Seq<char>, m: int)
    requires
        0 <= m <= s.len(),
        forall|k: int| 0 <= k < m ==> s[k] != '\n',
        m == s.len() || s[m] == '\n',
    ensures
        line_len(s) == m,
    decreases m,
{
    if m > 0 {
        assert(s[0] != '\n');
        lemma_line_len_at(s.drop_first(), m - 1);
    }
}

/// A line without the `\r` of a `\r\n` ending.
pub open spec fn without_cr(line: Seq<char>) -> Seq<char> {
    if line.len() > 0 && line.last() == '\r' {
        line.drop_last()
    } else {
        line
    }
}

/// The lines of `s` as `str::lines` gives them: `s` split at each `\n`, with a `\r` just
/// before the `\n` dropped, and no empty last line after a final `\n`.
pub open spec fn lines_of(s: Seq<char>) -> Seq<Seq<char>>
    decreases s.len(),
{
    if s.len() == 0 {
        seq![]
    } else if line_len(s) >= s.len() {
        seq![s]
    } else {
        seq![without_cr(s.take(line_len(s) as int))] + lines_of(s.skip(line_len(s) as int + 1))
    }
}

/// The texts of a list of strings.
pub open spec fn texts_of(lines: Seq<String>) -> Seq<Seq<char>> {
    lines.map_values(|l: String| l@)
}

/// The lines of `s`, as `str::lines` splits it.
pub fn text_lines(s: &str) -> (lines: Vec<String>)
    ensures
        texts_of(lines@) == lines_of(s@),
{
    let n = s.unicode_len();
    let mut out: Vec<String> = Vec::new();
    let mut start: usize = 0;
    let mut i: usize = 0;
    assert(s@.skip(0) =~= s@);
    assert(texts_of(out@) + lines_of(s@) =~= lines_of(s@));
    while i < n
        invariant
            n == s@.len(),
            start <= i <= n,
            forall|k: int| start <= k < i ==> s@[k] != '\n',
            texts_of(out@) + lines_of(s@.skip(start as int)) == lines_of(s@),
        decreases n - i,
    {
        if s.get_char(i) == '\n' {
            let ghost t = s@.skip(start as int);
            let ghost m = i - start;
            proof {
                lemma_line_len_at(t, m as int);
                assert(t.take(m as int) =~= s@.subrange(start as int, i as int));
                assert(t.skip(m + 1) =~= s@.skip(i + 1));
            }
            let raw = slice(s, start, i);
            let k = raw.as_str().unicode_len();
            let line = if k > 0 && raw.as_str().get_char(k - 1) == '\r' {
                slice(raw.as_str(), 0, k - 1)
            } else {
                raw
            };
            assert(line@ == without_cr(t.take(m as int))) by {
                if k > 0 && raw@[k - 1] == '\r' {
                    assert(raw@.subrange(0, k - 1) =~= raw@.drop_last());
                }
            }
            let ghost before = out@;
            out.push(line);
            proof {
                assert(texts_of(out@) =~= texts_of(before).push(line@));
                assert(lines_of(t) == seq![without_cr(t.take(m as int))] + lines_of(s@.skip(i + 1)));
                assert(texts_of(out@) + lines_of(s@.skip(i + 1)) =~= texts_of(before) + lines_of(t));
            }
            start = i + 1;
        }
        i = i + 1;
    }
    if start < n {
        let ghost t = s@.skip(start as int);
        proof {
            lemma_line_len_at(t, t.len() as int);
        }
        let last = slice(s, start, n);
        assert(last@ =~= t);
        let ghost before = out@;
        out.push(last);
        proof {
            assert(texts_of(out@) =~= texts_of(before).push(t));
            assert(lines_of(t) == seq![t]);
            assert(texts_of(out@) =~= texts_of(before) + lines_of(t));
        }
    } else {
        proof {
            assert(s@.skip(start as int).len() == 0);
            assert(texts_of(out@) + seq![] =~= texts_of(out@));
        }
    }
    out
}

} // verus!

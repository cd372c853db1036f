//! Character-level text operations shared by the classifier, the ranker and
//! the symbol extractors, each stated over `Seq<char>`.
use vstd::prelude::*;

verus! {

/// Whether a character has the Unicode `White_Space` property, the predicate
/// that `char::is_whitespace`, `str::trim` and `str::split_whitespace` use:
/// U+0009..U+000D, the space, U+0085, U+00A0, U+1680, U+2000..U+200A,
/// U+2028, U+2029, U+202F, U+205F and U+3000.
pub open spec fn is_white(c: char) -> bool {
    ||| '\u{9}' <= c <= '\u{d}'
    ||| c == ' '
    ||| c == '\u{85}'
    ||| c == '\u{a0}'
    ||| c == '\u{1680}'
    ||| '\u{2000}' <= c <= '\u{200a}'
    ||| c == '\u{2028}'
    ||| c == '\u{2029}'
    ||| c == '\u{202f}'
    ||| c == '\u{205f}'
    ||| c == '\u{3000}'
}

/// The Unicode lowercase mapping of a whole string, as `str::to_lowercase`
/// computes it.
pub uninterp spec fn lowercase(s: Seq<char>) -> Seq<char>;

/// `char::is_whitespace`: whether `c` has the `White_Space` property.
pub fn char_is_whitespace(c: char) -> (res: bool)
    ensures
        res == is_white(c),
{
    ('\u{9}' <= c && c <= '\u{d}') || c == ' ' || c == '\u{85}' || c == '\u{a0}' || c == '\u{1680}'
        || ('\u{2000}' <= c && c <= '\u{200a}') || c == '\u{2028}' || c == '\u{2029}' || c == '\u{202f}'
        || c == '\u{205f}' || c == '\u{3000}'
}

/// The lowercase of an ASCII character: `A`..`Z` become `a`..`z`, the others
/// stay.
pub open spec fn ascii_lower(c: char) -> char {
    if 'A' <= c && c <= 'Z' {
        ((c as u8) + 32u8) as char
    } else {
        c
    }
}

/// Every character of `s` is ASCII.
pub open spec fn all_ascii(s: Seq<char>) -> bool {
    forall|i: int| 0 <= i < s.len() ==> (s[i] as u32) < 128
}

/// `str::to_lowercase`: the result is the Unicode lowercase mapping of `s`;
/// on ASCII text that mapping lowercases `A`..`Z` and keeps every other
/// character.
#[verifier::external_body]
pub(crate) fn str_to_lowercase(s: &str) -> (res: String)
    ensures
        res@ == lowercase(s@),
        all_ascii(s@) ==> res@ == s@.map_values(|c: char| ascii_lower(c)),
{
    s.to_lowercase()
}

/// The Unicode uppercase mapping of a whole string, as `str::to_uppercase`
/// computes it.
pub uninterp spec fn uppercase(s: Seq<char>) -> Seq<char>;

/// The uppercase of an ASCII character: `a`..`z` become `A`..`Z`, the others
/// stay.
pub open spec fn ascii_upper(c: char) -> char {
    if 'a' <= c && c <= 'z' {
        ((c as u8) - 32u8) as char
    } else {
        c
    }
}

/// `str::to_uppercase`: the result is the Unicode uppercase mapping of `s`;
/// on ASCII text that mapping uppercases `a`..`z` and keeps every other
/// character.
#[verifier::external_body]
pub(crate) fn str_to_uppercase(s: &str) -> (res: String)
    ensures
        res@ == uppercase(s@),
        all_ascii(s@) ==> res@ == s@.map_values(|c: char| ascii_upper(c)),
{
    s.to_uppercase()
}

/// `String::from_iter` over characters: the string holds exactly `chars`.
#[verifier::external_body]
pub(crate) fn string_from_chars(chars: &[char]) -> (res: String)
    ensures
        res@ == chars@,
{
    chars.iter().collect()
}

/// An owned copy of `s`.
pub fn text_of(s: &str) -> (res: String)
    ensures
        res@ == s@,
{
    broadcast use vstd::string::group_string_axioms;

    s.to_string()
}

/// The characters of `s`, in order.
pub fn chars_of(s: &str) -> (v: Vec<char>)
    ensures
        v@ == s@,
{
    broadcast use vstd::string::group_string_axioms;

    let mut v: Vec<char> = Vec::new();
    for c in it: s.chars()
        invariant
            it.seq() == s@,
            v@ == it.seq().take(it.index() as int),
    {
        v.push(c);
        proof {
            assert(it.seq().take(it.index() as int + 1) =~= v@);
        }
    }
    assert(v@ =~= s@);
    v
}


/// `s` without its leading `White_Space` characters.
pub open spec fn trim_start(s: Seq<char>) -> Seq<char>
    decreases s.len(),
{
    if s.len() > 0 && is_white(s[0]) {
        trim_start(s.drop_first())
    } else {
        s
    }
}

/// `s` without its trailing `White_Space` characters.
pub open spec fn trim_end(s: Seq<char>) -> Seq<char>
    decreases s.len(),
{
    if s.len() > 0 && is_white(s.last()) {
        trim_end(s.drop_last())
    } else {
        s
    }
}

/// `str::trim`: `s` without leading and trailing `White_Space` characters.
pub open spec fn trim(s: Seq<char>) -> Seq<char> {
    trim_end(trim_start(s))
}

/// Whether `p` occurs in `s` as a contiguous run.
pub open spec fn contains_seq(s: Seq<char>, p: Seq<char>) -> bool {
    exists|i: int| 0 <= i && i + p.len() <= s.len() && #[trigger] s.subrange(i, i + p.len()) == p
}

/// Whether the character `c` occurs in `s`.
pub open spec fn has_char(s: Seq<char>, c: char) -> bool {
    exists|i: int| 0 <= i < s.len() && s[i] == c
}

/// Whether `s` begins with `p`.
pub open spec fn starts_with_seq(s: Seq<char>, p: Seq<char>) -> bool {
    p.len() <= s.len() && s.take(p.len() as int) == p
}

/// Whether `s` ends with `p`.
pub open spec fn ends_with_seq(s: Seq<char>, p: Seq<char>) -> bool {
    p.len() <= s.len() && s.skip(s.len() - p.len()) == p
}

/// The state of a left-to-right scan that splits on runs of `White_Space`:
/// the finished tokens and the token being read.
pub open spec fn ws_scan(s: Seq<char>) -> (Seq<Seq<char>>, Seq<char>)
    decreases s.len(),
{
    if s.len() == 0 {
        (seq![], seq![])
    } else {
        let (toks, cur) = ws_scan(s.drop_last());
        let c = s.last();
        if is_white(c) {
            if cur.len() > 0 {
                (toks.push(cur), seq![])
            } else {
                (toks, seq![])
            }
        } else {
            (toks, cur.push(c))
        }
    }
}

/// `str::split_whitespace`: the maximal runs of non-`White_Space` characters, in order.
pub open spec fn ws_tokens(s: Seq<char>) -> Seq<Seq<char>> {
    let (toks, cur) = ws_scan(s);
    if cur.len() > 0 {
        toks.push(cur)
    } else {
        toks
    }
}

/// The state of a left-to-right scan that splits on every `sep`: the finished
/// parts and the part being read.
pub open spec fn sep_scan(s: Seq<char>, sep: char) -> (Seq<Seq<char>>, Seq<char>)
    decreases s.len(),
{
    if s.len() == 0 {
        (seq![], seq![])
    } else {
        let (parts, cur) = sep_scan(s.drop_last(), sep);
        let c = s.last();
        if c == sep {
            (parts.push(cur), seq![])
        } else {
            (parts, cur.push(c))
        }
    }
}

/// `str::split(sep)`: the parts between occurrences of `sep`, empty parts
/// included; there is always at least one.
pub open spec fn split_on(s: Seq<char>, sep: char) -> Seq<Seq<char>> {
    let (parts, cur) = sep_scan(s, sep);
    parts.push(cur)
}

/// Every occurrence of `from` in `s` replaced by `to`.
pub open spec fn replace_char(s: Seq<char>, from: char, to: char) -> Seq<char> {
    s.map_values(|c: char| if c == from { to } else { c })
}

/// Whether `c` is an ASCII uppercase letter.
pub open spec fn is_ascii_upper(c: char) -> bool {
    'A' <= c && c <= 'Z'
}

/// Whether `s` holds an ASCII uppercase letter.
pub open spec fn has_ascii_upper(s: Seq<char>) -> bool {
    exists|i: int| 0 <= i < s.len() && is_ascii_upper(s[i])
}

/// Whether some token of `toks` equals `t`.
pub open spec fn seq_has(toks: Seq<Seq<char>>, t: Seq<char>) -> bool {
    exists|i: int| 0 <= i < toks.len() && toks[i] == t
}

/// Splitting a text with no `sep` gives the text itself as the only part.
pub proof fn lemma_split_without_sep(s: Seq<char>, sep: char)
    requires
        !has_char(s, sep),
    ensures
        sep_scan(s, sep) == (Seq::<Seq<char>>::empty(), s),
        split_on(s, sep) == seq![s],
    decreases s.len(),
{
    if s.len() > 0 {
        assert(!has_char(s.drop_last(), sep)) by {
            if has_char(s.drop_last(), sep) {
                let i = choose|i: int| 0 <= i < s.drop_last().len() && s.drop_last()[i] == sep;
                assert(s[i] == sep);
            }
        }
        lemma_split_without_sep(s.drop_last(), sep);
        assert(s.last() != sep) by {
            assert(s[s.len() - 1] == s.last());
        }
        assert(s.drop_last().push(s.last()) =~= s);
    } else {
        assert(s =~= Seq::<char>::empty());
    }
    assert(split_on(s, sep) =~= seq![s]);
}

/// The scan of `a`, `sep`, `y` ends with the parts of `a`, then the scan of `y`.
proof fn lemma_sep_scan_concat(a: Seq<char>, sep: char, y: Seq<char>)
    ensures
        sep_scan(a + seq![sep] + y, sep) == (split_on(a, sep) + sep_scan(y, sep).0, sep_scan(y, sep).1),
    decreases y.len(),
{
    let s = a + seq![sep] + y;
    if y.len() == 0 {
        assert(s.drop_last() =~= a);
        assert(s.last() == sep);
        assert(sep_scan(y, sep).0 =~= Seq::<Seq<char>>::empty());
        assert(split_on(a, sep) + sep_scan(y, sep).0 =~= split_on(a, sep));
    } else {
        lemma_sep_scan_concat(a, sep, y.drop_last());
        assert(s.drop_last() =~= a + seq![sep] + y.drop_last());
        assert(s.last() == y.last());
        let (yp, yc) = sep_scan(y.drop_last(), sep);
        if y.last() == sep {
            assert(split_on(a, sep) + yp.push(yc) =~= (split_on(a, sep) + yp).push(yc));
        }
    }
}

/// Splitting `a`, `sep`, `b` gives the parts of `a`, then the parts of `b`.
pub proof fn lemma_split_concat(a: Seq<char>, sep: char, b: Seq<char>)
    ensures
        split_on(a + seq![sep] + b, sep) == split_on(a, sep) + split_on(b, sep),
{
    lemma_sep_scan_concat(a, sep, b);
    let (bp, bc) = sep_scan(b, sep);
    assert((split_on(a, sep) + bp).push(bc) =~= split_on(a, sep) + bp.push(bc));
}

proof fn lemma_trim_start_step(s: Seq<char>, i: int)
    requires
        0 <= i < s.len(),
        is_white(s[i]),
    ensures
        trim_start(s.skip(i)) == trim_start(s.skip(i + 1)),
{
    assert(s.skip(i).drop_first() =~= s.skip(i + 1));
}

proof fn lemma_trim_end_step(s: Seq<char>, j: int)
    requires
        0 < j <= s.len(),
        is_white(s[j - 1]),
    ensures
        trim_end(s.take(j)) == trim_end(s.take(j - 1)),
{
    assert(s.take(j).drop_last() =~= s.take(j - 1));
}

/// `str::trim` on a character vector.
pub fn trim_chars(s: &[char]) -> (res: Vec<char>)
    ensures
        res@ == trim(s@),
{
    let n = s.len();
    let mut i: usize = 0;
    assert(s@.skip(0) =~= s@);
    while i < n && char_is_whitespace(s[i])
        invariant
            n == s@.len(),
            i <= n,
            trim_start(s@) == trim_start(s@.skip(i as int)),
        decreases n - i,
    {
        proof {
            lemma_trim_start_step(s@, i as int);
        }
        i += 1;
    }
    let ghost rest = s@.skip(i as int);
    assert(trim_start(rest) == rest) by {
        if rest.len() > 0 {
            assert(rest[0] == s@[i as int]);
        }
    }
    let mut j: usize = n;
    assert(rest.take(j - i) =~= rest);
    while j > i && char_is_whitespace(s[j - 1])
        invariant
            n == s@.len(),
            i <= j <= n,
            rest == s@.skip(i as int),
            trim_end(rest) == trim_end(rest.take(j - i)),
        decreases j,
    {
        proof {
            lemma_trim_end_step(rest, (j - i) as int);
        }
        j -= 1;
    }
    assert(trim_end(rest.take(j - i)) == rest.take(j - i)) by {
        let t = rest.take(j - i);
        if t.len() > 0 {
            assert(t.last() == s@[j - 1]);
        }
    }
    let mut res: Vec<char> = Vec::new();
    let mut k: usize = i;
    while k < j
        invariant
            n == s@.len(),
            i <= k <= j <= n,
            res@ == s@.subrange(i as int, k as int),
        decreases j - k,
    {
        res.push(s[k]);
        proof {
            assert(res@ =~= s@.subrange(i as int, k + 1));
        }
        k += 1;
    }
    assert(res@ =~= rest.take(j - i));
    res
}

/// Whether `p` occurs in `s`.
pub fn contains_chars(s: &[char], p: &[char]) -> (res: bool)
    ensures
        res == contains_seq(s@, p@),
{
    let n = s.len();
    let m = p.len();
    if m > n {
        return false;
    }
    let mut i: usize = 0;
    while i <= n - m
        invariant
            n == s@.len(),
            m == p@.len(),
            m <= n,
            i <= n - m + 1,
            forall|k: int| 0 <= k < i ==> #[trigger] s@.subrange(k, k + m) != p@,
        decreases n - m + 1 - i,
    {
        let mut j: usize = 0;
        let mut ok = true;
        while j < m
            invariant
                n == s@.len(),
                m == p@.len(),
                i + m <= n,
                j <= m,
                ok == (forall|t: int| 0 <= t < j ==> s@[i + t] == p@[t]),
            decreases m - j,
        {
            if s[i + j] != p[j] {
                ok = false;
            }
            j += 1;
        }
        if ok {
            assert(s@.subrange(i as int, i + m) =~= p@);
            return true;
        }
        assert(s@.subrange(i as int, i + m) != p@) by {
            let t = choose|t: int| 0 <= t < m && s@[i + t] != p@[t];
            assert(s@.subrange(i as int, i + m)[t] == s@[i + t]);
        }
        i += 1;
    }
    assert(!contains_seq(s@, p@)) by {
        if contains_seq(s@, p@) {
            let k = choose|k: int| 0 <= k && k + p@.len() <= s@.len() && #[trigger] s@.subrange(k, k + p@.len()) == p@;
            assert(s@.subrange(k, k + m) == p@);
        }
    }
    false
}

/// Whether the text `pat` occurs in `s`.
pub fn contains_str(s: &[char], pat: &str) -> (res: bool)
    ensures
        res == contains_seq(s@, pat@),
{
    let p = chars_of(pat);
    contains_chars(s, p.as_slice())
}

/// Whether the character `c` occurs in `s`.
pub fn has_char_exec(s: &[char], c: char) -> (res: bool)
    ensures
        res == has_char(s@, c),
{
    let mut i: usize = 0;
    while i < s.len()
        invariant
            i <= s@.len(),
            forall|k: int| 0 <= k < i ==> s@[k] != c,
        decreases s@.len() - i,
    {
        if s[i] == c {
            return true;
        }
        i += 1;
    }
    false
}

/// Whether `s` ends with the text `pat`.
pub fn ends_with_str(s: &[char], pat: &str) -> (res: bool)
    ensures
        res == ends_with_seq(s@, pat@),
{
    let p = chars_of(pat);
    let n = s.len();
    let m = p.len();
    if m > n {
        return false;
    }
    let mut j: usize = 0;
    while j < m
        invariant
            n == s@.len(),
            m == p@.len(),
            p@ == pat@,
            m <= n,
            j <= m,
            forall|t: int| 0 <= t < j ==> s@[n - m + t] == p@[t],
        decreases m - j,
    {
        if s[n - m + j] != p[j] {
            assert(s@.skip(n - m)[j as int] != p@[j as int]);
            assert(s@.skip(n - m) != pat@);
            return false;
        }
        j += 1;
    }
    assert(s@.skip(n - m) =~= p@);
    true
}

/// Whether `s` begins with the text `pat`.
pub fn starts_with_str(s: &[char], pat: &str) -> (res: bool)
    ensures
        res == starts_with_seq(s@, pat@),
{
    let p = chars_of(pat);
    let n = s.len();
    let m = p.len();
    if m > n {
        return false;
    }
    let mut j: usize = 0;
    while j < m
        invariant
            n == s@.len(),
            m == p@.len(),
            p@ == pat@,
            m <= n,
            j <= m,
            forall|t: int| 0 <= t < j ==> s@[t] == p@[t],
        decreases m - j,
    {
        if s[j] != p[j] {
            assert(s@.take(m as int)[j as int] != p@[j as int]);
            assert(s@.take(m as int) != pat@);
            return false;
        }
        j += 1;
    }
    assert(s@.take(m as int) =~= p@);
    true
}

/// Whether `s` holds an ASCII uppercase letter.
pub fn has_ascii_upper_exec(s: &[char]) -> (res: bool)
    ensures
        res == has_ascii_upper(s@),
{
    let mut i: usize = 0;
    while i < s.len()
        invariant
            i <= s@.len(),
            forall|k: int| 0 <= k < i ==> !is_ascii_upper(s@[k]),
        decreases s@.len() - i,
    {
        if 'A' <= s[i] && s[i] <= 'Z' {
            return true;
        }
        i += 1;
    }
    false
}

/// `str::split_whitespace`, collected.
pub fn split_whitespace_chars(s: &[char]) -> (res: Vec<Vec<char>>)
    ensures
        res@.len() == ws_tokens(s@).len(),
        forall|i: int| 0 <= i < res@.len() ==> #[trigger] res@[i]@ == ws_tokens(s@)[i],
{
    let mut toks: Vec<Vec<char>> = Vec::new();
    let mut cur: Vec<char> = Vec::new();
    let n = s.len();
    let mut i: usize = 0;
    while i < n
        invariant
            n == s@.len(),
            i <= n,
            toks@.len() == ws_scan(s@.take(i as int)).0.len(),
            forall|k: int| 0 <= k < toks@.len() ==> #[trigger] toks@[k]@ == ws_scan(s@.take(i as int)).0[k],
            cur@ == ws_scan(s@.take(i as int)).1,
        decreases n - i,
    {
        let c = s[i];
        assert(s@.take(i + 1).drop_last() =~= s@.take(i as int));
        if char_is_whitespace(c) {
            if cur.len() > 0 {
                toks.push(cur);
                cur = Vec::new();
            }
        } else {
            cur.push(c);
        }
        i += 1;
    }
    assert(s@.take(n as int) =~= s@);
    if cur.len() > 0 {
        toks.push(cur);
    }
    toks
}

/// `str::split(sep)`, collected.
pub fn split_chars(s: &[char], sep: char) -> (res: Vec<Vec<char>>)
    ensures
        res@.len() == split_on(s@, sep).len(),
        forall|i: int| 0 <= i < res@.len() ==> #[trigger] res@[i]@ == split_on(s@, sep)[i],
{
    let mut parts: Vec<Vec<char>> = Vec::new();
    let mut cur: Vec<char> = Vec::new();
    let n = s.len();
    let mut i: usize = 0;
    while i < n
        invariant
            n == s@.len(),
            i <= n,
            parts@.len() == sep_scan(s@.take(i as int), sep).0.len(),
            forall|k: int| 0 <= k < parts@.len() ==> #[trigger] parts@[k]@ == sep_scan(s@.take(i as int), sep).0[k],
            cur@ == sep_scan(s@.take(i as int), sep).1,
        decreases n - i,
    {
        let c = s[i];
        assert(s@.take(i + 1).drop_last() =~= s@.take(i as int));
        if c == sep {
            parts.push(cur);
            cur = Vec::new();
        } else {
            cur.push(c);
        }
        i += 1;
    }
    assert(s@.take(n as int) =~= s@);
    parts.push(cur);
    parts
}

/// The string holding `s` with every `from` replaced by `to`.
pub fn replace_char_exec(s: &[char], from: char, to: char) -> (res: Vec<char>)
    ensures
        res@ == replace_char(s@, from, to),
{
    let mut res: Vec<char> = Vec::new();
    let mut i: usize = 0;
    while i < s.len()
        invariant
            i <= s@.len(),
            res@ == replace_char(s@.take(i as int), from, to),
        decreases s@.len() - i,
    {
        let c = s[i];
        if c == from {
            res.push(to);
        } else {
            res.push(c);
        }
        proof {
            assert(replace_char(s@.take(i + 1), from, to) =~= res@);
        }
        i += 1;
    }
    assert(s@.take(s@.len() as int) =~= s@);
    res
}

/// The lowercase mapping of a character sequence.
pub fn lowercase_chars(s: &[char]) -> (res: Vec<char>)
    ensures
        res@ == lowercase(s@),
        all_ascii(s@) ==> res@ == s@.map_values(|c: char| ascii_lower(c)),
{
    let st = string_from_chars(s);
    let low = str_to_lowercase(st.as_str());
    chars_of(low.as_str())
}

/// Whether two character sequences are equal.
pub fn chars_eq(a: &[char], b: &[char]) -> (res: bool)
    ensures
        res == (a@ == b@),
{
    if a.len() != b.len() {
        return false;
    }
    let mut i: usize = 0;
    while i < a.len()
        invariant
            a@.len() == b@.len(),
            i <= a@.len(),
            forall|k: int| 0 <= k < i ==> a@[k] == b@[k],
        decreases a@.len() - i,
    {
        if a[i] != b[i] {
            return false;
        }
        i += 1;
    }
    assert(a@ =~= b@);
    true
}

/// Whether some token in `toks` equals `t`.
pub fn tokens_have(toks: &Vec<Vec<char>>, t: &[char]) -> (res: bool)
    ensures
        res == (exists|i: int| 0 <= i < toks@.len() && toks@[i]@ == t@),
{
    let mut i: usize = 0;
    while i < toks.len()
        invariant
            i <= toks@.len(),
            forall|k: int| 0 <= k < i ==> toks@[k]@ != t@,
        decreases toks@.len() - i,
    {
        if chars_eq(toks[i].as_slice(), t) {
            return true;
        }
        i += 1;
    }
    false
}

/// The text after the last `c` in `s`: all of `s` when it holds no `c`.
pub open spec fn after_last(s: Seq<char>, c: char) -> Seq<char>
    decreases s.len(),
{
    if s.len() == 0 {
        seq![]
    } else if s.last() == c {
        seq![]
    } else {
        after_last(s.drop_last(), c).push(s.last())
    }
}

/// The text before the last `c` in `s`: empty when it holds no `c`.
pub open spec fn before_last(s: Seq<char>, c: char) -> Seq<char>
    decreases s.len(),
{
    if s.len() == 0 {
        seq![]
    } else if s.last() == c {
        s.drop_last()
    } else {
        before_last(s.drop_last(), c)
    }
}

/// A path whose components `Path` finds by splitting at each `/` alone, on
/// every platform: it is not empty, does not end with `/` (so it is not the
/// root alone), repeats no `/`, has no `.` component, and holds no `\\` or
/// `:`.  It may be absolute (start with `/`) or relative.
pub open spec fn plain_path(p: Seq<char>) -> bool {
    &&& p.len() > 0
    &&& p.last() != '/'
    &&& !contains_seq(p, "//"@)
    &&& !contains_seq(p, "/./"@)
    &&& !(p.len() >= 2 && p.subrange(0, 2) == "./"@)
    &&& !(p.len() >= 2 && p.subrange(p.len() - 2, p.len() as int) == "/."@)
    &&& p != "."@
    &&& !has_char(p, '\\')
    &&& !has_char(p, ':')
}

/// The parent of a plain path as `Path::parent` documents it: the path
/// without its final component, that is the text before its last `/`;
/// the root `/` for a component just below it; empty for a relative path
/// of one component.
pub open spec fn parent_text(p: Seq<char>) -> Seq<char> {
    if p.len() > 0 && p[0] == '/' && before_last(p, '/').len() == 0 {
        "/"@
    } else {
        before_last(p, '/')
    }
}

/// The extension of a file name as `Path::extension` documents it: none
/// when the name holds no `.` past a leading one, else the text after its
/// last `.`.
pub open spec fn extension_text(name: Seq<char>) -> Option<Seq<char>> {
    let body = if name.len() > 0 && name[0] == '.' {
        name.drop_first()
    } else {
        name
    };
    if has_char(body, '.') {
        Some(after_last(body, '.'))
    } else {
        None
    }
}

/// The characters after the last `c` in `s`.
pub fn after_last_chars(s: &[char], c: char) -> (res: Vec<char>)
    ensures
        res@ == after_last(s@, c),
{
    let mut j: usize = s.len();
    assert(s@.subrange(0, j as int) =~= s@);
    assert(after_last(s@, c) + s@.subrange(j as int, s@.len() as int) =~= after_last(s@, c));
    while j > 0 && s[j - 1] != c
        invariant
            j <= s@.len(),
            after_last(s@, c) == after_last(s@.subrange(0, j as int), c) + s@.subrange(j as int, s@.len() as int),
        decreases j,
    {
        let ghost pre = s@.subrange(0, j as int);
        assert(pre.drop_last() =~= s@.subrange(0, j - 1));
        assert(pre.last() == s@[j - 1]);
        assert(after_last(pre, c) == after_last(pre.drop_last(), c).push(s@[j - 1]));
        assert(after_last(s@.subrange(0, j - 1), c).push(s@[j - 1]) + s@.subrange(j as int, s@.len() as int)
            =~= after_last(s@.subrange(0, j - 1), c) + s@.subrange(j - 1, s@.len() as int));
        j -= 1;
    }
    assert(after_last(s@.subrange(0, j as int), c) =~= seq![]);
    let mut res: Vec<char> = Vec::new();
    let mut k: usize = j;
    while k < s.len()
        invariant
            j <= k <= s@.len(),
            res@ =~= s@.subrange(j as int, k as int),
        decreases s@.len() - k,
    {
        res.push(s[k]);
        k += 1;
    }
    assert(after_last(s@, c) =~= s@.subrange(j as int, s@.len() as int));
    res
}

/// A trailing `White_Space` character ends a token and starts none.
proof fn lemma_tokens_drop_white_end(s: Seq<char>)
    requires
        s.len() > 0,
        is_white(s.last()),
    ensures
        ws_tokens(s) == ws_tokens(s.drop_last()),
{
}

/// A leading `White_Space` character changes no step of the scan.
proof fn lemma_scan_drop_white_start(s: Seq<char>)
    requires
        s.len() > 0,
        is_white(s[0]),
    ensures
        ws_scan(s) == ws_scan(s.drop_first()),
    decreases s.len(),
{
    if s.len() == 1 {
        assert(s.drop_last().len() == 0);
        assert(s.drop_first().len() == 0);
        assert(ws_scan(s.drop_last()) == (Seq::<Seq<char>>::empty(), Seq::<char>::empty()));
        assert(ws_scan(s.drop_first()) == (Seq::<Seq<char>>::empty(), Seq::<char>::empty()));
        assert(s.last() == s[0]);
        assert(ws_scan(s) == (Seq::<Seq<char>>::empty(), Seq::<char>::empty()));
    } else {
        let d = s.drop_last();
        assert(d[0] == s[0]);
        lemma_scan_drop_white_start(d);
        assert(s.drop_first().drop_last() =~= d.drop_first());
        assert(s.drop_first().last() == s.last());
    }
}

/// Trailing `White_Space` changes no token.
proof fn lemma_tokens_trim_end(s: Seq<char>)
    ensures
        ws_tokens(trim_end(s)) == ws_tokens(s),
    decreases s.len(),
{
    if s.len() > 0 && is_white(s.last()) {
        lemma_tokens_drop_white_end(s);
        lemma_tokens_trim_end(s.drop_last());
    }
}

/// Leading `White_Space` changes no token.
proof fn lemma_tokens_trim_start(s: Seq<char>)
    ensures
        ws_tokens(trim_start(s)) == ws_tokens(s),
    decreases s.len(),
{
    if s.len() > 0 && is_white(s[0]) {
        lemma_scan_drop_white_start(s);
        lemma_tokens_trim_start(s.drop_first());
    }
}

/// Splitting on `White_Space` gives the same tokens with or without the
/// leading and trailing `White_Space` of the text.
pub proof fn law_trim_keeps_tokens(s: Seq<char>)
    ensures
        ws_tokens(trim(s)) == ws_tokens(s),
{
    lemma_tokens_trim_end(trim_start(s));
    lemma_tokens_trim_start(s);
}

/// Trimming ASCII text leaves ASCII text.
pub proof fn lemma_trim_ascii(s: Seq<char>)
    requires
        all_ascii(s),
    ensures
        all_ascii(trim(s)),
{
    lemma_trim_start_ascii(s);
    lemma_trim_end_ascii(trim_start(s));
}

proof fn lemma_trim_start_ascii(s: Seq<char>)
    requires
        all_ascii(s),
    ensures
        all_ascii(trim_start(s)),
    decreases s.len(),
{
    if s.len() > 0 && is_white(s[0]) {
        assert(all_ascii(s.drop_first())) by {
            assert forall|i: int| 0 <= i < s.drop_first().len() implies (s.drop_first()[i] as u32) < 128 by {
                assert(s.drop_first()[i] == s[i + 1]);
            }
        }
        lemma_trim_start_ascii(s.drop_first());
    }
}

proof fn lemma_trim_end_ascii(s: Seq<char>)
    requires
        all_ascii(s),
    ensures
        all_ascii(trim_end(s)),
    decreases s.len(),
{
    if s.len() > 0 && is_white(s.last()) {
        assert(all_ascii(s.drop_last())) by {
            assert forall|i: int| 0 <= i < s.drop_last().len() implies (s.drop_last()[i] as u32) < 128 by {
                assert(s.drop_last()[i] == s[i]);
            }
        }
        lemma_trim_end_ascii(s.drop_last());
    }
}

/// The decimal digit of a number below ten.
pub open spec fn digit_char(d: nat) -> char {
    if d == 0 {
        '0'
    } else if d == 1 {
        '1'
    } else if d == 2 {
        '2'
    } else if d == 3 {
        '3'
    } else if d == 4 {
        '4'
    } else if d == 5 {
        '5'
    } else if d == 6 {
        '6'
    } else if d == 7 {
        '7'
    } else if d == 8 {
        '8'
    } else {
        '9'
    }
}

/// The decimal writing of a number, as `usize`'s `Display` gives it: no
/// leading zero, and `0` for zero.
pub open spec fn decimal(n: nat) -> Seq<char>
    decreases n,
{
    if n < 10 {
        seq![digit_char(n)]
    } else {
        decimal(n / 10).push(digit_char(n % 10))
    }
}

fn digit_of(d: usize) -> (res: char)
    requires
        d < 10,
    ensures
        res == digit_char(d as nat),
{
    if d == 0 {
        '0'
    } else if d == 1 {
        '1'
    } else if d == 2 {
        '2'
    } else if d == 3 {
        '3'
    } else if d == 4 {
        '4'
    } else if d == 5 {
        '5'
    } else if d == 6 {
        '6'
    } else if d == 7 {
        '7'
    } else if d == 8 {
        '8'
    } else {
        '9'
    }
}

/// The decimal writing of `n`.
pub fn decimal_chars(n: usize) -> (res: Vec<char>)
    ensures
        res@ == decimal(n as nat),
    decreases n,
{
    if n < 10 {
        let mut v: Vec<char> = Vec::new();
        v.push(digit_of(n));
        assert(v@ =~= seq![digit_char(n as nat)]);
        v
    } else {
        let mut v = decimal_chars(n / 10);
        v.push(digit_of(n % 10));
        v
    }
}

} // verus!

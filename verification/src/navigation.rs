//! Locations of the form `file:line` and the parts of symbol identifiers.
use vstd::prelude::*;
use crate::symbol_extraction::symbol_id_of;
use crate::text::{
    lemma_split_concat, lemma_split_without_sep, chars_of, has_char, sep_scan, split_chars, split_on, starts_with_seq, starts_with_str,
    string_from_chars, text_of, after_last, plain_path, decimal,
};
use crate::syntax::opt_chars;

verus! {

/// Why a `file:line` location was refused.
#[derive(Debug, Clone, Copy, PartialEq, Eq, Structural)]
pub enum LocationError {
    /// There is no `:` to part a file path from a line number.
    MissingFilePath,
    /// What follows the last `:` is not a line number.
    InvalidLine,
}

/// Whether every character of `s` is a decimal digit.
pub open spec fn all_digits(s: Seq<char>) -> bool {
    forall|i: int| 0 <= i < s.len() ==> '0' <= #[trigger] s[i] && s[i] <= '9'
}

/// The number that the decimal digits `s` write.
pub open spec fn digits_value(s: Seq<char>) -> nat
    decreases s.len(),
{
    if s.len() == 0 {
        0
    } else {
        digits_value(s.drop_last()) * 10 + ((s.last() as int - '0' as int) as nat)
    }
}

/// `usize::from_str`: an optional `+` followed by at least one decimal digit,
/// of a value that fits.
pub open spec fn parse_usize(s: Seq<char>) -> Option<usize> {
    let d = if s.len() > 0 && s[0] == '+' {
        s.drop_first()
    } else {
        s
    };
    if d.len() > 0 && all_digits(d) && digits_value(d) <= usize::MAX {
        Some(digits_value(d) as usize)
    } else {
        None
    }
}

proof fn lemma_digits_value_grows(s: Seq<char>, i: int)
    requires
        0 <= i <= s.len(),
        all_digits(s),
    ensures
        digits_value(s.take(i)) <= digits_value(s),
    decreases s.len() - i,
{
    if i < s.len() {
        lemma_digits_value_grows(s, i + 1);
        assert(s.take(i + 1).drop_last() =~= s.take(i));
        assert('0' <= s[i] && s[i] <= '9');
    } else {
        assert(s.take(i) =~= s);
    }
}

/// Parses a line number as `usize::from_str` does.
pub fn parse_line_number(s: &[char]) -> (res: Option<usize>)
    ensures
        res == parse_usize(s@),
{
    let n = s.len();
    let start: usize = if n > 0 && s[0] == '+' {
        1
    } else {
        0
    };
    let ghost d = if s@.len() > 0 && s@[0] == '+' {
        s@.drop_first()
    } else {
        s@
    };
    assert(d =~= s@.skip(start as int));
    if start >= n {
        return None;
    }
    let mut value: usize = 0;
    let mut i: usize = start;
    while i < n
        invariant
            start <= i <= n,
            n == s@.len(),
            d == s@.skip(start as int),
            d == (if s@.len() > 0 && s@[0] == '+' {
                s@.drop_first()
            } else {
                s@
            }),
            all_digits(d.take(i - start)),
            value == digits_value(d.take(i - start)),
        decreases n - i,
    {
        let c = s[i];
        if c < '0' || c > '9' {
            assert(!all_digits(d)) by {
                assert(d[i - start] == c);
            }
            return None;
        }
        let digit = (c as u32 - '0' as u32) as usize;
        let ghost t = d.take(i - start + 1);
        assert(t.drop_last() =~= d.take(i - start));
        assert(t.last() == c);
        assert(all_digits(t));
        let m = value.checked_mul(10);
        match m {
            None => {
                proof {
                    self::lemma_overflow_fails(d, i - start);
                }
                return None;
            },
            Some(m) => {
                let a = m.checked_add(digit);
                match a {
                    None => {
                        proof {
                            self::lemma_overflow_fails(d, i - start);
                        }
                        return None;
                    },
                    Some(a) => {
                        value = a;
                    },
                }
            },
        }
        i += 1;
    }
    assert(d.take(n - start) =~= d);
    Some(value)
}

/// When the value of a prefix of `d` extended by one more digit overflows,
/// `d` is refused.
proof fn lemma_overflow_fails(d: Seq<char>, j: int)
    requires
        0 <= j < d.len(),
        all_digits(d.take(j + 1)),
        digits_value(d.take(j + 1)) > usize::MAX,
    ensures
        !(all_digits(d) && digits_value(d) <= usize::MAX),
{
    if all_digits(d) {
        lemma_digits_value_grows(d, j + 1);
    }
}

/// What `str::rsplitn(2, ':')` yields: the part after the last `:`, then, if
/// there is a `:`, the part before it.
pub open spec fn location_parts(location: Seq<char>) -> Result<(Seq<char>, Seq<char>), LocationError> {
    let parts = split_on(location, ':');
    if parts.len() < 2 {
        Err(LocationError::MissingFilePath)
    } else {
        let line = parts.last();
        let file = location.take(location.len() - line.len() - 1);
        Ok((file, line))
    }
}

/// A location `file:line`: the file is everything before the last `:`, the
/// line the number after it.
pub open spec fn spec_parse_location(location: Seq<char>) -> Result<(Seq<char>, usize), LocationError> {
    match location_parts(location) {
        Err(e) => Err(e),
        Ok((file, line)) => match parse_usize(line) {
            Some(n) => Ok((file, n)),
            None => Err(LocationError::InvalidLine),
        },
    }
}

proof fn lemma_sep_scan_tail(s: Seq<char>, sep: char)
    ensures
        sep_scan(s, sep).1.len() <= s.len(),
        sep_scan(s, sep).0.len() > 0 ==> sep_scan(s, sep).1.len() < s.len(),
    decreases s.len(),
{
    if s.len() > 0 {
        lemma_sep_scan_tail(s.drop_last(), sep);
    }
}

/// Parses a `file:line` location.
pub fn parse_location(location: &str) -> (res: Result<(String, usize), LocationError>)
    ensures
        match (res, spec_parse_location(location@)) {
            (Ok((f, n)), Ok((sf, sn))) => f@ == sf && n == sn,
            (Err(e), Err(se)) => e == se,
            _ => false,
        },
{
    let chars = chars_of(location);
    let mut parts = split_chars(chars.as_slice(), ':');
    proof {
        let (p, c) = sep_scan(location@, ':');
        assert(split_on(location@, ':').len() == p.len() + 1);
        lemma_sep_scan_tail(location@, ':');
    }
    if parts.len() < 2 {
        return Err(LocationError::MissingFilePath);
    }
    let line_part = match parts.pop() {
        Some(v) => v,
        None => Vec::new(),
    };
    let file_len = chars.len() - line_part.len() - 1;
    let mut file_chars: Vec<char> = Vec::new();
    let mut i: usize = 0;
    while i < file_len
        invariant
            i <= file_len,
            file_len < chars@.len(),
            file_chars@ == chars@.take(i as int),
        decreases file_len - i,
    {
        file_chars.push(chars[i]);
        proof {
            assert(file_chars@ =~= chars@.take(i + 1));
        }
        i += 1;
    }
    match parse_line_number(line_part.as_slice()) {
        Some(n) => Ok((string_from_chars(file_chars.as_slice()), n)),
        None => Err(LocationError::InvalidLine),
    }
}

/// The kind and name shown for a symbol identifier, given the final
/// component of the path after a `file:` prefix (`rest_name`) and that of
/// the chunk's file (`path_name`).  A `file:` identifier shows as a file,
/// an identifier with at least one `:` shows its first and last parts, and
/// any other shows as a symbol named after the chunk's file.
pub open spec fn symbol_id_parts(
    symbol_id: Seq<char>,
    rest_name: Option<Seq<char>>,
    path_name: Option<Seq<char>>,
) -> (Seq<char>, Seq<char>) {
    let parts = split_on(symbol_id, ':');
    if starts_with_seq(symbol_id, "file:"@) {
        (
            "file"@,
            match rest_name {
                Some(n) => n,
                None => symbol_id.skip(5),
            },
        )
    } else if parts.len() >= 2 {
        (parts[0], parts.last())
    } else {
        (
            "symbol"@,
            match path_name {
                Some(n) => n,
                None => symbol_id,
            },
        )
    }
}

/// A path whose final component `Path::file_name` finds as its
/// documentation describes it, on every platform: a plain path
/// whose final component is not `..`.
pub open spec fn documented_file_name(path: Seq<char>) -> bool {
    plain_path(path) && after_last(path, '/') != ".."@
}

/// The final component of a path, as `Path::file_name` finds it, when it is
/// valid text.  Of every outcome: a component is not empty and holds no
/// `/`.  Of a plain path whose final component is not `..`: the
/// text after its last `/`.  Of other paths the result is not stated.
#[verifier::external_body]
fn path_file_name(path: &str) -> (res: Option<String>)
    ensures
        res matches Some(n) ==> n@.len() > 0 && !has_char(n@, '/'),
        documented_file_name(path@) ==> opt_chars(res) == Some(after_last(path@, '/')),
{
    std::path::Path::new(path).file_name().and_then(|n| n.to_str()).map(|n| n.to_string())
}

/// The kind and name shown for a symbol identifier, given the final path
/// components that [`path_file_name`] finds.
pub fn split_symbol_id_with(
    symbol_id: &str,
    rest_name: Option<String>,
    path_name: Option<String>,
) -> (res: (String, String))
    ensures
        (res.0@, res.1@) == symbol_id_parts(
            symbol_id@,
            match rest_name {
                Some(n) => Some(n@),
                None => None,
            },
            match path_name {
                Some(n) => Some(n@),
                None => None,
            },
        ),
{
    let chars = chars_of(symbol_id);
    proof {
        reveal_strlit("file:");
    }
    if starts_with_str(chars.as_slice(), "file:") {
        let name = match rest_name {
            Some(n) => n,
            None => {
                let mut rest: Vec<char> = Vec::new();
                let mut i: usize = 5;
                while i < chars.len()
                    invariant
                        5 <= i <= chars@.len(),
                        rest@ == chars@.subrange(5, i as int),
                    decreases chars@.len() - i,
                {
                    rest.push(chars[i]);
                    proof {
                        assert(rest@ =~= chars@.subrange(5, i + 1));
                    }
                    i += 1;
                }
                assert(rest@ =~= symbol_id@.skip(5));
                string_from_chars(rest.as_slice())
            },
        };
        return (text_of("file"), name);
    }
    let mut parts = split_chars(chars.as_slice(), ':');
    proof {
        let (p, c) = sep_scan(symbol_id@, ':');
        assert(split_on(symbol_id@, ':').len() == p.len() + 1);
    }
    if parts.len() >= 2 {
        let kind = string_from_chars(parts[0].as_slice());
        let last = match parts.pop() {
            Some(v) => v,
            None => Vec::new(),
        };
        return (kind, string_from_chars(last.as_slice()));
    }
    let name = match path_name {
        Some(n) => n,
        None => text_of(symbol_id),
    };
    (text_of("symbol"), name)
}

/// The kind and name shown for a symbol identifier of a chunk in
/// `file_path`, with the final path components that `Path::file_name`
/// finds.  For plain paths those are the texts after their last
/// `/`; of every path, the result is [`symbol_id_parts`] of some pair of
/// them.
pub fn split_symbol_id(symbol_id: &str, file_path: &str) -> (res: (String, String))
    ensures
        exists|rest_name: Option<Seq<char>>, path_name: Option<Seq<char>>|
            (res.0@, res.1@) == symbol_id_parts(symbol_id@, rest_name, path_name),
        documented_file_name(file_path@) && (starts_with_seq(symbol_id@, "file:"@) ==> documented_file_name(
            symbol_id@.skip(5),
        )) ==> (res.0@, res.1@) == symbol_id_parts(
            symbol_id@,
            if starts_with_seq(symbol_id@, "file:"@) {
                Some(after_last(symbol_id@.skip(5), '/'))
            } else {
                None
            },
            Some(after_last(file_path@, '/')),
        ),
{
    let chars = chars_of(symbol_id);
    proof {
        reveal_strlit("file:");
    }
    let rest_name = if starts_with_str(chars.as_slice(), "file:") {
        let mut rest: Vec<char> = Vec::new();
        let mut i: usize = 5;
        while i < chars.len()
            invariant
                5 <= i <= chars@.len(),
                rest@ == chars@.subrange(5, i as int),
            decreases chars@.len() - i,
        {
            rest.push(chars[i]);
            proof {
                assert(rest@ =~= chars@.subrange(5, i + 1));
            }
            i += 1;
        }
        let rest_text = string_from_chars(rest.as_slice());
        path_file_name(rest_text.as_str())
    } else {
        None
    };
    let path_name = path_file_name(file_path);
    split_symbol_id_with(symbol_id, rest_name, path_name)
}

/// A location written as a file, `:`, and a line number in decimal digits
/// reads back as that file and that line; the file may itself hold `:`.
pub proof fn law_location_round_trip(file: Seq<char>, digits: Seq<char>)
    requires
        digits.len() > 0,
        all_digits(digits),
        digits_value(digits) <= usize::MAX,
    ensures
        spec_parse_location(file + seq![':'] + digits) == Ok::<(Seq<char>, usize), LocationError>(
            (file, digits_value(digits) as usize),
        ),
{
    let loc = file + seq![':'] + digits;
    assert(!has_char(digits, ':')) by {
        if has_char(digits, ':') {
            let i = choose|i: int| 0 <= i < digits.len() && digits[i] == ':';
            assert('0' <= digits[i] && digits[i] <= '9');
        }
    }
    lemma_split_concat(file, ':', digits);
    lemma_split_without_sep(digits, ':');
    let parts = split_on(loc, ':');
    assert(parts.last() == digits);
    assert(loc.take(loc.len() - digits.len() - 1) =~= file);
    assert(digits[0] != '+') by {
        assert('0' <= digits[0] && digits[0] <= '9');
    }
}

/// The decimal writing of a number is a run of digits that reads back as
/// that number.
proof fn lemma_decimal_digits(n: nat)
    ensures
        decimal(n).len() > 0,
        all_digits(decimal(n)),
        digits_value(decimal(n)) == n,
    decreases n,
{
    if n < 10 {
        let s = decimal(n);
        assert(s.drop_last() =~= Seq::<char>::empty());
        assert(digits_value(s.drop_last()) == 0);
    } else {
        lemma_decimal_digits(n / 10);
        let s = decimal(n);
        assert(s.drop_last() =~= decimal(n / 10));
        assert(((s.last() as int - '0' as int) as nat) == n % 10);
        assert((n / 10) * 10 + n % 10 == n) by (nonlinear_arith);
        assert forall|i: int| 0 <= i < s.len() implies '0' <= #[trigger] s[i] && s[i] <= '9' by {
            if i < s.len() - 1 {
                assert(s[i] == decimal(n / 10)[i]);
            }
        }
    }
}

/// A location written as a file, `:` and a line number in decimal reads
/// back as that file and that line, for every file and every line.
pub proof fn law_location_written_reads_back(file: Seq<char>, line: usize)
    ensures
        spec_parse_location(file + seq![':'] + decimal(line as nat)) == Ok::<(Seq<char>, usize), LocationError>(
            (file, line),
        ),
{
    lemma_decimal_digits(line as nat);
    law_location_round_trip(file, decimal(line as nat));
}

/// The kind and name shown for a symbol identifier `kind:scope:name` are
/// its kind and name, whatever the scope, when neither holds a `:` and the
/// kind is not `file`.
pub proof fn law_symbol_id_shows_kind_and_name(
    kind: Seq<char>,
    scope: Seq<char>,
    name: Seq<char>,
    rest_name: Option<Seq<char>>,
    path_name: Option<Seq<char>>,
)
    requires
        !has_char(kind, ':'),
        !has_char(name, ':'),
        kind != "file"@,
    ensures
        symbol_id_parts(symbol_id_of(kind, scope, name), rest_name, path_name) == (kind, name),
{
    reveal_strlit(":");
    reveal_strlit("file:");
    reveal_strlit("file");
    let id = symbol_id_of(kind, scope, name);
    assert(":"@ =~= seq![':']);
    assert(id =~= kind + seq![':'] + (scope + seq![':'] + name));
    lemma_split_concat(kind, ':', scope + seq![':'] + name);
    lemma_split_concat(scope, ':', name);
    lemma_split_without_sep(kind, ':');
    lemma_split_without_sep(name, ':');
    let parts = split_on(id, ':');
    assert(parts =~= seq![kind] + split_on(scope, ':') + seq![name]);
    assert(parts[0] == kind);
    assert(parts.last() == name);
    assert(!starts_with_seq(id, "file:"@)) by {
        if starts_with_seq(id, "file:"@) {
            if kind.len() >= 5 {
                assert(id[4] == kind[4]);
                assert(id.take(5)[4] == ':');
            } else {
                assert(id[kind.len() as int] == ':');
                assert(id.take(5)[kind.len() as int] == ':');
                assert(kind.len() == 4);
                assert(kind =~= "file"@) by {
                    assert forall|i: int| 0 <= i < 4 implies kind[i] == "file"@[i] by {
                        assert(id[i] == kind[i]);
                        assert(id.take(5)[i] == "file:"@[i]);
                    }
                }
            }
        }
    }
}

} // verus!

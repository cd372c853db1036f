//! The text shown for a discovery result on the command line.
use vstd::prelude::*;
use crate::protocol::string_views;
use crate::text::{chars_of, contains_seq, decimal, decimal_chars, str_to_uppercase, string_from_chars, uppercase};

verus! {

/// The lines of a result: the line alone, or `start-end`.
pub open spec fn lines_text(start: nat, end: nat) -> Seq<char> {
    if start == end {
        decimal(start)
    } else {
        decimal(start) + "-"@ + decimal(end)
    }
}

/// The reasons as a list, one `  - reason` per line.
pub open spec fn bullets(rs: Seq<Seq<char>>) -> Seq<char>
    decreases rs.len(),
{
    if rs.len() == 0 {
        seq![]
    } else if rs.len() == 1 {
        "  - "@ + rs[0]
    } else {
        bullets(rs.drop_last()) + "\n"@ + "  - "@ + rs.last()
    }
}

/// The `Why:` block of a result: nothing when it has no reasons.
pub open spec fn why_text(rs: Seq<Seq<char>>) -> Seq<char> {
    if rs.len() == 0 {
        seq![]
    } else {
        "\n  Why:\n"@ + bullets(rs) + "\n"@
    }
}

/// The text shown for a result: its kind in capitals and its name, its
/// confidence label and percentage, the reasons, its symbol identifier, and
/// its file and lines.
pub open spec fn discovery_layout(
    kind: Seq<char>,
    name: Seq<char>,
    confidence: Seq<char>,
    percent: Seq<char>,
    reasons: Seq<Seq<char>>,
    symbol_id: Seq<char>,
    file_path: Seq<char>,
    start_line: nat,
    end_line: nat,
) -> Seq<char> {
    uppercase(kind) + "\n  "@ + name + "\n\n  Confidence: "@ + confidence + " ("@ + percent + "%)\n"@
        + why_text(reasons) + "\n  Symbol:\n  "@ + symbol_id + "\n\n  File:\n  "@ + file_path + ":"@
        + lines_text(start_line, end_line) + "\n"@
}

/// Appends the characters of `s` to `out`.
fn append_chars(out: &mut Vec<char>, s: &[char])
    ensures
        final(out)@ == old(out)@ + s@,
{
    let ghost start = out@;
    let mut i: usize = 0;
    while i < s.len()
        invariant
            i <= s@.len(),
            out@ == start + s@.subrange(0, i as int),
        decreases s@.len() - i,
    {
        out.push(s[i]);
        assert(s@.subrange(0, i + 1) =~= s@.subrange(0, i as int).push(s@[i as int]));
        i += 1;
    }
    assert(s@.subrange(0, s@.len() as int) =~= s@);
}

/// Appends the characters of `s` to `out`.
fn append_str(out: &mut Vec<char>, s: &str)
    ensures
        final(out)@ == old(out)@ + s@,
{
    let c = chars_of(s);
    append_chars(out, c.as_slice());
}

/// The reasons list of a result.
fn bullets_chars(reasons: &Vec<String>) -> (res: Vec<char>)
    ensures
        res@ == bullets(string_views(reasons@)),
{
    let ghost rs = string_views(reasons@);
    let mut out: Vec<char> = Vec::new();
    let mut i: usize = 0;
    while i < reasons.len()
        invariant
            rs == string_views(reasons@),
            i <= reasons@.len(),
            out@ == bullets(rs.subrange(0, i as int)),
        decreases reasons@.len() - i,
    {
        let ghost before = rs.subrange(0, i as int);
        let ghost after = rs.subrange(0, i + 1);
        assert(after.drop_last() =~= before);
        assert(after.last() == reasons@[i as int]@);
        if i > 0 {
            append_str(&mut out, "\n");
        }
        append_str(&mut out, "  - ");
        append_str(&mut out, reasons[i].as_str());
        if i == 0 {
            assert(after.len() == 1);
            assert(out@ =~= "  - "@ + after[0]);
        } else {
            assert(out@ =~= bullets(before) + "\n"@ + "  - "@ + after.last());
        }
        i += 1;
    }
    assert(rs.subrange(0, reasons@.len() as int) =~= rs);
    out
}

/// The text shown for a discovery result, given the kind and name its
/// symbol identifier shows, its confidence label and its percentage as
/// text.
pub fn format_discovery(
    kind: &str,
    name: &str,
    confidence: &str,
    percent: &str,
    reasons: &Vec<String>,
    symbol_id: &str,
    file_path: &str,
    start_line: usize,
    end_line: usize,
) -> (res: String)
    ensures
        res@ == discovery_layout(
            kind@,
            name@,
            confidence@,
            percent@,
            string_views(reasons@),
            symbol_id@,
            file_path@,
            start_line as nat,
            end_line as nat,
        ),
{
    let mut out: Vec<char> = Vec::new();
    let upper = str_to_uppercase(kind);
    append_str(&mut out, upper.as_str());
    append_str(&mut out, "\n  ");
    append_str(&mut out, name);
    append_str(&mut out, "\n\n  Confidence: ");
    append_str(&mut out, confidence);
    append_str(&mut out, " (");
    append_str(&mut out, percent);
    append_str(&mut out, "%)\n");
    if reasons.len() > 0 {
        append_str(&mut out, "\n  Why:\n");
        let b = bullets_chars(reasons);
        append_chars(&mut out, b.as_slice());
        append_str(&mut out, "\n");
    }
    append_str(&mut out, "\n  Symbol:\n  ");
    append_str(&mut out, symbol_id);
    append_str(&mut out, "\n\n  File:\n  ");
    append_str(&mut out, file_path);
    append_str(&mut out, ":");
    let s = decimal_chars(start_line);
    append_chars(&mut out, s.as_slice());
    if start_line != end_line {
        append_str(&mut out, "-");
        let e = decimal_chars(end_line);
        append_chars(&mut out, e.as_slice());
    }
    append_str(&mut out, "\n");
    let ghost rs = string_views(reasons@);
    assert(out@ =~= discovery_layout(
        kind@,
        name@,
        confidence@,
        percent@,
        rs,
        symbol_id@,
        file_path@,
        start_line as nat,
        end_line as nat,
    ));
    string_from_chars(out.as_slice())
}

/// The reasons list has one line `  - reason` per reason, in order: no
/// reasons give no text, one reason its own line, and one more reason adds
/// exactly one more line after the others.
pub proof fn law_one_line_per_reason(rs: Seq<Seq<char>>, r: Seq<char>)
    ensures
        bullets(Seq::<Seq<char>>::empty()) == Seq::<char>::empty(),
        bullets(seq![r]) == "  - "@ + r,
        rs.len() > 0 ==> bullets(rs.push(r)) == bullets(rs) + "\n  - "@ + r,
{
    assert(seq![r].len() == 1);
    if rs.len() > 0 {
        let rr = rs.push(r);
        assert(rr.drop_last() =~= rs);
        assert(rr.last() == r);
        assert(rr.len() >= 2);
        assert(bullets(rs) + "\n"@ + "  - "@ + r =~= bullets(rs) + "\n  - "@ + r) by {
            reveal_strlit("\n");
            reveal_strlit("  - ");
            reveal_strlit("\n  - ");
        }
    }
}

/// Every reason of a result shows in its `Why:` block, on a line of its own
/// that starts with `  - `.
pub proof fn law_every_reason_shows(rs: Seq<Seq<char>>, i: int)
    requires
        0 <= i < rs.len(),
    ensures
        contains_seq(why_text(rs), "  - "@ + rs[i]),
    decreases rs.len(),
{
    lemma_bullets_show(rs, i);
    let b = bullets(rs);
    let w = why_text(rs);
    let p = "  - "@ + rs[i];
    let k = choose|k: int| 0 <= k && k + p.len() <= b.len() && #[trigger] b.subrange(k, k + p.len()) == p;
    let off = "\n  Why:\n"@.len() as int;
    assert(w == "\n  Why:\n"@ + b + "\n"@);
    assert(w.subrange(off + k, off + k + p.len()) =~= b.subrange(k, k + p.len()));
}

proof fn lemma_bullets_show(rs: Seq<Seq<char>>, i: int)
    requires
        0 <= i < rs.len(),
    ensures
        contains_seq(bullets(rs), "  - "@ + rs[i]),
    decreases rs.len(),
{
    let p = "  - "@ + rs[i];
    if rs.len() == 1 {
        assert(i == 0);
        assert(bullets(rs) == p);
        let z: int = 0;
        assert(bullets(rs).subrange(z, z + p.len()) =~= p);
        assert(contains_seq(bullets(rs), p));
    } else if i == rs.len() - 1 {
        let b = bullets(rs);
        let front = bullets(rs.drop_last()) + "\n"@;
        assert(b == front + p);
        assert(b.subrange(front.len() as int, (front.len() + p.len()) as int) =~= p);
        assert(contains_seq(b, p));
    } else {
        lemma_bullets_show(rs.drop_last(), i);
        assert(rs.drop_last()[i] == rs[i]);
        let d = bullets(rs.drop_last());
        let k = choose|k: int| 0 <= k && k + p.len() <= d.len() && #[trigger] d.subrange(k, k + p.len()) == p;
        let b = bullets(rs);
        assert(b == d + "\n"@ + "  - "@ + rs.last());
        assert(b.subrange(k, k + p.len()) =~= d.subrange(k, k + p.len()));
        assert(contains_seq(b, p));
    }
}

} // verus!

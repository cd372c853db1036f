//! How chunks and symbol records are written to index documents and read back.
use vstd::prelude::*;
use crate::protocol::{string_views, ChunkView, CodeChunk, SymbolRecord, SymbolView};
use crate::text::{chars_of, is_white, split_whitespace_chars, string_from_chars, text_of, ws_scan, ws_tokens};

verus! {

/// The parts joined with a single space between each two.
pub open spec fn join_spaced(parts: Seq<Seq<char>>) -> Seq<char>
    decreases parts.len(),
{
    if parts.len() == 0 {
        seq![]
    } else if parts.len() == 1 {
        parts[0]
    } else {
        join_spaced(parts.drop_last()) + seq![' '] + parts.last()
    }
}

/// The text stored for the symbols of a chunk: their identifiers joined by
/// single spaces.
pub fn symbols_text(symbols: &Vec<String>) -> (res: String)
    ensures
        res@ == join_spaced(string_views(symbols@)),
{
    let ghost v = string_views(symbols@);
    let mut res = String::new();
    let mut i: usize = 0;
    while i < symbols.len()
        invariant
            v == string_views(symbols@),
            i <= symbols@.len(),
            res@ == join_spaced(v.take(i as int)),
        decreases symbols@.len() - i,
    {
        assert(v.take(i + 1).drop_last() =~= v.take(i as int));
        if i > 0 {
            res.append(" ");
            proof {
                reveal_strlit(" ");
                assert(" "@ =~= seq![' ']);
            }
        } else {
            assert(res@ =~= Seq::<char>::empty());
        }
        res.append(symbols[i].as_str());
        proof {
            if i == 0 {
                assert(res@ =~= v.take(1)[0]);
            }
        }
        i += 1;
    }
    assert(v.take(symbols@.len() as int) =~= v);
    res
}

/// The symbol identifiers read back from stored text: its
/// whitespace-separated tokens.
pub fn symbols_from_text(text: &str) -> (res: Vec<String>)
    ensures
        string_views(res@) == ws_tokens(text@),
{
    let chars = chars_of(text);
    let toks = split_whitespace_chars(chars.as_slice());
    let mut res: Vec<String> = Vec::new();
    let mut i: usize = 0;
    while i < toks.len()
        invariant
            toks@.len() == ws_tokens(text@).len(),
            forall|k: int| 0 <= k < toks@.len() ==> #[trigger] toks@[k]@ == ws_tokens(text@)[k],
            i <= toks@.len(),
            string_views(res@) == ws_tokens(text@).take(i as int),
        decreases toks@.len() - i,
    {
        let t = string_from_chars(toks[i].as_slice());
        assert(t@ == ws_tokens(text@)[i as int]);
        let ghost prev = res@;
        res.push(t);
        assert(string_views(res@) =~= string_views(prev).push(t@));
        assert(string_views(res@) =~= ws_tokens(text@).take(i + 1));
        i += 1;
    }
    assert(ws_tokens(text@).take(toks@.len() as int) =~= ws_tokens(text@));
    res
}

/// A chunk read back from the fields of a stored document.
pub open spec fn stored_chunk(
    id: Seq<char>,
    file_path: Seq<char>,
    start_line: u64,
    end_line: u64,
    content: Seq<char>,
    symbols: Seq<char>,
) -> ChunkView {
    ChunkView {
        id,
        file_path,
        start_line: start_line as usize,
        end_line: end_line as usize,
        raw_content: content,
        symbols_defined: ws_tokens(symbols),
    }
}

/// The chunk read back from the fields of a stored document.
pub fn chunk_from_document(
    id: &str,
    file_path: &str,
    start_line: u64,
    end_line: u64,
    content: &str,
    symbols: &str,
) -> (res: CodeChunk)
    ensures
        res@ == stored_chunk(id@, file_path@, start_line, end_line, content@, symbols@),
{
    CodeChunk {
        id: text_of(id),
        file_path: text_of(file_path),
        start_line: start_line as usize,
        end_line: end_line as usize,
        raw_content: text_of(content),
        symbols_defined: symbols_from_text(symbols),
    }
}

/// The symbol record read back from the fields of a stored document.
pub fn symbol_from_document(
    symbol_id: &str,
    symbol_name: &str,
    file_path: &str,
    start_line: u64,
    end_line: u64,
) -> (res: SymbolRecord)
    ensures
        res@ == (SymbolView {
            symbol_id: symbol_id@,
            symbol_name: symbol_name@,
            file_path: file_path@,
            start_line: start_line as usize,
            end_line: end_line as usize,
        }),
{
    SymbolRecord {
        symbol_id: text_of(symbol_id),
        symbol_name: text_of(symbol_name),
        file_path: text_of(file_path),
        start_line: start_line as usize,
        end_line: end_line as usize,
    }
}

/// Whether a text is a single token: not empty and free of `White_Space`.
pub open spec fn is_token(t: Seq<char>) -> bool {
    t.len() > 0 && forall|i: int| 0 <= i < t.len() ==> !is_white(#[trigger] t[i])
}

proof fn lemma_scan_token(t: Seq<char>)
    requires
        forall|i: int| 0 <= i < t.len() ==> !is_white(#[trigger] t[i]),
    ensures
        ws_scan(t) == (Seq::<Seq<char>>::empty(), t),
    decreases t.len(),
{
    if t.len() > 0 {
        lemma_scan_token(t.drop_last());
        assert(!is_white(t[t.len() - 1]));
        assert(t.drop_last().push(t.last()) =~= t);
    } else {
        assert(t =~= Seq::<char>::empty());
    }
}

/// Scanning a text after a prefix whose scan ends between tokens continues
/// from the prefix's tokens.
proof fn lemma_scan_after(a: Seq<char>, y: Seq<char>)
    requires
        ws_scan(a).1.len() == 0,
    ensures
        ws_scan(a + y) == (ws_scan(a).0 + ws_scan(y).0, ws_scan(y).1),
    decreases y.len(),
{
    if y.len() == 0 {
        assert(a + y =~= a);
        assert(ws_scan(a).0 + ws_scan(y).0 =~= ws_scan(a).0);
    } else {
        lemma_scan_after(a, y.drop_last());
        assert((a + y).drop_last() =~= a + y.drop_last());
        assert((a + y).last() == y.last());
        let (yp, yc) = ws_scan(y.drop_last());
        assert(ws_scan(a).0 + yp.push(yc) =~= (ws_scan(a).0 + yp).push(yc));
    }
}

/// The tokens of a join of tokens are those tokens.
proof fn lemma_join_tokens(parts: Seq<Seq<char>>)
    requires
        forall|i: int| 0 <= i < parts.len() ==> is_token(#[trigger] parts[i]),
    ensures
        ws_tokens(join_spaced(parts)) == parts,
        parts.len() > 0 ==> ws_scan(join_spaced(parts)) == (parts.drop_last(), parts.last()),
    decreases parts.len(),
{
    if parts.len() == 0 {
        assert(ws_tokens(join_spaced(parts)) =~= parts);
    } else if parts.len() == 1 {
        lemma_scan_token(parts[0]);
        assert(parts.drop_last() =~= Seq::<Seq<char>>::empty());
        assert(ws_tokens(join_spaced(parts)) =~= parts);
    } else {
        let d = parts.drop_last();
        assert forall|i: int| 0 <= i < d.len() implies is_token(#[trigger] d[i]) by {
            assert(d[i] == parts[i]);
        }
        lemma_join_tokens(d);
        let j = join_spaced(d);
        let js = j + seq![' '];
        assert(js.drop_last() =~= j);
        assert(ws_scan(js) == (d.drop_last().push(d.last()), Seq::<char>::empty()));
        assert(d.drop_last().push(d.last()) =~= d);
        lemma_scan_after(js, parts.last());
        lemma_scan_token(parts.last());
        assert(d + Seq::<Seq<char>>::empty() =~= d);
        assert(join_spaced(parts) == js + parts.last());
        assert(d.push(parts.last()) =~= parts);
    }
}

/// What is stored for the symbols of a chunk reads back as those symbols,
/// when each is a token.
pub proof fn law_symbols_round_trip(symbols: Seq<Seq<char>>)
    requires
        forall|i: int| 0 <= i < symbols.len() ==> is_token(#[trigger] symbols[i]),
    ensures
        ws_tokens(join_spaced(symbols)) == symbols,
{
    lemma_join_tokens(symbols);
}

} // verus!

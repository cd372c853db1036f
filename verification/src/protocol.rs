//! The records that flow between the parser, the storage and the ranker.
use vstd::prelude::*;

verus! {

/// A contiguous region of a source file, indexed as one retrieval unit.
#[derive(Debug, Clone)]
pub struct CodeChunk {
    pub id: String,
    pub file_path: String,
    pub start_line: usize,
    pub end_line: usize,
    pub raw_content: String,
    pub symbols_defined: Vec<String>,
}

/// A symbol definition: its stable identifier, its name and where it stands.
#[derive(Debug, Clone)]
pub struct SymbolRecord {
    pub symbol_id: String,
    pub symbol_name: String,
    pub file_path: String,
    pub start_line: usize,
    pub end_line: usize,
}

/// The contents of a chunk as plain values.
pub struct ChunkView {
    pub id: Seq<char>,
    pub file_path: Seq<char>,
    pub start_line: usize,
    pub end_line: usize,
    pub raw_content: Seq<char>,
    pub symbols_defined: Seq<Seq<char>>,
}

/// The contents of a symbol record as plain values.
pub struct SymbolView {
    pub symbol_id: Seq<char>,
    pub symbol_name: Seq<char>,
    pub file_path: Seq<char>,
    pub start_line: usize,
    pub end_line: usize,
}

/// The views of a sequence of strings.
pub open spec fn string_views(v: Seq<String>) -> Seq<Seq<char>> {
    v.map_values(|s: String| s@)
}

impl View for CodeChunk {
    type V = ChunkView;

    open spec fn view(&self) -> ChunkView {
        ChunkView {
            id: self.id@,
            file_path: self.file_path@,
            start_line: self.start_line,
            end_line: self.end_line,
            raw_content: self.raw_content@,
            symbols_defined: string_views(self.symbols_defined@),
        }
    }
}

impl View for SymbolRecord {
    type V = SymbolView;

    open spec fn view(&self) -> SymbolView {
        SymbolView {
            symbol_id: self.symbol_id@,
            symbol_name: self.symbol_name@,
            file_path: self.file_path@,
            start_line: self.start_line,
            end_line: self.end_line,
        }
    }
}

/// A copy of a vector of strings.
pub fn copy_strings(v: &Vec<String>) -> (res: Vec<String>)
    ensures
        res@ == v@,
{
    let mut res: Vec<String> = Vec::new();
    let mut i: usize = 0;
    while i < v.len()
        invariant
            i <= v@.len(),
            res@ == v@.take(i as int),
        decreases v@.len() - i,
    {
        res.push(v[i].clone());
        proof {
            assert(res@ =~= v@.take(i + 1));
        }
        i += 1;
    }
    assert(v@.take(v@.len() as int) =~= v@);
    res
}

impl CodeChunk {
    /// A field-by-field copy of the chunk.
    pub fn duplicate(&self) -> (res: CodeChunk)
        ensures
            res@ == self@,
    {
        CodeChunk {
            id: self.id.clone(),
            file_path: self.file_path.clone(),
            start_line: self.start_line,
            end_line: self.end_line,
            raw_content: self.raw_content.clone(),
            symbols_defined: copy_strings(&self.symbols_defined),
        }
    }
}

} // verus!

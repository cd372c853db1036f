//! Dispatch of source files to the symbol extractor of their language.
use vstd::prelude::*;
use crate::protocol::{CodeChunk, SymbolRecord};
use crate::symbol_extraction::{go, javascript, python, ExtractError};
use crate::syntax::opt_chars;
use crate::text::{after_last, contains_seq, extension_text, has_char, plain_path, text_of};

verus! {

/// The languages that the parser tells apart by file extension.
#[derive(Debug, Clone, Copy, PartialEq, Eq, Structural)]
pub enum SourceLanguage {
    Rust,
    Go,
    TypeScript,
    JavaScript,
    Python,
}

/// The language of a file extension: `rs`, `go`, `ts` or `tsx`, `js` or
/// `jsx`, and `py`.
pub open spec fn language_of_extension(ext: Seq<char>) -> Option<SourceLanguage> {
    if ext == "rs"@ {
        Some(SourceLanguage::Rust)
    } else if ext == "go"@ {
        Some(SourceLanguage::Go)
    } else if ext == "ts"@ || ext == "tsx"@ {
        Some(SourceLanguage::TypeScript)
    } else if ext == "js"@ || ext == "jsx"@ {
        Some(SourceLanguage::JavaScript)
    } else if ext == "py"@ {
        Some(SourceLanguage::Python)
    } else {
        None
    }
}

/// The language of a file extension.
pub fn language_for_extension(ext: &str) -> (res: Option<SourceLanguage>)
    ensures
        res == language_of_extension(ext@),
{
    let e = text_of(ext);
    if e == text_of("rs") {
        Some(SourceLanguage::Rust)
    } else if e == text_of("go") {
        Some(SourceLanguage::Go)
    } else if e == text_of("ts") || e == text_of("tsx") {
        Some(SourceLanguage::TypeScript)
    } else if e == text_of("js") || e == text_of("jsx") {
        Some(SourceLanguage::JavaScript)
    } else if e == text_of("py") {
        Some(SourceLanguage::Python)
    } else {
        None
    }
}

/// What holds of the parse of the file at `path` with the text `content`
/// (of `byte_len` bytes) in the language `lang`:
/// Go, Python and JavaScript files go to their extractors; files of the
/// other languages yield no chunks and no symbols, there being no extractor
/// for them here.
pub open spec fn parsed(
    lang: Option<SourceLanguage>,
    path: Seq<char>,
    content: Seq<char>,
    byte_len: nat,
    res: Result<(Vec<CodeChunk>, Vec<SymbolRecord>), ExtractError>,
) -> bool {
    match lang {
        Some(SourceLanguage::Go) => go::extracted(path, content, byte_len, res),
        Some(SourceLanguage::Python) => python::extracted(path, content, byte_len, res),
        Some(SourceLanguage::JavaScript) => javascript::extracted(path, content, byte_len, res),
        _ => res matches Ok((chunks, symbols)) && chunks@.len() == 0 && symbols@.len() == 0,
    }
}

/// Whether `Path` finds the extension of `path` as its documentation
/// describes it, on every platform: the path is plain (see [`plain_path`]), and its
/// final component is not `..`.
pub open spec fn documented_extension(path: Seq<char>) -> bool {
    plain_path(path) && after_last(path, '/') != ".."@
}

/// The extension by which a file's language is chosen: that of its final
/// component, or empty where it has none.
pub open spec fn extension_of_path(path: Seq<char>) -> Seq<char> {
    match extension_text(after_last(path, '/')) {
        Some(e) => e,
        None => seq![],
    }
}

/// `Path::extension`, as text.  Of every outcome: an extension holds no
/// `.`.  Of a plain path whose final component is not `..`, as
/// `Path`'s documentation describes it: the file name is the text after
/// the last `/`, and its extension the text after its last `.`, none where
/// it holds no `.` or only a leading one.  Of other paths the result is
/// not stated.
#[verifier::external_body]
fn path_extension(path: &str) -> (res: Option<String>)
    ensures
        res matches Some(e) ==> !has_char(e@, '.'),
        documented_extension(path@) ==> opt_chars(res) == extension_text(after_last(path@, '/')),
{
    std::path::Path::new(path).extension().and_then(|e| e.to_str()).map(|e| e.to_string())
}

/// The source parser.
pub struct Parser {}

impl Parser {
    /// A parser.
    pub fn new() -> (res: Parser)
        ensures
            res == (Parser {}),
    {
        Parser {}
    }

    /// Parses a source file in the given language.
    pub fn parse_source(&self, lang: Option<SourceLanguage>, path: &str, content: &str) -> (res: Result<(Vec<CodeChunk>, Vec<SymbolRecord>), ExtractError>)
        ensures
            parsed(lang, path@, content@, content.len() as nat, res),
    {
        match lang {
            Some(SourceLanguage::Go) => go::extract(path, content),
            Some(SourceLanguage::Python) => python::extract(path, content),
            Some(SourceLanguage::JavaScript) => javascript::extract(path, content),
            _ => Ok((Vec::new(), Vec::new())),
        }
    }

    /// Parses a source file, choosing its language by the extension of its
    /// path: for a plain path, the text after the last `.` of its
    /// final component.  Of every path: the result is the parse in the
    /// language of some extension holding no `.`.
    pub fn parse_file(&self, path: &str, content: &str) -> (res: Result<(Vec<CodeChunk>, Vec<SymbolRecord>), ExtractError>)
        ensures
            exists|ext: Seq<char>| !has_char(ext, '.') && parsed(language_of_extension(ext), path@, content@, content.len() as nat, res),
            documented_extension(path@) ==> parsed(language_of_extension(extension_of_path(path@)), path@, content@, content.len() as nat, res),
    {
        let ext = match path_extension(path) {
            Some(e) => e,
            None => String::new(),
        };
        let lang = language_for_extension(ext.as_str());
        let res = self.parse_source(lang, path, content);
        assert(!has_char(ext@, '.'));
        res
    }
}

impl Default for Parser {
    fn default() -> (res: Parser)
        ensures
            res == (Parser {}),
    {
        Parser::new()
    }
}

/// Whatever the language, every chunk a parse yields is a region of the
/// parsed text, whose lines run forward from line 1.
pub proof fn law_parsed_chunks_are_source_regions(
    lang: Option<SourceLanguage>,
    path: Seq<char>,
    content: Seq<char>,
    byte_len: nat,
    res: Result<(Vec<CodeChunk>, Vec<SymbolRecord>), ExtractError>,
)
    requires
        parsed(lang, path, content, byte_len, res),
    ensures
        res matches Ok((chunks, symbols)) ==> forall|i: int|
            0 <= i < chunks@.len() ==> contains_seq(content, (#[trigger] chunks@[i])@.raw_content) && 1
                <= chunks@[i]@.start_line <= chunks@[i]@.end_line,
{
    match lang {
        Some(SourceLanguage::Go) => go::law_chunks_are_source_regions(path, content, byte_len, res),
        Some(SourceLanguage::Python) => python::law_chunks_are_source_regions(path, content, byte_len, res),
        Some(SourceLanguage::JavaScript) => javascript::law_chunks_are_source_regions(path, content, byte_len, res),
        _ => {},
    }
}

/// Files are told apart by extension: `go` is Go, `py` is Python, `js`
/// and `jsx` are JavaScript, `ts` and `tsx` TypeScript, `rs` Rust, and any
/// other extension is no language the parser knows.
pub proof fn law_extension_languages(ext: Seq<char>)
    ensures
        (language_of_extension(ext) == Some(SourceLanguage::Go)) <==> ext == "go"@,
        (language_of_extension(ext) == Some(SourceLanguage::Python)) <==> ext == "py"@,
        (language_of_extension(ext) == Some(SourceLanguage::JavaScript)) <==> (ext == "js"@ || ext == "jsx"@),
        (language_of_extension(ext) == Some(SourceLanguage::TypeScript)) <==> (ext == "ts"@ || ext == "tsx"@),
        (language_of_extension(ext) == Some(SourceLanguage::Rust)) <==> ext == "rs"@,
        language_of_extension(ext) is None <==> !seq!["go"@, "py"@, "js"@, "jsx"@, "ts"@, "tsx"@, "rs"@].contains(ext),
{
    let l = seq!["go"@, "py"@, "js"@, "jsx"@, "ts"@, "tsx"@, "rs"@];
    reveal_strlit("go");
    reveal_strlit("py");
    reveal_strlit("js");
    reveal_strlit("jsx");
    reveal_strlit("ts");
    reveal_strlit("tsx");
    reveal_strlit("rs");
    assert("go"@[0] == 'g' && "py"@[0] == 'p' && "js"@[0] == 'j' && "jsx"@[0] == 'j' && "ts"@[0] == 't'
        && "tsx"@[0] == 't' && "rs"@[0] == 'r');
    if ext == "go"@ {
        assert(l[0] == ext);
    } else if ext == "py"@ {
        assert(l[1] == ext);
    } else if ext == "js"@ {
        assert(l[2] == ext);
    } else if ext == "jsx"@ {
        assert(l[3] == ext);
    } else if ext == "ts"@ {
        assert(l[4] == ext);
    } else if ext == "tsx"@ {
        assert(l[5] == ext);
    } else if ext == "rs"@ {
        assert(l[6] == ext);
    }
}

} // verus!

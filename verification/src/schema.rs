//! The layouts of the chunk index and of the symbol index.
use vstd::prelude::*;

verus! {

#[verifier::external_type_specification]
#[verifier::external_body]
pub struct ExSchemaBuilder(tantivy::schema::SchemaBuilder);

#[verifier::external_type_specification]
#[verifier::external_body]
pub struct ExSchema(tantivy::schema::Schema);

#[verifier::external_type_specification]
#[verifier::external_body]
pub struct ExField(tantivy::schema::Field);

#[verifier::external_type_specification]
#[verifier::external_body]
pub struct ExTextOptions(tantivy::schema::TextOptions);

#[verifier::external_type_specification]
#[verifier::external_body]
pub struct ExNumericOptions(tantivy::schema::NumericOptions);

/// The names of the fields added to a schema builder, in the order added.
pub uninterp spec fn builder_field_names(b: tantivy::schema::SchemaBuilder) -> Seq<Seq<char>>;

/// The names of the fields of a schema, in field order.
pub uninterp spec fn schema_field_names(s: tantivy::schema::Schema) -> Seq<Seq<char>>;

/// The number of a field: its position in the schema that defines it.
pub uninterp spec fn field_number(f: tantivy::schema::Field) -> nat;

/// The tokenizer that indexes a text field, `TextOptions::get_indexing_options`
/// and its `tokenizer`; none for an unindexed field.
pub uninterp spec fn text_tokenizer(o: tantivy::schema::TextOptions) -> Option<Seq<char>>;

/// `TextOptions::is_stored`.
pub uninterp spec fn text_is_stored(o: tantivy::schema::TextOptions) -> bool;

/// `NumericOptions::is_indexed`.
pub uninterp spec fn numeric_is_indexed(o: tantivy::schema::NumericOptions) -> bool;

/// `NumericOptions::is_stored`.
pub uninterp spec fn numeric_is_stored(o: tantivy::schema::NumericOptions) -> bool;

/// The shapes of the fields added to a schema builder, in the order added
/// (see [`text_shape`] and [`u64_shape`]).
pub uninterp spec fn builder_field_shapes(b: tantivy::schema::SchemaBuilder) -> Seq<(Seq<char>, Option<Seq<char>>, bool, bool)>;

/// The shapes of the fields of a schema, in field order.
pub uninterp spec fn schema_field_shapes(s: tantivy::schema::Schema) -> Seq<(Seq<char>, Option<Seq<char>>, bool, bool)>;

/// The shape of a text field as plain values: its value type `text`, the
/// tokenizer that indexes it, whether it is indexed, whether it is stored.
pub open spec fn text_shape(o: tantivy::schema::TextOptions) -> (Seq<char>, Option<Seq<char>>, bool, bool) {
    ("text"@, text_tokenizer(o), text_tokenizer(o) is Some, text_is_stored(o))
}

/// The shape of a `u64` field as plain values: its value type `u64`, no
/// tokenizer, whether it is indexed, whether it is stored.
pub open spec fn u64_shape(o: tantivy::schema::NumericOptions) -> (Seq<char>, Option<Seq<char>>, bool, bool) {
    ("u64"@, None, numeric_is_indexed(o), numeric_is_stored(o))
}

/// An untokenized (`raw`), indexed and stored text field.
pub open spec fn raw_stored_text() -> (Seq<char>, Option<Seq<char>>, bool, bool) {
    ("text"@, Some("raw"@), true, true)
}

/// A tokenized (`default` tokenizer), indexed and stored text field.
pub open spec fn tokenized_stored_text() -> (Seq<char>, Option<Seq<char>>, bool, bool) {
    ("text"@, Some("default"@), true, true)
}

/// A stored, unindexed `u64` field.
pub open spec fn stored_u64() -> (Seq<char>, Option<Seq<char>>, bool, bool) {
    ("u64"@, None, false, true)
}

/// A field name that tantivy accepts: not empty and not starting with `-`.
pub open spec fn valid_field_name(name: Seq<char>) -> bool {
    name.len() > 0 && name[0] != '-'
}

/// `tantivy::schema::Schema::builder`: a builder with no fields.
#[verifier::external_body]
fn new_schema_builder() -> (res: tantivy::schema::SchemaBuilder)
    ensures
        builder_field_names(res) == Seq::<Seq<char>>::empty(),
        builder_field_shapes(res) == Seq::<(Seq<char>, Option<Seq<char>>, bool, bool)>::empty(),
{
    tantivy::schema::Schema::builder()
}

/// `STRING | STORED`: text indexed by the `raw` tokenizer, and stored.
#[verifier::external_body]
fn string_stored_options() -> (res: tantivy::schema::TextOptions)
    ensures
        text_tokenizer(res) == Some("raw"@),
        text_is_stored(res),
{
    tantivy::schema::STRING | tantivy::schema::STORED
}

/// `TEXT | STORED`: text indexed by the `default` tokenizer, and stored.
#[verifier::external_body]
fn text_stored_options() -> (res: tantivy::schema::TextOptions)
    ensures
        text_tokenizer(res) == Some("default"@),
        text_is_stored(res),
{
    tantivy::schema::TEXT | tantivy::schema::STORED
}

/// `STORED` as numeric options: a stored, unindexed number.
#[verifier::external_body]
fn stored_numeric_options() -> (res: tantivy::schema::NumericOptions)
    ensures
        !numeric_is_indexed(res),
        numeric_is_stored(res),
{
    tantivy::schema::STORED.into()
}

/// `SchemaBuilder::add_text_field`: the field is appended under `name`
/// with the given options, and its number is the count of fields before
/// it.  The builder panics on a name already added, and on a name that is
/// empty or starts with `-`.
#[verifier::external_body]
fn add_text_field(
    b: &mut tantivy::schema::SchemaBuilder,
    name: &str,
    options: tantivy::schema::TextOptions,
) -> (res: tantivy::schema::Field)
    requires
        !builder_field_names(*old(b)).contains(name@),
        builder_field_names(*old(b)).len() < u32::MAX,
        valid_field_name(name@),
    ensures
        builder_field_names(*final(b)) == builder_field_names(*old(b)).push(name@),
        builder_field_shapes(*final(b)) == builder_field_shapes(*old(b)).push(text_shape(options)),
        field_number(res) == builder_field_names(*old(b)).len(),
{
    b.add_text_field(name, options)
}

/// `SchemaBuilder::add_u64_field`: the field is appended under `name`
/// with the given options, and its number is the count of fields before
/// it.  The builder panics on a name already added, and on a name that is
/// empty or starts with `-`.
#[verifier::external_body]
fn add_u64_field(
    b: &mut tantivy::schema::SchemaBuilder,
    name: &str,
    options: tantivy::schema::NumericOptions,
) -> (res: tantivy::schema::Field)
    requires
        !builder_field_names(*old(b)).contains(name@),
        builder_field_names(*old(b)).len() < u32::MAX,
        valid_field_name(name@),
    ensures
        builder_field_names(*final(b)) == builder_field_names(*old(b)).push(name@),
        builder_field_shapes(*final(b)) == builder_field_shapes(*old(b)).push(u64_shape(options)),
        field_number(res) == builder_field_names(*old(b)).len(),
{
    b.add_u64_field(name, options)
}

/// `SchemaBuilder::build`: the schema holds the fields added, with their
/// options, in order.
#[verifier::external_body]
fn build_schema(b: tantivy::schema::SchemaBuilder) -> (res: tantivy::schema::Schema)
    ensures
        schema_field_names(res) == builder_field_names(b),
        schema_field_shapes(res) == builder_field_shapes(b),
{
    b.build()
}

/// The layout of the chunk index.
pub struct ChunkSchema {
    pub schema: tantivy::schema::Schema,
    pub id: tantivy::schema::Field,
    pub file_path: tantivy::schema::Field,
    pub start_line: tantivy::schema::Field,
    pub end_line: tantivy::schema::Field,
    pub content: tantivy::schema::Field,
    pub symbols: tantivy::schema::Field,
}

impl ChunkSchema {
    /// The chunk layout: `id` (untokenized text), `file_path` (tokenized
    /// text), `start_line` and `end_line` (numbers), `content` and `symbols`
    /// (tokenized text), in that order, each field stored and numbered by its
    /// position.
    pub fn new() -> (res: ChunkSchema)
        ensures
            schema_field_names(res.schema) == seq![
                "id"@,
                "file_path"@,
                "start_line"@,
                "end_line"@,
                "content"@,
                "symbols"@,
            ],
            schema_field_shapes(res.schema) == seq![
                raw_stored_text(),
                tokenized_stored_text(),
                stored_u64(),
                stored_u64(),
                tokenized_stored_text(),
                tokenized_stored_text(),
            ],
            field_number(res.id) == 0,
            field_number(res.file_path) == 1,
            field_number(res.start_line) == 2,
            field_number(res.end_line) == 3,
            field_number(res.content) == 4,
            field_number(res.symbols) == 5,
    {
        proof {
            reveal_strlit("id");
            reveal_strlit("file_path");
            reveal_strlit("start_line");
            reveal_strlit("end_line");
            reveal_strlit("content");
            reveal_strlit("symbols");
        }
        let mut b = new_schema_builder();
        let id = add_text_field(&mut b, "id", string_stored_options());
        assert(builder_field_names(b) =~= seq!["id"@]);
        assert("id"@ != "file_path"@) by {
            reveal_strlit("file_path");
            reveal_strlit("id");
            assert("file_path"@.len() == 9);
            assert("id"@.len() == 2);
        }
        assert(!builder_field_names(b).contains("file_path"@)) by {
            if builder_field_names(b).contains("file_path"@) {
                let k = choose|k: int| 0 <= k < builder_field_names(b).len() && builder_field_names(b)[k] == "file_path"@;
            }
        }
        let file_path = add_text_field(&mut b, "file_path", text_stored_options());
        assert(builder_field_names(b) =~= seq!["id"@, "file_path"@]);
        assert(
            "id"@ != "start_line"@
            && "file_path"@ != "start_line"@
        ) by {
            reveal_strlit("file_path");
            reveal_strlit("id");
            reveal_strlit("start_line");
            assert("file_path"@.len() == 9);
            assert("id"@.len() == 2);
            assert("start_line"@.len() == 10);
        }
        assert(!builder_field_names(b).contains("start_line"@)) by {
            if builder_field_names(b).contains("start_line"@) {
                let k = choose|k: int| 0 <= k < builder_field_names(b).len() && builder_field_names(b)[k] == "start_line"@;
            }
        }
        let start_line = add_u64_field(&mut b, "start_line", stored_numeric_options());
        assert(builder_field_names(b) =~= seq!["id"@, "file_path"@, "start_line"@]);
        assert(
            "id"@ != "end_line"@
            && "file_path"@ != "end_line"@
            && "start_line"@ != "end_line"@
        ) by {
            reveal_strlit("end_line");
            reveal_strlit("file_path");
            reveal_strlit("id");
            reveal_strlit("start_line");
            assert("end_line"@.len() == 8);
            assert("file_path"@.len() == 9);
            assert("id"@.len() == 2);
            assert("start_line"@.len() == 10);
        }
        assert(!builder_field_names(b).contains("end_line"@)) by {
            if builder_field_names(b).contains("end_line"@) {
                let k = choose|k: int| 0 <= k < builder_field_names(b).len() && builder_field_names(b)[k] == "end_line"@;
            }
        }
        let end_line = add_u64_field(&mut b, "end_line", stored_numeric_options());
        assert(builder_field_names(b) =~= seq!["id"@, "file_path"@, "start_line"@, "end_line"@]);
        assert(
            "id"@ != "content"@
            && "file_path"@ != "content"@
            && "start_line"@ != "content"@
            && "end_line"@ != "content"@
        ) by {
            reveal_strlit("content");
            reveal_strlit("end_line");
            reveal_strlit("file_path");
            reveal_strlit("id");
            reveal_strlit("start_line");
            assert("content"@.len() == 7);
            assert("end_line"@.len() == 8);
            assert("file_path"@.len() == 9);
            assert("id"@.len() == 2);
            assert("start_line"@.len() == 10);
        }
        assert(!builder_field_names(b).contains("content"@)) by {
            if builder_field_names(b).contains("content"@) {
                let k = choose|k: int| 0 <= k < builder_field_names(b).len() && builder_field_names(b)[k] == "content"@;
            }
        }
        let content = add_text_field(&mut b, "content", text_stored_options());
        assert(builder_field_names(b) =~= seq!["id"@, "file_path"@, "start_line"@, "end_line"@, "content"@]);
        assert(
            "id"@ != "symbols"@
            && "file_path"@ != "symbols"@
            && "start_line"@ != "symbols"@
            && "end_line"@ != "symbols"@
            && "content"@ != "symbols"@
        ) by {
            reveal_strlit("content");
            reveal_strlit("end_line");
            reveal_strlit("file_path");
            reveal_strlit("id");
            reveal_strlit("start_line");
            reveal_strlit("symbols");
            assert("content"@.len() == 7);
            assert("end_line"@.len() == 8);
            assert("file_path"@.len() == 9);
            assert("id"@.len() == 2);
            assert("start_line"@.len() == 10);
            assert("symbols"@.len() == 7);
            assert("content"@[0] != "symbols"@[0]);
        }
        assert(!builder_field_names(b).contains("symbols"@)) by {
            if builder_field_names(b).contains("symbols"@) {
                let k = choose|k: int| 0 <= k < builder_field_names(b).len() && builder_field_names(b)[k] == "symbols"@;
            }
        }
        let symbols = add_text_field(&mut b, "symbols", text_stored_options());
        let schema = build_schema(b);
        assert(schema_field_names(schema) =~= seq![
            "id"@,
            "file_path"@,
            "start_line"@,
            "end_line"@,
            "content"@,
            "symbols"@,
        ]);
        ChunkSchema { schema, id, file_path, start_line, end_line, content, symbols }
    }
}

/// The layout of the symbol index.
pub struct SymbolSchema {
    pub schema: tantivy::schema::Schema,
    pub symbol_id: tantivy::schema::Field,
    pub symbol_name: tantivy::schema::Field,
    pub symbol_name_exact: tantivy::schema::Field,
    pub file_path: tantivy::schema::Field,
    pub start_line: tantivy::schema::Field,
    pub end_line: tantivy::schema::Field,
}

impl SymbolSchema {
    /// The symbol layout: `symbol_id` (untokenized text), `symbol_name`
    /// (tokenized text), `symbol_name_exact` (untokenized text), `file_path`
    /// (tokenized text), `start_line` and `end_line` (numbers), in that
    /// order, each field stored and numbered by its position.
    pub fn new() -> (res: SymbolSchema)
        ensures
            schema_field_names(res.schema) == seq![
                "symbol_id"@,
                "symbol_name"@,
                "symbol_name_exact"@,
                "file_path"@,
                "start_line"@,
                "end_line"@,
            ],
            schema_field_shapes(res.schema) == seq![
                raw_stored_text(),
                tokenized_stored_text(),
                raw_stored_text(),
                tokenized_stored_text(),
                stored_u64(),
                stored_u64(),
            ],
            field_number(res.symbol_id) == 0,
            field_number(res.symbol_name) == 1,
            field_number(res.symbol_name_exact) == 2,
            field_number(res.file_path) == 3,
            field_number(res.start_line) == 4,
            field_number(res.end_line) == 5,
    {
        proof {
            reveal_strlit("symbol_id");
            reveal_strlit("symbol_name");
            reveal_strlit("symbol_name_exact");
            reveal_strlit("file_path");
            reveal_strlit("start_line");
            reveal_strlit("end_line");
        }
        let mut b = new_schema_builder();
        let symbol_id = add_text_field(&mut b, "symbol_id", string_stored_options());
        assert(builder_field_names(b) =~= seq!["symbol_id"@]);
        assert("symbol_id"@ != "symbol_name"@) by {
            reveal_strlit("symbol_id");
            reveal_strlit("symbol_name");
            assert("symbol_id"@.len() == 9);
            assert("symbol_name"@.len() == 11);
        }
        assert(!builder_field_names(b).contains("symbol_name"@)) by {
            if builder_field_names(b).contains("symbol_name"@) {
                let k = choose|k: int| 0 <= k < builder_field_names(b).len() && builder_field_names(b)[k] == "symbol_name"@;
            }
        }
        let symbol_name = add_text_field(&mut b, "symbol_name", text_stored_options());
        assert(builder_field_names(b) =~= seq!["symbol_id"@, "symbol_name"@]);
        assert(
            "symbol_id"@ != "symbol_name_exact"@
            && "symbol_name"@ != "symbol_name_exact"@
        ) by {
            reveal_strlit("symbol_id");
            reveal_strlit("symbol_name");
            reveal_strlit("symbol_name_exact");
            assert("symbol_id"@.len() == 9);
            assert("symbol_name"@.len() == 11);
            assert("symbol_name_exact"@.len() == 17);
        }
        assert(!builder_field_names(b).contains("symbol_name_exact"@)) by {
            if builder_field_names(b).contains("symbol_name_exact"@) {
                let k = choose|k: int| 0 <= k < builder_field_names(b).len() && builder_field_names(b)[k] == "symbol_name_exact"@;
            }
        }
        let symbol_name_exact = add_text_field(&mut b, "symbol_name_exact", string_stored_options());
        assert(builder_field_names(b) =~= seq!["symbol_id"@, "symbol_name"@, "symbol_name_exact"@]);
        assert(
            "symbol_id"@ != "file_path"@
            && "symbol_name"@ != "file_path"@
            && "symbol_name_exact"@ != "file_path"@
        ) by {
            reveal_strlit("file_path");
            reveal_strlit("symbol_id");
            reveal_strlit("symbol_name");
            reveal_strlit("symbol_name_exact");
            assert("file_path"@.len() == 9);
            assert("symbol_id"@.len() == 9);
            assert("symbol_name"@.len() == 11);
            assert("symbol_name_exact"@.len() == 17);
            assert("symbol_id"@[0] != "file_path"@[0]);
        }
        assert(!builder_field_names(b).contains("file_path"@)) by {
            if builder_field_names(b).contains("file_path"@) {
                let k = choose|k: int| 0 <= k < builder_field_names(b).len() && builder_field_names(b)[k] == "file_path"@;
            }
        }
        let file_path = add_text_field(&mut b, "file_path", text_stored_options());
        assert(builder_field_names(b) =~= seq!["symbol_id"@, "symbol_name"@, "symbol_name_exact"@, "file_path"@]);
        assert(
            "symbol_id"@ != "start_line"@
            && "symbol_name"@ != "start_line"@
            && "symbol_name_exact"@ != "start_line"@
            && "file_path"@ != "start_line"@
        ) by {
            reveal_strlit("file_path");
            reveal_strlit("start_line");
            reveal_strlit("symbol_id");
            reveal_strlit("symbol_name");
            reveal_strlit("symbol_name_exact");
            assert("file_path"@.len() == 9);
            assert("start_line"@.len() == 10);
            assert("symbol_id"@.len() == 9);
            assert("symbol_name"@.len() == 11);
            assert("symbol_name_exact"@.len() == 17);
        }
        assert(!builder_field_names(b).contains("start_line"@)) by {
            if builder_field_names(b).contains("start_line"@) {
                let k = choose|k: int| 0 <= k < builder_field_names(b).len() && builder_field_names(b)[k] == "start_line"@;
            }
        }
        let start_line = add_u64_field(&mut b, "start_line", stored_numeric_options());
        assert(builder_field_names(b) =~= seq!["symbol_id"@, "symbol_name"@, "symbol_name_exact"@, "file_path"@, "start_line"@]);
        assert(
            "symbol_id"@ != "end_line"@
            && "symbol_name"@ != "end_line"@
            && "symbol_name_exact"@ != "end_line"@
            && "file_path"@ != "end_line"@
            && "start_line"@ != "end_line"@
        ) by {
            reveal_strlit("end_line");
            reveal_strlit("file_path");
            reveal_strlit("start_line");
            reveal_strlit("symbol_id");
            reveal_strlit("symbol_name");
            reveal_strlit("symbol_name_exact");
            assert("end_line"@.len() == 8);
            assert("file_path"@.len() == 9);
            assert("start_line"@.len() == 10);
            assert("symbol_id"@.len() == 9);
            assert("symbol_name"@.len() == 11);
            assert("symbol_name_exact"@.len() == 17);
        }
        assert(!builder_field_names(b).contains("end_line"@)) by {
            if builder_field_names(b).contains("end_line"@) {
                let k = choose|k: int| 0 <= k < builder_field_names(b).len() && builder_field_names(b)[k] == "end_line"@;
            }
        }
        let end_line = add_u64_field(&mut b, "end_line", stored_numeric_options());
        let schema = build_schema(b);
        assert(schema_field_names(schema) =~= seq![
            "symbol_id"@,
            "symbol_name"@,
            "symbol_name_exact"@,
            "file_path"@,
            "start_line"@,
            "end_line"@,
        ]);
        SymbolSchema { schema, symbol_id, symbol_name, symbol_name_exact, file_path, start_line, end_line }
    }
}

} // verus!

//! The schema extractor: turns a raw annotated record declaration into
//! normalized field-to-column mappings and raw per-field key tags.

use vstd::prelude::*;

use crate::descriptor::{cols_view, FieldColumn, FieldColumnV};

verus! {

/// A generation-time failure. All of these abort synthesis before any
/// output is produced.
#[derive(Debug, PartialEq, Eq, Structural)]
pub enum GenError {
    /// The declaration is not a plain field-carrying record.
    StructRequired,
    /// A usable field lacks a stable identifier.
    FieldRequired,
    /// A key-tagged field has no explicit or derivable key name.
    MissingKeyName,
    /// An annotation argument has the wrong type or shape.
    AnnotationParseError,
}

/// One raw annotation argument value, as the host parser hands it over.
pub enum AnnValue {
    /// A string literal argument.
    Text(String),
    /// A bare identifier argument.
    Word(String),
    /// A boolean argument; a bare flag arrives as `Truth(true)`.
    Truth(bool),
}

/// The record-level annotation: an optional display-name override and an
/// optional backing-table override.
pub struct EntityAnn {
    pub name: Option<AnnValue>,
    pub table_name: Option<AnnValue>,
}

/// The per-field key annotation: an optional explicit key name and an
/// optional unique flag.
pub struct KeyAnn {
    pub name: Option<AnnValue>,
    pub unique: Option<AnnValue>,
}

/// The per-field column annotation: an explicit column name.
pub struct ColumnAnn {
    pub name: Option<AnnValue>,
}

/// One raw field of the declaration.
pub struct FieldDecl {
    pub ident: Option<String>,
    pub field_type: String,
    pub key: Option<KeyAnn>,
    pub column: Option<ColumnAnn>,
}

/// The shape of the declaration the annotations sit on.
pub enum DeclKind {
    /// A struct with named fields.
    NamedFields,
    /// A tuple-only struct.
    UnnamedFields,
    /// An enum or union.
    NotAStruct,
}

/// A raw record declaration, as the host parser hands it over.
pub struct RecordDecl {
    pub ident: String,
    pub kind: DeclKind,
    pub entity: Option<EntityAnn>,
    pub fields: Vec<FieldDecl>,
}

/// One raw key tag: the resolved key name, the field's own unique flag, and
/// the field's column mapping.
pub struct KeyTag {
    pub name: String,
    pub unique: bool,
    pub field: FieldColumn,
}

/// The mathematical image of a `KeyTag`.
pub ghost struct KeyTagV {
    pub name: Seq<char>,
    pub unique: bool,
    pub field: FieldColumnV,
}

impl View for KeyTag {
    type V = KeyTagV;

    open spec fn view(&self) -> KeyTagV {
        KeyTagV { name: self.name@, unique: self.unique, field: self.field@ }
    }
}

/// What extraction yields: the record-level overrides, the resolved table
/// name, the field columns in declaration order, and the raw key tags in
/// declaration order.
pub struct Extraction {
    pub snake_name: Option<String>,
    pub table_name: String,
    pub columns: Vec<FieldColumn>,
    pub tags: Vec<KeyTag>,
}

/// The mathematical image of an `Extraction`.
pub ghost struct ExtractionV {
    pub snake_name: Option<Seq<char>>,
    pub table_name: Seq<char>,
    pub columns: Seq<FieldColumnV>,
    pub tags: Seq<KeyTagV>,
}

/// The views of a sequence of key tags.
pub open spec fn key_tags_view(s: Seq<KeyTag>) -> Seq<KeyTagV> {
    s.map_values(|t: KeyTag| t@)
}

impl View for Extraction {
    type V = ExtractionV;

    open spec fn view(&self) -> ExtractionV {
        ExtractionV {
            snake_name: match self.snake_name {
                Some(n) => Some(n@),
                None => None,
            },
            table_name: self.table_name@,
            columns: cols_view(self.columns@),
            tags: key_tags_view(self.tags@),
        }
    }
}

/// The record-level `name` argument takes an identifier or a string.
pub open spec fn display_arg_ok(v: Option<AnnValue>) -> bool {
    match v {
        None => true,
        Some(AnnValue::Text(_)) => true,
        Some(AnnValue::Word(_)) => true,
        Some(AnnValue::Truth(_)) => false,
    }
}

/// The display-name override the record-level annotation carries, if any.
pub open spec fn display_override(v: Option<AnnValue>) -> Option<Seq<char>> {
    match v {
        Some(AnnValue::Text(s)) => Some(s@),
        Some(AnnValue::Word(s)) => Some(s@),
        _ => None,
    }
}

/// A string-only argument (`table_name`, `key.name`, `column.name`).
pub open spec fn text_arg_ok(v: Option<AnnValue>) -> bool {
    match v {
        None => true,
        Some(AnnValue::Text(_)) => true,
        _ => false,
    }
}

/// The string such an argument carries, if any.
pub open spec fn text_override(v: Option<AnnValue>) -> Option<Seq<char>> {
    match v {
        Some(AnnValue::Text(s)) => Some(s@),
        _ => None,
    }
}

/// The `unique` argument takes a boolean; a bare flag arrives as `true`.
pub open spec fn unique_arg_ok(v: Option<AnnValue>) -> bool {
    match v {
        None => true,
        Some(AnnValue::Truth(_)) => true,
        _ => false,
    }
}

/// The unique flag an argument resolves to; absent means not unique.
pub open spec fn unique_flag(v: Option<AnnValue>) -> bool {
    match v {
        Some(AnnValue::Truth(b)) => b,
        _ => false,
    }
}

/// The record-level annotation is well-shaped.
pub open spec fn entity_ann_ok(e: Option<EntityAnn>) -> bool {
    match e {
        None => true,
        Some(a) => display_arg_ok(a.name) && text_arg_ok(a.table_name),
    }
}

/// The display-name override of the whole declaration, if any.
pub open spec fn decl_display_override(d: RecordDecl) -> Option<Seq<char>> {
    match d.entity {
        None => None,
        Some(a) => display_override(a.name),
    }
}

/// The table name of the declaration: the override when one was given, else
/// the record's own identifier, verbatim.
pub open spec fn decl_table_name(d: RecordDecl) -> Seq<char> {
    let over = match d.entity {
        None => None,
        Some(a) => text_override(a.table_name),
    };
    match over {
        Some(t) => t,
        None => d.ident@,
    }
}

/// The key annotation is well-shaped.
pub open spec fn key_ann_ok(k: Option<KeyAnn>) -> bool {
    match k {
        None => true,
        Some(a) => text_arg_ok(a.name) && unique_arg_ok(a.unique),
    }
}

/// The column annotation is well-shaped: a present annotation must carry a
/// string `name`.
pub open spec fn column_ann_ok(c: Option<ColumnAnn>) -> bool {
    match c {
        None => true,
        Some(a) => text_override(a.name) is Some,
    }
}

/// A key-tagged field whose key name can be derived neither from an explicit
/// argument nor from the field's own identifier.
pub open spec fn key_name_underivable(f: FieldDecl) -> bool {
    match f.key {
        None => false,
        Some(a) => text_override(a.name) is None && f.ident is None,
    }
}

/// The first failure one field gives rise to, checked in this order:
/// malformed annotations, then an underivable key name, then a missing field
/// identifier.
pub open spec fn field_err(f: FieldDecl) -> Option<GenError> {
    if !key_ann_ok(f.key) || !column_ann_ok(f.column) {
        Some(GenError::AnnotationParseError)
    } else if key_name_underivable(f) {
        Some(GenError::MissingKeyName)
    } else if f.ident is None {
        Some(GenError::FieldRequired)
    } else {
        None
    }
}

/// The first failure among the fields, scanned in declaration order.
pub open spec fn fields_err(fields: Seq<FieldDecl>) -> Option<GenError>
    decreases fields.len(),
{
    if fields.len() == 0 {
        None
    } else if field_err(fields[0]) is Some {
        field_err(fields[0])
    } else {
        fields_err(fields.drop_first())
    }
}

/// The first failure of the whole declaration: its shape, then the
/// record-level annotation, then the fields in order.
pub open spec fn extract_err(d: RecordDecl) -> Option<GenError> {
    if !(d.kind is NamedFields) {
        Some(GenError::StructRequired)
    } else if !entity_ann_ok(d.entity) {
        Some(GenError::AnnotationParseError)
    } else {
        fields_err(d.fields@)
    }
}

/// The column mapping of a failure-free field: the column name is the
/// explicit override when given, else the field's own identifier, verbatim.
pub open spec fn column_of(f: FieldDecl) -> FieldColumnV {
    let ident = match f.ident {
        Some(s) => s@,
        None => Seq::<char>::empty(),
    };
    let over = match f.column {
        Some(a) => text_override(a.name),
        None => None,
    };
    FieldColumnV {
        field_name: ident,
        field_type: f.field_type@,
        column_name: match over {
            Some(c) => c,
            None => ident,
        },
    }
}

/// The key tag of a failure-free field, if it carries a key annotation: the
/// key name is the explicit argument when given, else the field's own
/// identifier.
pub open spec fn tag_of(f: FieldDecl) -> Option<KeyTagV> {
    match f.key {
        None => None,
        Some(a) => Some(
            KeyTagV {
                name: match text_override(a.name) {
                    Some(n) => n,
                    None => match f.ident {
                        Some(s) => s@,
                        None => Seq::<char>::empty(),
                    },
                },
                unique: unique_flag(a.unique),
                field: column_of(f),
            },
        ),
    }
}

/// The key tags of the fields, in declaration order.
pub open spec fn tags_of(fields: Seq<FieldDecl>) -> Seq<KeyTagV>
    decreases fields.len(),
{
    if fields.len() == 0 {
        Seq::empty()
    } else {
        tags_of(fields.drop_last()) + match tag_of(fields.last()) {
            Some(t) => seq![t],
            None => Seq::empty(),
        }
    }
}

/// The column mappings of the fields, in declaration order.
pub open spec fn fields_columns(fields: Seq<FieldDecl>) -> Seq<FieldColumnV> {
    fields.map_values(|f: FieldDecl| column_of(f))
}

/// What extraction yields on a failure-free declaration.
pub open spec fn extract_val(d: RecordDecl) -> ExtractionV {
    ExtractionV {
        snake_name: decl_display_override(d),
        table_name: decl_table_name(d),
        columns: fields_columns(d.fields@),
        tags: tags_of(d.fields@),
    }
}

/// A failure-free prefix does not change where the first failure lies.
proof fn lemma_fields_err_skip(fields: Seq<FieldDecl>, i: int)
    requires
        0 <= i <= fields.len(),
        forall|j: int| 0 <= j < i ==> field_err(#[trigger] fields[j]) is None,
    ensures
        fields_err(fields) == fields_err(fields.skip(i)),
    decreases i,
{
    if i > 0 {
        assert(fields.drop_first() =~= fields.skip(1));
        lemma_fields_err_skip(fields.drop_first(), i - 1);
        assert(fields.drop_first().skip(i - 1) =~= fields.skip(i));
    } else {
        assert(fields.skip(0) =~= fields);
    }
}

fn ann_value_clone_string(v: &AnnValue) -> (r: Option<String>)
    ensures
        match r {
            Some(s) => match v {
                AnnValue::Text(t) => s@ == t@,
                AnnValue::Word(t) => s@ == t@,
                AnnValue::Truth(_) => false,
            },
            None => v is Truth,
        },
{
    match v {
        AnnValue::Text(s) => Some(s.clone()),
        AnnValue::Word(s) => Some(s.clone()),
        AnnValue::Truth(_) => None,
    }
}

/// Turns a raw record declaration into field-to-column mappings and raw key
/// tags; the first malformed part of the declaration decides the error.
pub fn extract(decl: &RecordDecl) -> (r: Result<Extraction, GenError>)
    ensures
        match r {
            Ok(ex) => extract_err(*decl) is None && ex@ == extract_val(*decl),
            Err(e) => extract_err(*decl) == Some(e),
        },
{
    match decl.kind {
        DeclKind::NamedFields => {},
        _ => {
            return Err(GenError::StructRequired);
        },
    }

    let mut snake_name: Option<String> = None;
    let mut table_name: Option<String> = None;
    match &decl.entity {
        None => {},
        Some(a) => {
            match &a.name {
                None => {},
                Some(v) => match ann_value_clone_string(v) {
                    Some(s) => {
                        snake_name = Some(s);
                    },
                    None => {
                        return Err(GenError::AnnotationParseError);
                    },
                },
            }
            match &a.table_name {
                None => {},
                Some(AnnValue::Text(s)) => {
                    table_name = Some(s.clone());
                },
                Some(_) => {
                    return Err(GenError::AnnotationParseError);
                },
            }
        },
    }
    let table_name: String = match table_name {
        Some(t) => t,
        None => decl.ident.clone(),
    };

    let mut columns: Vec<FieldColumn> = Vec::new();
    let mut tags: Vec<KeyTag> = Vec::new();
    let n = decl.fields.len();
    let mut i: usize = 0;
    while i < n
        invariant
            0 <= i <= n,
            n == decl.fields@.len(),
            decl.kind is NamedFields,
            entity_ann_ok(decl.entity),
            forall|j: int| 0 <= j < i ==> field_err(#[trigger] decl.fields@[j]) is None,
            cols_view(columns@) == fields_columns(decl.fields@.take(i as int)),
            key_tags_view(tags@) == tags_of(decl.fields@.take(i as int)),
        decreases n - i,
    {
        let f = &decl.fields[i];

        // key annotation shape
        let mut key_name_arg: Option<String> = None;
        let mut key_unique: bool = false;
        let mut has_key: bool = false;
        match &f.key {
            None => {},
            Some(a) => {
                has_key = true;
                match &a.name {
                    None => {},
                    Some(AnnValue::Text(s)) => {
                        key_name_arg = Some(s.clone());
                    },
                    Some(_) => {
                        proof {
                            assert(field_err(decl.fields@[i as int])
                                == Some(GenError::AnnotationParseError));
                            lemma_fields_err_skip(decl.fields@, i as int);
                            assert(decl.fields@.skip(i as int)[0] == decl.fields@[i as int]);
                        }
                        return Err(GenError::AnnotationParseError);
                    },
                }
                match &a.unique {
                    None => {},
                    Some(AnnValue::Truth(b)) => {
                        key_unique = *b;
                    },
                    Some(_) => {
                        proof {
                            assert(field_err(decl.fields@[i as int])
                                == Some(GenError::AnnotationParseError));
                            lemma_fields_err_skip(decl.fields@, i as int);
                            assert(decl.fields@.skip(i as int)[0] == decl.fields@[i as int]);
                        }
                        return Err(GenError::AnnotationParseError);
                    },
                }
            },
        }

        // column annotation shape
        let mut column_arg: Option<String> = None;
        match &f.column {
            None => {},
            Some(a) => match &a.name {
                Some(AnnValue::Text(s)) => {
                    column_arg = Some(s.clone());
                },
                _ => {
                    proof {
                        assert(field_err(decl.fields@[i as int])
                            == Some(GenError::AnnotationParseError));
                        lemma_fields_err_skip(decl.fields@, i as int);
                        assert(decl.fields@.skip(i as int)[0] == decl.fields@[i as int]);
                    }
                    return Err(GenError::AnnotationParseError);
                },
            },
        }

        // a key needs a name, explicit or derived from the field identifier
        if has_key && key_name_arg.is_none() && f.ident.is_none() {
            proof {
                assert(field_err(decl.fields@[i as int]) == Some(GenError::MissingKeyName));
                lemma_fields_err_skip(decl.fields@, i as int);
                assert(decl.fields@.skip(i as int)[0] == decl.fields@[i as int]);
            }
            return Err(GenError::MissingKeyName);
        }

        // every usable field needs a stable identifier
        let ident: &String = match &f.ident {
            Some(s) => s,
            None => {
                proof {
                    assert(field_err(decl.fields@[i as int]) == Some(GenError::FieldRequired));
                    lemma_fields_err_skip(decl.fields@, i as int);
                    assert(decl.fields@.skip(i as int)[0] == decl.fields@[i as int]);
                }
                return Err(GenError::FieldRequired);
            },
        };

        let column_name: String = match column_arg {
            Some(c) => c,
            None => ident.clone(),
        };
        let fc = FieldColumn::new(ident.clone(), f.field_type.clone(), column_name);
        let ghost tags0 = tags@;
        if has_key {
            let key_name: String = match key_name_arg {
                Some(s) => s,
                None => ident.clone(),
            };
            tags.push(KeyTag { name: key_name, unique: key_unique, field: fc.clone() });
        }
        let ghost cols0 = columns@;
        columns.push(fc);

        proof {
            let fs = decl.fields@;
            let k = i as int;
            assert(fs.take(k + 1).drop_last() =~= fs.take(k));
            assert(fs.take(k + 1).last() == fs[k]);
            assert(fc@ == column_of(fs[k]));
            assert(columns@ == cols0.push(fc));
            assert(cols_view(cols0).len() == cols0.len());
            assert(fields_columns(fs.take(k)).len() == k);
            assert(cols0.len() == k);
            assert forall|j: int| 0 <= j < k + 1 implies cols_view(columns@)[j] == fields_columns(
                fs.take(k + 1),
            )[j] by {
                if j < k {
                    assert(cols_view(cols0)[j] == fields_columns(fs.take(k))[j]);
                    assert(cols0.push(fc)[j] == cols0[j]);
                }
            }
            assert(cols_view(columns@) =~= fields_columns(fs.take(k + 1)));
            if has_key {
                assert(tag_of(fs[k]) == Some(tags@.last()@));
                assert(tags@ == tags0.push(tags@.last()));
                assert forall|j: int| 0 <= j < tags0.len() implies key_tags_view(tags@)[j]
                    == key_tags_view(tags0)[j] by {
                    assert(tags0.push(tags@.last())[j] == tags0[j]);
                }
            } else {
                assert(tag_of(fs[k]) is None);
                assert(tags@ == tags0);
            }
            assert(key_tags_view(tags@) =~= tags_of(fs.take(k + 1)));
        }
        i = i + 1;
    }

    proof {
        lemma_fields_err_skip(decl.fields@, n as int);
        assert(decl.fields@.skip(n as int) =~= Seq::<FieldDecl>::empty());
        assert(decl.fields@.take(n as int) =~= decl.fields@);
    }
    Ok(Extraction { snake_name, table_name, columns, tags })
}

/// Two fields carry the same identifier.
pub open spec fn idents_clash(a: FieldDecl, b: FieldDecl) -> bool {
    match (a.ident, b.ident) {
        (Some(x), Some(y)) => x@ == y@,
        _ => false,
    }
}

/// Field identifiers are pairwise distinct among the declared fields.
pub open spec fn idents_unique(fields: Seq<FieldDecl>) -> bool {
    forall|i: int, j: int|
        0 <= i < j < fields.len() ==> !idents_clash(#[trigger] fields[i], #[trigger] fields[j])
}

/// When the field scan finds no failure, no single field fails.
pub proof fn lemma_fields_err_each(fields: Seq<FieldDecl>, i: int)
    requires
        fields_err(fields) is None,
        0 <= i < fields.len(),
    ensures
        field_err(fields[i]) is None,
    decreases i,
{
    if i > 0 {
        lemma_fields_err_each(fields.drop_first(), i - 1);
        assert(fields.drop_first()[i - 1] == fields[i]);
    }
}

/// Every key tag arises from one of the declared fields.
pub proof fn lemma_tags_from_fields(fields: Seq<FieldDecl>, j: int)
    requires
        0 <= j < tags_of(fields).len(),
    ensures
        exists|i: int|
            0 <= i < fields.len() && tag_of(#[trigger] fields[i]) == Some(tags_of(fields)[j]),
    decreases fields.len(),
{
    let front = fields.drop_last();
    if j < tags_of(front).len() {
        lemma_tags_from_fields(front, j);
        let i = choose|i: int|
            0 <= i < front.len() && tag_of(#[trigger] front[i]) == Some(tags_of(front)[j]);
        assert(front[i] == fields[i]);
        assert(tags_of(fields)[j] == tags_of(front)[j]);
        assert(tag_of(fields[i]) == Some(tags_of(fields)[j]));
    } else {
        assert(tag_of(fields.last()) == Some(tags_of(fields)[j]));
        assert(fields[fields.len() - 1] == fields.last());
    }
}

} // verus!

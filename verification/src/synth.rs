//! The code synthesizer: a pure function from the entity descriptor to three
//! generated artifacts — the capability trait, the direct-store
//! implementation, and the transactional implementation.

use vstd::prelude::*;
use vstd::string::*;

use crate::casing::snake_of;
use crate::descriptor::{DeriveEntity, EntityV, FieldColumnV, Key, KeyV};
use crate::grouping::{
    first_seen, group_keys, key_for, keys_of, lemma_first_seen_contains, lemma_members_are_tags,
    lemma_members_nonempty, members, tag_names,
};
use crate::numeral::{dec_of, dec_str};
use crate::schema::{
    column_of, extract, extract_err, extract_val, idents_clash, idents_unique, key_tags_view,
    lemma_fields_err_each, lemma_tags_from_fields, tag_of, tags_of, Extraction, GenError,
    RecordDecl,
};

verus! {

/// A type whose text names an owned string; such a parameter is exposed as a
/// borrowed text slice instead.
pub open spec fn is_owned_text(t: Seq<char>) -> bool {
    t.len() >= 6 && t.subrange(t.len() - 6, t.len() as int) == "String"@
}

/// The parameter type an operation exposes for a field of the given type.
pub open spec fn param_type_of(t: Seq<char>) -> Seq<char> {
    if is_owned_text(t) {
        "str"@
    } else {
        t
    }
}

/// One operation parameter: the field's identifier, borrowed.
pub open spec fn arg_of(c: FieldColumnV) -> Seq<char> {
    c.field_name + ": &"@ + param_type_of(c.field_type)
}

/// The parameter list after `&self`, one entry per key component, in
/// component order.
pub open spec fn args_text(cs: Seq<FieldColumnV>) -> Seq<char>
    decreases cs.len(),
{
    if cs.len() == 0 {
        Seq::empty()
    } else {
        args_text(cs.drop_last()) + ", "@ + arg_of(cs.last())
    }
}

/// The operation name: find-by for a unique key, list-by otherwise.
pub open spec fn fn_name_of(snake: Seq<char>, k: KeyV) -> Seq<char> {
    if k.unique {
        "find_"@ + snake + "_by_"@ + k.name
    } else {
        "list_"@ + snake + "_by_"@ + k.name
    }
}

/// The operation result type: an optional single record for a unique key, a
/// sequence of records otherwise.
pub open spec fn fn_rtn_of(entity: Seq<char>, unique: bool) -> Seq<char> {
    if unique {
        "Result<Option<"@ + entity + ">, sqlx::Error>"@
    } else {
        "Result<Vec<"@ + entity + ">, sqlx::Error>"@
    }
}

/// The full operation signature for one key.
pub open spec fn sig_of(e: EntityV, k: KeyV) -> Seq<char> {
    "async fn "@ + fn_name_of(snake_of(e.display_name()), k) + "(&self"@ + args_text(k.components)
        + ") -> "@ + fn_rtn_of(e.entity, k.unique)
}

/// The first `upto` conjuncts of a where clause: the i-th column compared to
/// the 1-based positional parameter `$i`, in column order.
pub open spec fn where_text(cols: Seq<Seq<char>>, upto: int) -> Seq<char>
    decreases upto,
{
    if upto <= 0 {
        Seq::empty()
    } else {
        let item = cols[upto - 1] + " = $"@ + dec_of(upto as nat);
        if upto == 1 {
            item
        } else {
            where_text(cols, upto - 1) + " and "@ + item
        }
    }
}

/// The column names of the components, in order.
pub open spec fn col_names(cs: Seq<FieldColumnV>) -> Seq<Seq<char>> {
    cs.map_values(|c: FieldColumnV| c.column_name)
}

/// The generated query text for one key: positional parameters are bound in
/// component declaration order.
pub open spec fn query_of(table: Seq<char>, cs: Seq<FieldColumnV>) -> Seq<char> {
    "select * from "@ + table + " where "@ + where_text(
        col_names(cs),
        col_names(cs).len() as int,
    )
}

/// One parameter binding line in a generated implementation body.
pub open spec fn bind_of(c: FieldColumnV) -> Seq<char> {
    "            .bind(&"@ + c.field_name + ")\n"@
}

/// The binding lines for all components, in component order.
pub open spec fn binds_text(cs: Seq<FieldColumnV>) -> Seq<char>
    decreases cs.len(),
{
    if cs.len() == 0 {
        Seq::empty()
    } else {
        binds_text(cs.drop_last()) + bind_of(cs.last())
    }
}

/// Each conjunct after the first extends the where clause in component
/// order, binding the next 1-based positional parameter.
pub proof fn lemma_parameter_order(cols: Seq<Seq<char>>, i: int)
    requires
        1 <= i < cols.len(),
    ensures
        where_text(cols, i + 1) == where_text(cols, i) + " and "@ + cols[i] + " = $"@ + dec_of(
            (i + 1) as nat,
        ),
{
}

/// The pieces of one generated operation, named as the capability trait
/// declares them.
pub struct KeyFn {
    pub fn_name: String,
    pub fn_rtn: String,
    pub fn_args: Vec<String>,
}

/// Exposes owned-text parameters as borrowed text slices; every other type
/// passes through unchanged.
fn map_type(ty: &String) -> (r: String)
    ensures
        r@ == param_type_of(ty@),
{
    let n = ty.as_str().unicode_len();
    if n >= 6 {
        let suffix = ty.as_str().substring_char(n - 6, n);
        if suffix.to_owned() == String::from_str("String") {
            return String::from_str("str");
        }
    }
    ty.clone()
}

impl KeyFn {
    /// The operation for one key: its name, its result type, and one
    /// parameter per component, in component order.
    pub fn new(entity: &DeriveEntity, key: &Key) -> (r: Self)
        ensures
            r.fn_name@ == fn_name_of(snake_of(entity@.display_name()), key@),
            r.fn_rtn@ == fn_rtn_of(entity@.entity, key@.unique),
            r.fn_args@.len() == key@.components.len(),
            forall|i: int|
                0 <= i < key@.components.len() ==> (#[trigger] r.fn_args@[i])@ == arg_of(
                    key@.components[i],
                ),
    {
        let snake_ent = entity.entity_snake_name();

        let mut fn_name = if key.unique {
            String::from_str("find_")
        } else {
            String::from_str("list_")
        };
        fn_name.append(snake_ent.as_str());
        fn_name.append("_by_");
        fn_name.append(key.name.as_str());
        proof {
            assert(fn_name@ =~= fn_name_of(snake_of(entity@.display_name()), key@));
        }

        let mut fn_rtn = if key.unique {
            String::from_str("Result<Option<")
        } else {
            String::from_str("Result<Vec<")
        };
        fn_rtn.append(entity.entity.as_str());
        fn_rtn.append(">, sqlx::Error>");
        proof {
            assert(fn_rtn@ =~= fn_rtn_of(entity@.entity, key@.unique));
        }

        let mut fn_args: Vec<String> = Vec::new();
        let mut i: usize = 0;
        while i < key.components.len()
            invariant
                0 <= i <= key.components@.len(),
                fn_args@.len() == i,
                forall|j: int|
                    0 <= j < i ==> (#[trigger] fn_args@[j])@ == arg_of(key@.components[j]),
            decreases key.components@.len() - i,
        {
            let c = &key.components[i];
            let mut a = c.field_name.clone();
            a.append(": &");
            let ty = map_type(&c.field_type);
            a.append(ty.as_str());
            proof {
                assert(a@ =~= arg_of(key@.components[i as int]));
            }
            fn_args.push(a);
            i = i + 1;
        }

        KeyFn { fn_name, fn_rtn, fn_args }
    }
}

/// The full signature of the operation one key gives rise to.
pub fn fn_sig(entity: &DeriveEntity, key: &Key) -> (r: String)
    ensures
        r@ == sig_of(entity@, key@),
{
    let kf = KeyFn::new(entity, key);
    let mut s = String::from_str("async fn ");
    s.append(kf.fn_name.as_str());
    s.append("(&self");
    proof {
        assert(key@.components.take(0) =~= Seq::<FieldColumnV>::empty());
        assert(s@ =~= "async fn "@ + fn_name_of(snake_of(entity@.display_name()), key@)
            + "(&self"@ + args_text(key@.components.take(0)));
    }
    let mut i: usize = 0;
    while i < kf.fn_args.len()
        invariant
            0 <= i <= kf.fn_args@.len(),
            kf.fn_args@.len() == key@.components.len(),
            forall|j: int|
                0 <= j < kf.fn_args@.len() ==> (#[trigger] kf.fn_args@[j])@ == arg_of(
                    key@.components[j],
                ),
            s@ == "async fn "@ + fn_name_of(snake_of(entity@.display_name()), key@) + "(&self"@
                + args_text(key@.components.take(i as int)),
        decreases kf.fn_args@.len() - i,
    {
        s.append(", ");
        s.append(kf.fn_args[i].as_str());
        proof {
            let cs = key@.components;
            let k = i as int;
            assert(cs.take(k + 1).drop_last() =~= cs.take(k));
            assert(cs.take(k + 1).last() == cs[k]);
            assert(s@ =~= "async fn "@ + fn_name_of(snake_of(entity@.display_name()), key@)
                + "(&self"@ + args_text(cs.take(k + 1)));
        }
        i = i + 1;
    }
    s.append(") -> ");
    s.append(kf.fn_rtn.as_str());
    proof {
        assert(key@.components.take(key@.components.len() as int) =~= key@.components);
        assert(s@ =~= sig_of(entity@, key@));
    }
    s
}

/// The query text for one key, against the given table.
pub fn build_query(table: &String, key: &Key) -> (r: String)
    ensures
        r@ == query_of(table@, key@.components),
{
    let mut s = String::from_str("select * from ");
    s.append(table.as_str());
    s.append(" where ");
    proof {
        assert(s@ =~= "select * from "@ + table@ + " where "@ + where_text(
            col_names(key@.components),
            0,
        ));
    }
    let mut i: usize = 0;
    while i < key.components.len()
        invariant
            0 <= i <= key.components@.len(),
            s@ == "select * from "@ + table@ + " where "@ + where_text(
                col_names(key@.components),
                i as int,
            ),
        decreases key.components@.len() - i,
    {
        if i > 0 {
            s.append(" and ");
        }
        s.append(key.components[i].column_name.as_str());
        s.append(" = $");
        let d = dec_str(i + 1);
        s.append(d.as_str());
        proof {
            let cols = col_names(key@.components);
            assert(cols[i as int] == key@.components[i as int].column_name);
            assert(s@ =~= "select * from "@ + table@ + " where "@ + where_text(
                cols,
                i as int + 1,
            ));
        }
        i = i + 1;
    }
    proof {
        assert(col_names(key@.components).len() == key@.components.len());
    }
    s
}

/// The binding lines for one key's components.
fn build_binds(key: &Key) -> (r: String)
    ensures
        r@ == binds_text(key@.components),
{
    let mut s = String::new();
    proof {
        assert(key@.components.take(0) =~= Seq::<FieldColumnV>::empty());
        assert(s@ =~= binds_text(key@.components.take(0)));
    }
    let mut i: usize = 0;
    while i < key.components.len()
        invariant
            0 <= i <= key.components@.len(),
            s@ == binds_text(key@.components.take(i as int)),
        decreases key.components@.len() - i,
    {
        s.append("            .bind(&");
        s.append(key.components[i].field_name.as_str());
        s.append(")\n");
        proof {
            let cs = key@.components;
            let k = i as int;
            assert(cs.take(k + 1).drop_last() =~= cs.take(k));
            assert(cs.take(k + 1).last() == cs[k]);
            assert(s@ =~= binds_text(cs.take(k + 1)));
        }
        i = i + 1;
    }
    proof {
        assert(key@.components.take(key@.components.len() as int) =~= key@.components);
    }
    s
}

/// One declared operation of the capability trait.
pub open spec fn trait_sig_of(e: EntityV, k: KeyV) -> Seq<char> {
    "    "@ + sig_of(e, k) + ";\n"@
}

/// The first `n` operation declarations, in key order.
pub open spec fn trait_body_of(e: EntityV, n: int) -> Seq<char>
    decreases n,
{
    if n <= 0 {
        Seq::empty()
    } else {
        trait_body_of(e, n - 1) + trait_sig_of(e, e.keys[n - 1])
    }
}

/// The capability trait artifact: one operation per key, declaration only.
pub open spec fn repo_trait_of(e: EntityV) -> Seq<char> {
    "pub trait "@ + e.entity + "Repo {\n"@ + trait_body_of(e, e.keys.len() as int) + "}\n"@
}

/// The direct-store fetch call: fetch-optional for a unique key, fetch-all
/// otherwise.
pub open spec fn fetch_of(unique: bool) -> Seq<char> {
    if unique {
        "            .fetch_optional(self)\n"@
    } else {
        "            .fetch_all(self)\n"@
    }
}

/// One generated direct-store method.
pub open spec fn pg_fn_of(e: EntityV, k: KeyV) -> Seq<char> {
    "    "@ + sig_of(e, k) + " {\n        sqlx::query_as(\""@ + query_of(e.table_name, k.components)
        + "\")\n"@ + binds_text(k.components) + fetch_of(k.unique) + "            .await\n    }\n"@
}

/// The first `n` direct-store methods, in key order.
pub open spec fn pg_body_of(e: EntityV, n: int) -> Seq<char>
    decreases n,
{
    if n <= 0 {
        Seq::empty()
    } else {
        pg_body_of(e, n - 1) + pg_fn_of(e, e.keys[n - 1])
    }
}

/// The direct-store implementation artifact, bound to a shared connection
/// pool.
pub open spec fn pg_impl_of(e: EntityV) -> Seq<char> {
    "impl "@ + e.entity + "Repo for sqlx::Pool<sqlx::Postgres> {\n"@ + pg_body_of(
        e,
        e.keys.len() as int,
    ) + "}\n"@
}

/// The transactional fetch call, issued while the transaction guard is held.
pub open spec fn tx_fetch_of(unique: bool) -> Seq<char> {
    if unique {
        "            .fetch_optional(&mut **tx)\n"@
    } else {
        "            .fetch_all(&mut **tx)\n"@
    }
}

/// One generated transactional method: it acquires the transaction guard,
/// runs the one query, and releases the guard on every exit path.
pub open spec fn tx_fn_of(e: EntityV, k: KeyV) -> Seq<char> {
    "    "@ + sig_of(e, k) + " {\n        let mut tx = self.lock().await;\n        sqlx::query_as(\""@
        + query_of(e.table_name, k.components) + "\")\n"@ + binds_text(k.components) + tx_fetch_of(
        k.unique,
    ) + "            .await\n    }\n"@
}

/// The first `n` transactional methods, in key order.
pub open spec fn tx_body_of(e: EntityV, n: int) -> Seq<char>
    decreases n,
{
    if n <= 0 {
        Seq::empty()
    } else {
        tx_body_of(e, n - 1) + tx_fn_of(e, e.keys[n - 1])
    }
}

/// The transactional implementation artifact, bound to an exclusively held
/// transaction.
pub open spec fn tx_impl_of(e: EntityV) -> Seq<char> {
    "impl "@ + e.entity
        + "Repo for tokio::sync::Mutex<sqlx::Transaction<'_, sqlx::Postgres>> {\n"@ + tx_body_of(
        e,
        e.keys.len() as int,
    ) + "}\n"@
}

/// The capability trait: one operation per key, in first-seen key order.
pub fn repo_trait(entity: &DeriveEntity) -> (r: String)
    ensures
        r@ == repo_trait_of(entity@),
{
    let mut s = String::from_str("pub trait ");
    s.append(entity.entity.as_str());
    s.append("Repo {\n");
    proof {
        assert(s@ =~= "pub trait "@ + entity@.entity + "Repo {\n"@ + trait_body_of(entity@, 0));
    }
    let mut i: usize = 0;
    while i < entity.keys.len()
        invariant
            0 <= i <= entity.keys@.len(),
            s@ == "pub trait "@ + entity@.entity + "Repo {\n"@ + trait_body_of(entity@, i as int),
        decreases entity.keys@.len() - i,
    {
        let sig = fn_sig(entity, &entity.keys[i]);
        s.append("    ");
        s.append(sig.as_str());
        s.append(";\n");
        proof {
            assert(entity@.keys[i as int] == entity.keys@[i as int]@);
            assert(s@ =~= "pub trait "@ + entity@.entity + "Repo {\n"@ + trait_body_of(
                entity@,
                i as int + 1,
            ));
        }
        i = i + 1;
    }
    s.append("}\n");
    proof {
        assert(entity.keys@.len() == entity@.keys.len());
        assert(s@ =~= repo_trait_of(entity@));
    }
    s
}

/// One direct-store method body.
fn pg_fn(entity: &DeriveEntity, key: &Key) -> (r: String)
    ensures
        r@ == pg_fn_of(entity@, key@),
{
    let mut s = String::from_str("    ");
    let sig = fn_sig(entity, key);
    s.append(sig.as_str());
    s.append(" {\n        sqlx::query_as(\"");
    let q = build_query(&entity.table_name, key);
    s.append(q.as_str());
    s.append("\")\n");
    let b = build_binds(key);
    s.append(b.as_str());
    if key.unique {
        s.append("            .fetch_optional(self)\n");
    } else {
        s.append("            .fetch_all(self)\n");
    }
    s.append("            .await\n    }\n");
    proof {
        assert(s@ =~= pg_fn_of(entity@, key@));
    }
    s
}

/// The direct-store implementation: for each key, the parameterized query
/// run against the shared pool, fetch-optional when the key is unique and
/// fetch-all otherwise.
pub fn pg_impl(entity: &DeriveEntity) -> (r: String)
    ensures
        r@ == pg_impl_of(entity@),
{
    let mut s = String::from_str("impl ");
    s.append(entity.entity.as_str());
    s.append("Repo for sqlx::Pool<sqlx::Postgres> {\n");
    proof {
        assert(s@ =~= "impl "@ + entity@.entity + "Repo for sqlx::Pool<sqlx::Postgres> {\n"@
            + pg_body_of(entity@, 0));
    }
    let mut i: usize = 0;
    while i < entity.keys.len()
        invariant
            0 <= i <= entity.keys@.len(),
            s@ == "impl "@ + entity@.entity + "Repo for sqlx::Pool<sqlx::Postgres> {\n"@
                + pg_body_of(entity@, i as int),
        decreases entity.keys@.len() - i,
    {
        let f = pg_fn(entity, &entity.keys[i]);
        s.append(f.as_str());
        proof {
            assert(entity@.keys[i as int] == entity.keys@[i as int]@);
            assert(s@ =~= "impl "@ + entity@.entity + "Repo for sqlx::Pool<sqlx::Postgres> {\n"@
                + pg_body_of(entity@, i as int + 1));
        }
        i = i + 1;
    }
    s.append("}\n");
    proof {
        assert(entity.keys@.len() == entity@.keys.len());
        assert(s@ =~= pg_impl_of(entity@));
    }
    s
}

/// One transactional method body.
fn tx_fn(entity: &DeriveEntity, key: &Key) -> (r: String)
    ensures
        r@ == tx_fn_of(entity@, key@),
{
    let mut s = String::from_str("    ");
    let sig = fn_sig(entity, key);
    s.append(sig.as_str());
    s.append(" {\n        let mut tx = self.lock().await;\n        sqlx::query_as(\"");
    let q = build_query(&entity.table_name, key);
    s.append(q.as_str());
    s.append("\")\n");
    let b = build_binds(key);
    s.append(b.as_str());
    if key.unique {
        s.append("            .fetch_optional(&mut **tx)\n");
    } else {
        s.append("            .fetch_all(&mut **tx)\n");
    }
    s.append("            .await\n    }\n");
    proof {
        assert(s@ =~= tx_fn_of(entity@, key@));
    }
    s
}

/// The transactional implementation: the same queries, each run while the
/// transaction guard is exclusively held, so concurrent calls on one
/// transaction serialize.
pub fn tx_impl(entity: &DeriveEntity) -> (r: String)
    ensures
        r@ == tx_impl_of(entity@),
{
    let mut s = String::from_str("impl ");
    s.append(entity.entity.as_str());
    s.append("Repo for tokio::sync::Mutex<sqlx::Transaction<'_, sqlx::Postgres>> {\n");
    proof {
        assert(s@ =~= "impl "@ + entity@.entity
            + "Repo for tokio::sync::Mutex<sqlx::Transaction<'_, sqlx::Postgres>> {\n"@
            + tx_body_of(entity@, 0));
    }
    let mut i: usize = 0;
    while i < entity.keys.len()
        invariant
            0 <= i <= entity.keys@.len(),
            s@ == "impl "@ + entity@.entity
                + "Repo for tokio::sync::Mutex<sqlx::Transaction<'_, sqlx::Postgres>> {\n"@
                + tx_body_of(entity@, i as int),
        decreases entity.keys@.len() - i,
    {
        let f = tx_fn(entity, &entity.keys[i]);
        s.append(f.as_str());
        proof {
            assert(entity@.keys[i as int] == entity.keys@[i as int]@);
            assert(s@ =~= "impl "@ + entity@.entity
                + "Repo for tokio::sync::Mutex<sqlx::Transaction<'_, sqlx::Postgres>> {\n"@
                + tx_body_of(entity@, i as int + 1));
        }
        i = i + 1;
    }
    s.append("}\n");
    proof {
        assert(entity.keys@.len() == entity@.keys.len());
        assert(s@ =~= tx_impl_of(entity@));
    }
    s
}

/// The three artifacts, in order: trait, direct-store implementation,
/// transactional implementation.
pub open spec fn generated_of(e: EntityV) -> Seq<char> {
    repo_trait_of(e) + "\n"@ + pg_impl_of(e) + "\n"@ + tx_impl_of(e)
}

/// The descriptor a failure-free declaration gives rise to.
pub open spec fn entity_of(d: RecordDecl) -> EntityV {
    let ex = extract_val(d);
    EntityV {
        entity: d.ident@,
        snake_name: ex.snake_name,
        table_name: ex.table_name,
        columns: ex.columns,
        keys: keys_of(ex.tags),
    }
}

/// A generation result, seen at the level of character sequences.
pub open spec fn result_view(r: Result<String, GenError>) -> Result<Seq<char>, GenError> {
    match r {
        Ok(s) => Ok(s@),
        Err(e) => Err(e),
    }
}

/// What the generator must return for a declaration: the three artifacts on
/// a failure-free declaration, and the first failure otherwise.
pub open spec fn derive_sql_result(d: RecordDecl, r: Result<Seq<char>, GenError>) -> bool {
    match r {
        Ok(s) => extract_err(d) is None && s == generated_of(entity_of(d)),
        Err(e) => extract_err(d) == Some(e),
    }
}

/// Runs the whole pipeline on one declaration: extraction, key grouping,
/// descriptor assembly, and synthesis of the three artifacts.
pub fn derive_sql(decl: &RecordDecl) -> (r: Result<String, GenError>)
    ensures
        derive_sql_result(*decl, result_view(r)),
{
    let ex = match extract(decl) {
        Ok(ex) => ex,
        Err(e) => {
            return Err(e);
        },
    };
    let ghost exv = ex@;
    let Extraction { snake_name, table_name, columns, tags } = ex;
    let ghost tagsv = key_tags_view(tags@);
    let keys = group_keys(tags);
    let entity = DeriveEntity::new(decl.ident.clone(), snake_name, table_name, columns, keys);
    proof {
        assert(exv == extract_val(*decl));
        assert(tagsv == exv.tags);
        assert(entity@ == entity_of(*decl));
    }
    let t = repo_trait(&entity);
    let p = pg_impl(&entity);
    let x = tx_impl(&entity);
    let mut out = t;
    out.append("\n");
    out.append(p.as_str());
    out.append("\n");
    out.append(x.as_str());
    proof {
        assert(out@ =~= generated_of(entity_of(*decl)));
    }
    Ok(out)
}

/// Running the generator twice on an unchanged declaration produces
/// byte-identical output: every result the generator may return for one
/// declaration is the same.
pub proof fn lemma_generation_deterministic(
    d: RecordDecl,
    r1: Result<Seq<char>, GenError>,
    r2: Result<Seq<char>, GenError>,
)
    requires
        derive_sql_result(d, r1),
        derive_sql_result(d, r2),
    ensures
        r1 == r2,
{
}

/// A unique key generates a find-by operation returning an optional single
/// record; a non-unique key generates a list-by operation returning a
/// sequence of records.
pub proof fn lemma_operation_shape(e: EntityV, j: int)
    requires
        0 <= j < e.keys.len(),
    ensures
        e.keys[j].unique ==> sig_of(e, e.keys[j]) == "async fn "@ + ("find_"@ + snake_of(
            e.display_name(),
        ) + "_by_"@ + e.keys[j].name) + "(&self"@ + args_text(e.keys[j].components) + ") -> "@ + (
        "Result<Option<"@ + e.entity + ">, sqlx::Error>"@),
        !e.keys[j].unique ==> sig_of(e, e.keys[j]) == "async fn "@ + ("list_"@ + snake_of(
            e.display_name(),
        ) + "_by_"@ + e.keys[j].name) + "(&self"@ + args_text(e.keys[j].components) + ") -> "@ + (
        "Result<Vec<"@ + e.entity + ">, sqlx::Error>"@),
{
}

/// A failure-free declaration with pairwise-distinct field identifiers
/// yields a descriptor that satisfies its invariant: unique field
/// identifiers, no empty key, and no key component outside the field list.
pub proof fn lemma_entity_of_wf(d: RecordDecl)
    requires
        extract_err(d) is None,
        idents_unique(d.fields@),
    ensures
        entity_of(d).wf(),
{
    let e = entity_of(d);
    let fields = d.fields@;
    let tags = tags_of(fields);
    let fs = first_seen(tag_names(tags));

    assert forall|i: int, j: int| 0 <= i < j < e.columns.len() implies e.columns[i].field_name
        != e.columns[j].field_name by {
        lemma_fields_err_each(fields, i);
        lemma_fields_err_each(fields, j);
        assert(e.columns[i] == column_of(fields[i]));
        assert(e.columns[j] == column_of(fields[j]));
        assert(!idents_clash(fields[i], fields[j]));
    }

    assert forall|k: int| 0 <= k < e.keys.len() implies (#[trigger] e.keys[k]).components.len()
        >= 1 by {
        assert(e.keys[k] == key_for(tags, fs[k]));
        assert(fs.contains(fs[k]));
        lemma_first_seen_contains(tag_names(tags), fs[k]);
        lemma_members_nonempty(tags, fs[k]);
    }

    assert forall|k: int, l: int|
        0 <= k < e.keys.len() && 0 <= l < (#[trigger] e.keys[k]).components.len() implies e
        .columns.contains(#[trigger] e.keys[k].components[l]) by {
        assert(e.keys[k] == key_for(tags, fs[k]));
        let ms = members(tags, fs[k]);
        assert(e.keys[k].components[l] == ms[l].field);
        lemma_members_are_tags(tags, fs[k], l);
        let j = choose|j: int| 0 <= j < tags.len() && tags[j] == ms[l];
        lemma_tags_from_fields(fields, j);
        let i = choose|i: int|
            0 <= i < fields.len() && tag_of(#[trigger] fields[i]) == Some(tags[j]);
        assert(tags[j].field == column_of(fields[i]));
        assert(e.columns[i] == column_of(fields[i]));
        assert(e.columns.contains(e.keys[k].components[l]));
    }
}

} // verus!

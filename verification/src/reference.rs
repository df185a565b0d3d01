use vstd::prelude::*;

use crate::number::{format_i64, int_text};
use crate::text::{
    append_join, append_str, count_char, join, lemma_count_absent, lemma_count_concat,
    lemma_count_join_none, lemma_count_join_one_each, lemma_count_one_at_end, owned, same_text, trim,
    trim_spec, views,
};

verus! {

/// One editable column of a reference table.
#[derive(Clone, Copy, Debug)]
pub struct ColumnDef {
    pub key: &'static str,
    pub label: &'static str,
    /// "text", "number" or "color".
    pub input_type: &'static str,
    pub required: bool,
}

/// Describes one reference entity (brands, materials, colours), so that the
/// generic listing, creating, updating and deleting of rows serves all of them.
pub struct ReferenceConfig {
    /// The URL segment, e.g. "brands".
    pub entity: &'static str,
    /// The database table.
    pub table: &'static str,
    /// e.g. "Brand".
    pub singular: &'static str,
    /// The page heading, e.g. "Brands".
    pub title: &'static str,
    pub columns: &'static [ColumnDef],
    /// The column of `spools` that refers to this table's id, e.g. "brand_id";
    /// it blocks deletes that would leave a spool without its row.
    pub spool_fk_column: &'static str,
}

/// A form value, ready to be bound for one column.
#[derive(Debug)]
pub enum FormValue {
    /// A number column: the trimmed text, read as a float when bound (0.0
    /// where it is no number).
    Number(String),
    /// A required text column: the trimmed text, empty where missing.
    Text(String),
    /// An optional text column: the trimmed text, or nothing where it is empty.
    OptionalText(Option<String>),
}

/// The keys of `cols`, in order.
pub open spec fn column_keys(cols: Seq<ColumnDef>) -> Seq<Seq<char>> {
    cols.map_values(|c: ColumnDef| c.key@)
}

/// `n` placeholders.
pub open spec fn placeholders(n: nat) -> Seq<Seq<char>> {
    Seq::new(n, |i: int| "?"@)
}

/// `key = ?` for each column, in order.
pub open spec fn assignments(cols: Seq<ColumnDef>) -> Seq<Seq<char>> {
    cols.map_values(|c: ColumnDef| c.key@ + " = ?"@)
}

/// `SELECT * FROM <table> ORDER BY name`
pub open spec fn select_all_sql_spec(table: Seq<char>) -> Seq<char> {
    "SELECT * FROM "@ + table + " ORDER BY name"@
}

/// `SELECT * FROM <table> WHERE id = ?`
pub open spec fn select_one_sql_spec(table: Seq<char>) -> Seq<char> {
    "SELECT * FROM "@ + table + " WHERE id = ?"@
}

/// `INSERT INTO <table> (<keys>) VALUES (?, ...)`, one placeholder per column.
pub open spec fn insert_sql_spec(table: Seq<char>, cols: Seq<ColumnDef>) -> Seq<char> {
    "INSERT INTO "@ + table + " ("@ + join(column_keys(cols), ", "@) + ") VALUES ("@ + join(
        placeholders(cols.len()),
        ", "@,
    ) + ")"@
}

/// `UPDATE <table> SET <key> = ?, ... WHERE id = ?`
pub open spec fn update_sql_spec(table: Seq<char>, cols: Seq<ColumnDef>) -> Seq<char> {
    "UPDATE "@ + table + " SET "@ + join(assignments(cols), ", "@) + " WHERE id = ?"@
}

/// `SELECT COUNT(*) FROM spools WHERE <fk> = ?`
pub open spec fn in_use_sql_spec(fk: Seq<char>) -> Seq<char> {
    "SELECT COUNT(*) FROM spools WHERE "@ + fk + " = ?"@
}

/// `DELETE FROM <table> WHERE id = ?`
pub open spec fn delete_sql_spec(table: Seq<char>) -> Seq<char> {
    "DELETE FROM "@ + table + " WHERE id = ?"@
}

/// The message shown instead of deleting a row that `in_use` spools still use.
pub open spec fn refusal_text(in_use: int, singular: Seq<char>) -> Seq<char> {
    "Cannot delete: "@ + int_text(in_use) + " spool(s) still reference this "@ + singular + "."@
}

/// Whether a row that `in_use` spools still use may be deleted: only where
/// none uses it.
pub open spec fn delete_allowed(in_use: int) -> bool {
    in_use <= 0
}

/// How many spools refer to the row `id`, given the reference of each spool
/// (what the in-use query counts).
pub open spec fn reference_count(refs: Seq<i64>, id: i64) -> int
    decreases refs.len(),
{
    if refs.len() == 0 {
        0
    } else {
        reference_count(refs.drop_last(), id) + if refs.last() == id {
            1int
        } else {
            0int
        }
    }
}

/// The value of the last form entry named `key`: what a map built from the
/// entries in order keeps for it, a later entry replacing an earlier one.
pub open spec fn form_lookup(form: Seq<(String, String)>, key: Seq<char>) -> Option<Seq<char>>
    decreases form.len(),
{
    if form.len() == 0 {
        None
    } else if form.last().0@ == key {
        Some(form.last().1@)
    } else {
        form_lookup(form.drop_last(), key)
    }
}

/// Whether a column holds numbers.
pub open spec fn is_number_spec(col: ColumnDef) -> bool {
    col.input_type@ == "number"@
}

/// The text a column takes from the form: the trimmed entry, or nothing.
pub open spec fn raw_text(form: Seq<(String, String)>, col: ColumnDef) -> Seq<char> {
    match form_lookup(form, col.key@) {
        Some(v) => trim_spec(v),
        None => Seq::empty(),
    }
}

/// Whether `v` is what the form gives for `col`.
pub open spec fn form_value_for(v: FormValue, form: Seq<(String, String)>, col: ColumnDef) -> bool {
    let t = raw_text(form, col);
    if is_number_spec(col) {
        v matches FormValue::Number(s) && s@ == t
    } else if col.required {
        v matches FormValue::Text(s) && s@ == t
    } else if t.len() == 0 {
        v matches FormValue::OptionalText(o) && o is None
    } else {
        v matches FormValue::OptionalText(o) && o matches Some(s) && s@ == t
    }
}

/// Whether a column holds numbers (`input_type` is "number").
pub fn is_number_column(col: &ColumnDef) -> (r: bool)
    ensures
        r == is_number_spec(*col),
        r == (col.input_type@ == "number"@),
{
    same_text(col.input_type, "number")
}

/// The query listing all rows by name.
pub fn select_all_sql(config: &ReferenceConfig) -> (r: String)
    ensures
        r@ == select_all_sql_spec(config.table@),
{
    let mut s = owned("SELECT * FROM ");
    append_str(&mut s, config.table);
    append_str(&mut s, " ORDER BY name");
    s
}

/// The query reading one row by id.
pub fn select_one_sql(config: &ReferenceConfig) -> (r: String)
    ensures
        r@ == select_one_sql_spec(config.table@),
{
    let mut s = owned("SELECT * FROM ");
    append_str(&mut s, config.table);
    append_str(&mut s, " WHERE id = ?");
    s
}

/// The statement inserting a row: every column of the config, one placeholder each.
pub fn insert_sql(config: &ReferenceConfig) -> (r: String)
    ensures
        r@ == insert_sql_spec(config.table@, config.columns@),
{
    let n = config.columns.len();
    let mut keys: Vec<String> = Vec::new();
    let mut marks: Vec<String> = Vec::new();
    let mut i: usize = 0;
    while i < n
        invariant
            n == config.columns@.len(),
            i <= n,
            views(keys@) =~= column_keys(config.columns@).take(i as int),
            views(marks@) =~= placeholders(n as nat).take(i as int),
        decreases n - i,
    {
        let ghost old_keys = keys@;
        let ghost old_marks = marks@;
        let k = owned(config.columns[i].key);
        let m = owned("?");
        keys.push(k);
        marks.push(m);
        assert(views(keys@) =~= views(old_keys).push(k@));
        assert(views(marks@) =~= views(old_marks).push(m@));
        assert(column_keys(config.columns@).take(i + 1) =~= column_keys(config.columns@).take(
            i as int,
        ).push(k@));
        assert(placeholders(n as nat).take(i + 1) =~= placeholders(n as nat).take(i as int).push(
            m@,
        ));
        i = i + 1;
    }
    assert(column_keys(config.columns@).take(n as int) =~= column_keys(config.columns@));
    assert(placeholders(n as nat).take(n as int) =~= placeholders(n as nat));
    let mut s = owned("INSERT INTO ");
    append_str(&mut s, config.table);
    append_str(&mut s, " (");
    append_join(&mut s, &keys, ", ");
    append_str(&mut s, ") VALUES (");
    append_join(&mut s, &marks, ", ");
    append_str(&mut s, ")");
    s
}

/// The statement updating a row by id: every column of the config set to a placeholder.
pub fn update_sql(config: &ReferenceConfig) -> (r: String)
    ensures
        r@ == update_sql_spec(config.table@, config.columns@),
{
    let n = config.columns.len();
    let mut parts: Vec<String> = Vec::new();
    let mut i: usize = 0;
    while i < n
        invariant
            n == config.columns@.len(),
            i <= n,
            views(parts@) =~= assignments(config.columns@).take(i as int),
        decreases n - i,
    {
        let mut a = owned(config.columns[i].key);
        append_str(&mut a, " = ?");
        let ghost old_parts = parts@;
        let ghost av = a@;
        parts.push(a);
        assert(views(parts@) =~= views(old_parts).push(av));
        assert(assignments(config.columns@).take(i + 1) =~= assignments(config.columns@).take(
            i as int,
        ).push(av));
        i = i + 1;
    }
    assert(assignments(config.columns@).take(n as int) =~= assignments(config.columns@));
    let mut s = owned("UPDATE ");
    append_str(&mut s, config.table);
    append_str(&mut s, " SET ");
    append_join(&mut s, &parts, ", ");
    append_str(&mut s, " WHERE id = ?");
    s
}

/// The query counting the spools that use a row.
pub fn in_use_sql(config: &ReferenceConfig) -> (r: String)
    ensures
        r@ == in_use_sql_spec(config.spool_fk_column@),
{
    let mut s = owned("SELECT COUNT(*) FROM spools WHERE ");
    append_str(&mut s, config.spool_fk_column);
    append_str(&mut s, " = ?");
    s
}

/// The statement deleting a row by id.
pub fn delete_sql(config: &ReferenceConfig) -> (r: String)
    ensures
        r@ == delete_sql_spec(config.table@),
{
    let mut s = owned("DELETE FROM ");
    append_str(&mut s, config.table);
    append_str(&mut s, " WHERE id = ?");
    s
}

/// Whether a row that `in_use` spools still use may be deleted: `None` where
/// none uses it (the row is deleted), else the message shown instead.
pub fn delete_refusal(config: &ReferenceConfig, in_use: i64) -> (r: Option<String>)
    ensures
        (r is None) == delete_allowed(in_use as int),
        in_use > 0 ==> (r matches Some(m) && m@ == refusal_text(in_use as int, config.singular@)),
{
    if in_use > 0 {
        let mut m = owned("Cannot delete: ");
        let n = format_i64(in_use);
        append_str(&mut m, n.as_str());
        append_str(&mut m, " spool(s) still reference this ");
        append_str(&mut m, config.singular);
        append_str(&mut m, ".");
        Some(m)
    } else {
        None
    }
}

/// The value of the last entry of `form` named `key` (a later entry replaces
/// an earlier one).
pub fn lookup<'a>(form: &'a Vec<(String, String)>, key: &str) -> (r: Option<&'a String>)
    ensures
        match r {
            Some(v) => form_lookup(form@, key@) == Some(v@),
            None => form_lookup(form@, key@) is None,
        },
{
    let mut i: usize = form.len();
    assert(form@.take(i as int) =~= form@);
    while i > 0
        invariant
            i <= form@.len(),
            form_lookup(form@, key@) == form_lookup(form@.take(i as int), key@),
        decreases i,
    {
        assert(form@.take(i as int).last() == form@[i - 1]);
        if same_text(form[i - 1].0.as_str(), key) {
            return Some(&form[i - 1].1);
        }
        assert(form@.take(i as int).drop_last() =~= form@.take(i - 1));
        i = i - 1;
    }
    None
}

/// The values a form gives for the columns of `config`, in column order: each
/// column's entry (the last one of its name) trimmed, empty where missing; number columns keep the text for the
/// float reading, required text columns keep the text, and optional text
/// columns hold nothing where the text is empty.
pub fn form_values(config: &ReferenceConfig, form: &Vec<(String, String)>) -> (r: Vec<FormValue>)
    ensures
        r@.len() == config.columns@.len(),
        forall|i: int|
            0 <= i < r@.len() ==> form_value_for(#[trigger] r@[i], form@, config.columns@[i]),
{
    let n = config.columns.len();
    let mut out: Vec<FormValue> = Vec::new();
    let mut i: usize = 0;
    while i < n
        invariant
            n == config.columns@.len(),
            i <= n,
            out@.len() == i,
            forall|k: int|
                0 <= k < i ==> form_value_for(#[trigger] out@[k], form@, config.columns@[k]),
        decreases n - i,
    {
        let col = config.columns[i];
        let raw = match lookup(form, col.key) {
            Some(v) => trim(v.as_str()),
            None => String::new(),
        };
        let v = if is_number_column(&col) {
            FormValue::Number(raw)
        } else if col.required {
            FormValue::Text(raw)
        } else if raw.as_str().is_empty() {
            FormValue::OptionalText(None)
        } else {
            FormValue::OptionalText(Some(raw))
        };
        out.push(v);
        i = i + 1;
    }
    out
}

proof fn lemma_keys_hold_no_placeholder(cols: Seq<ColumnDef>)
    requires
        forall|i: int| 0 <= i < cols.len() ==> !(#[trigger] cols[i]).key@.contains('?'),
    ensures
        forall|i: int| 0 <= i < cols.len() ==> count_char(#[trigger] column_keys(cols)[i], '?') == 0,
{
    assert forall|i: int| 0 <= i < cols.len() implies count_char(
        #[trigger] column_keys(cols)[i],
        '?',
    ) == 0 by {
        lemma_count_absent(cols[i].key@, '?');
    }
}

/// The statement that inserts a row has exactly one placeholder per column,
/// as many as `form_values` gives values to bind (where the table's and the
/// columns' names hold no `?`).
pub proof fn law_insert_placeholders_match_columns(config: &ReferenceConfig)
    requires
        !config.table@.contains('?'),
        forall|i: int|
            0 <= i < config.columns@.len() ==> !(#[trigger] config.columns@[i]).key@.contains('?'),
    ensures
        count_char(insert_sql_spec(config.table@, config.columns@), '?') == config.columns@.len(),
{
    let cols = config.columns@;
    let n = cols.len();
    reveal_strlit("INSERT INTO ");
    reveal_strlit(" (");
    reveal_strlit(", ");
    reveal_strlit(") VALUES (");
    reveal_strlit(")");
    reveal_strlit("?");
    lemma_count_absent("INSERT INTO "@, '?');
    lemma_count_absent(" ("@, '?');
    lemma_count_absent(", "@, '?');
    lemma_count_absent(") VALUES ("@, '?');
    lemma_count_absent(")"@, '?');
    lemma_count_absent(config.table@, '?');
    lemma_count_one_at_end("?"@, '?');
    lemma_keys_hold_no_placeholder(cols);
    lemma_count_join_none(column_keys(cols), ", "@, '?');
    lemma_count_join_one_each(placeholders(n), ", "@, '?');
    let a = "INSERT INTO "@ + config.table@;
    let b = a + " ("@;
    let c = b + join(column_keys(cols), ", "@);
    let d = c + ") VALUES ("@;
    let e = d + join(placeholders(n), ", "@);
    lemma_count_concat("INSERT INTO "@, config.table@, '?');
    lemma_count_concat(a, " ("@, '?');
    lemma_count_concat(b, join(column_keys(cols), ", "@), '?');
    lemma_count_concat(c, ") VALUES ("@, '?');
    lemma_count_concat(d, join(placeholders(n), ", "@), '?');
    lemma_count_concat(e, ")"@, '?');
}

/// The statement that updates a row has one placeholder per column and one
/// for the id: the values `form_values` gives, then the id (where the table's
/// and the columns' names hold no `?`).
pub proof fn law_update_placeholders_match_columns(config: &ReferenceConfig)
    requires
        !config.table@.contains('?'),
        forall|i: int|
            0 <= i < config.columns@.len() ==> !(#[trigger] config.columns@[i]).key@.contains('?'),
    ensures
        count_char(update_sql_spec(config.table@, config.columns@), '?') == config.columns@.len()
            + 1,
{
    let cols = config.columns@;
    reveal_strlit("UPDATE ");
    reveal_strlit(" SET ");
    reveal_strlit(", ");
    reveal_strlit(" = ?");
    reveal_strlit(" WHERE id = ?");
    lemma_count_absent("UPDATE "@, '?');
    lemma_count_absent(" SET "@, '?');
    lemma_count_absent(", "@, '?');
    lemma_count_absent(config.table@, '?');
    lemma_count_one_at_end(" = ?"@, '?');
    lemma_count_one_at_end(" WHERE id = ?"@, '?');
    assert forall|i: int| 0 <= i < cols.len() implies count_char(
        #[trigger] assignments(cols)[i],
        '?',
    ) == 1 by {
        lemma_count_absent(cols[i].key@, '?');
        lemma_count_concat(cols[i].key@, " = ?"@, '?');
    }
    lemma_count_join_one_each(assignments(cols), ", "@, '?');
    let a = "UPDATE "@ + config.table@;
    let b = a + " SET "@;
    let c = b + join(assignments(cols), ", "@);
    lemma_count_concat("UPDATE "@, config.table@, '?');
    lemma_count_concat(a, " SET "@, '?');
    lemma_count_concat(b, join(assignments(cols), ", "@), '?');
    lemma_count_concat(c, " WHERE id = ?"@, '?');
}

proof fn lemma_no_reference_when_count_zero(refs: Seq<i64>, id: i64)
    ensures
        reference_count(refs, id) >= 0,
        reference_count(refs, id) <= 0 ==> forall|i: int| 0 <= i < refs.len() ==> refs[i] != id,
    decreases refs.len(),
{
    if refs.len() > 0 {
        lemma_no_reference_when_count_zero(refs.drop_last(), id);
        if reference_count(refs, id) <= 0 {
            assert forall|i: int| 0 <= i < refs.len() implies refs[i] != id by {
                if i < refs.len() - 1 {
                    assert(refs[i] == refs.drop_last()[i]);
                }
            }
        }
    }
}

/// Deleting a reference row never leaves a spool without its row. Where every
/// spool refers to a row of the table (`refs` holds each spool's reference,
/// `rows` the table's ids) and the delete is decided on the number of spools
/// that refer to `id`, the delete goes ahead only when no spool refers to
/// `id`; every spool then still refers to a row of the table without `id`.
pub proof fn law_delete_never_orphans(refs: Seq<i64>, rows: Set<i64>, id: i64)
    requires
        forall|i: int| 0 <= i < refs.len() ==> rows.contains(#[trigger] refs[i]),
    ensures
        delete_allowed(reference_count(refs, id)) ==> forall|i: int|
            0 <= i < refs.len() ==> rows.remove(id).contains(#[trigger] refs[i]),
        !delete_allowed(reference_count(refs, id)) ==> exists|i: int|
            0 <= i < refs.len() && #[trigger] refs[i] == id,
    decreases refs.len(),
{
    lemma_no_reference_when_count_zero(refs, id);
    if !delete_allowed(reference_count(refs, id)) && refs.len() > 0 {
        let init = refs.drop_last();
        assert forall|i: int| 0 <= i < init.len() implies rows.contains(#[trigger] init[i]) by {
            assert(init[i] == refs[i]);
        }
        law_delete_never_orphans(init, rows, id);
        if refs.last() == id {
            assert(refs[refs.len() - 1] == id);
        } else {
            let k = choose|k: int| 0 <= k < init.len() && #[trigger] init[k] == id;
            assert(refs[k] == init[k]);
        }
    }
}

/// How a form value is bound depends on the column's kind alone: a column
/// whose `input_type` is "number" gets a number, any other required column
/// its text, and any other optional column (such as a "color" column) its
/// text or nothing, nothing exactly where the trimmed entry is empty.
pub proof fn law_form_value_kind(v: FormValue, form: Seq<(String, String)>, col: ColumnDef)
    requires
        form_value_for(v, form, col),
    ensures
        (v is Number) <==> col.input_type@ == "number"@,
        (v is Text) <==> (col.input_type@ != "number"@ && col.required),
        (v is OptionalText) <==> (col.input_type@ != "number"@ && !col.required),
        v matches FormValue::OptionalText(o) ==> (o is None <==> raw_text(form, col).len() == 0),
        v matches FormValue::OptionalText(o) ==> (o matches Some(t) ==> t@ == raw_text(
            form,
            col,
        )),
{
}

} // verus!

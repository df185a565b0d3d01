use vstd::prelude::*;

use crate::number::{opt_int, parse_i64, parse_i64_spec};
use crate::text::{
    append_join, append_str, count_char, join, lemma_count_absent, lemma_count_concat,
    lemma_count_join_one_each, lemma_count_one_at_end, owned, same_text, trim, trim_spec, views,
};

verus! {

/// The spool listing: each spool with its brand, material and colour names,
/// its latest weighing and its first picture.
pub const SPOOL_LIST_BASE_QUERY: &'static str = "
SELECT s.id,
       b.name AS brand_name,
       m.name AS material_name,
       c.name AS colour_name,
       c.hex AS colour_hex,
       s.nominal_weight_g,
       COALESCE(s.tare_override_g, b.tare_weight_g) AS tare_weight_g,
       s.notes,
       s.purchase_date,
       wl.gross_weight_g - COALESCE(s.tare_override_g, b.tare_weight_g) AS remaining_g,
       (wl.gross_weight_g - COALESCE(s.tare_override_g, b.tare_weight_g)) / s.nominal_weight_g AS percent_remaining,
       si.path AS thumbnail_path
FROM spools s
JOIN brands b ON b.id = s.brand_id
JOIN materials m ON m.id = s.material_id
JOIN colours c ON c.id = s.colour_id
LEFT JOIN (
  SELECT spool_id, gross_weight_g, measured_at,
         ROW_NUMBER() OVER (PARTITION BY spool_id ORDER BY measured_at DESC, id DESC) AS rn
  FROM weight_log
) wl ON wl.spool_id = s.id AND wl.rn = 1
LEFT JOIN (
  SELECT spool_id, path,
         ROW_NUMBER() OVER (PARTITION BY spool_id ORDER BY sort_order ASC, id ASC) AS rn
  FROM spool_images
) si ON si.spool_id = s.id AND si.rn = 1
";

/// The ORDER BY expression for a sort key: only these fixed expressions ever
/// reach the SQL; an unknown key sorts by brand name.
pub open spec fn sort_column_spec(sort: Seq<char>) -> Seq<char> {
    if sort == "brand"@ {
        "b.name"@
    } else if sort == "material"@ {
        "m.name"@
    } else if sort == "colour"@ {
        "c.name"@
    } else if sort == "remaining_g"@ {
        "remaining_g"@
    } else if sort == "percent"@ {
        "percent_remaining"@
    } else if sort == "purchase_date"@ {
        "s.purchase_date"@
    } else {
        "b.name"@
    }
}

/// The expressions a listing may be ordered by.
pub open spec fn allowed_sort_expression(e: Seq<char>) -> bool {
    ||| e == "b.name"@
    ||| e == "m.name"@
    ||| e == "c.name"@
    ||| e == "remaining_g"@
    ||| e == "percent_remaining"@
    ||| e == "s.purchase_date"@
}

/// Maps a sort key of the query string to its SQL expression, through a fixed
/// list, so that the raw parameter never reaches the SQL.
pub fn sort_column(sort: &str) -> (r: &'static str)
    ensures
        r@ == sort_column_spec(sort@),
        allowed_sort_expression(r@),
{
    if same_text(sort, "brand") {
        "b.name"
    } else if same_text(sort, "material") {
        "m.name"
    } else if same_text(sort, "colour") {
        "c.name"
    } else if same_text(sort, "remaining_g") {
        "remaining_g"
    } else if same_text(sort, "percent") {
        "percent_remaining"
    } else if same_text(sort, "purchase_date") {
        "s.purchase_date"
    } else {
        "b.name"
    }
}

/// What the spool list is asked for: the filters, the sort key and the
/// direction.
#[derive(Debug)]
pub struct ListQuery {
    pub brand: Option<i64>,
    pub material: Option<i64>,
    pub colour: Option<i64>,
    pub sort: String,
    pub descending: bool,
}

/// An optional query parameter read as an id; a value that is no `i64`
/// counts as absent.
pub open spec fn param_id(p: Option<&str>) -> Option<int> {
    match p {
        Some(s) => parse_i64_spec(s@),
        None => None,
    }
}

/// The filters that are set, in the order brand, material, colour: each
/// with its condition and the id bound to it.
pub open spec fn filter_pairs(q: ListQuery) -> Seq<(Seq<char>, i64)> {
    let b: Seq<(Seq<char>, i64)> = match q.brand {
        Some(v) => seq![("s.brand_id = ?"@, v)],
        None => Seq::empty(),
    };
    let m: Seq<(Seq<char>, i64)> = match q.material {
        Some(v) => seq![("s.material_id = ?"@, v)],
        None => Seq::empty(),
    };
    let c: Seq<(Seq<char>, i64)> = match q.colour {
        Some(v) => seq![("s.colour_id = ?"@, v)],
        None => Seq::empty(),
    };
    b + m + c
}

/// The conditions of the WHERE clause.
pub open spec fn list_conditions(q: ListQuery) -> Seq<Seq<char>> {
    filter_pairs(q).map_values(|p: (Seq<char>, i64)| p.0)
}

/// The ids bound to the placeholders, in order.
pub open spec fn list_bindings_spec(q: ListQuery) -> Seq<i64> {
    filter_pairs(q).map_values(|p: (Seq<char>, i64)| p.1)
}

/// The WHERE clause: nothing without filters.
pub open spec fn where_clause(q: ListQuery) -> Seq<char> {
    if list_conditions(q).len() == 0 {
        Seq::empty()
    } else {
        " WHERE "@ + join(list_conditions(q), " AND "@)
    }
}

/// ASC or DESC.
pub open spec fn direction_sql(descending: bool) -> Seq<char> {
    if descending {
        "DESC"@
    } else {
        "ASC"@
    }
}

/// What follows the base query: the WHERE clause and the ORDER BY clause.
pub open spec fn list_tail(q: ListQuery) -> Seq<char> {
    where_clause(q) + " ORDER BY "@ + sort_column_spec(q.sort@) + " "@ + direction_sql(
        q.descending,
    )
}

impl ListQuery {
    /// Reads the query parameters `brand`, `material`, `colour` (ids; one that
    /// is no `i64` is ignored), `sort` (default "brand") and `dir` (descending
    /// exactly where it is "desc").
    pub fn from_params(
        brand: Option<&str>,
        material: Option<&str>,
        colour: Option<&str>,
        sort: Option<&str>,
        dir: Option<&str>,
    ) -> (r: ListQuery)
        ensures
            opt_int(r.brand) == param_id(brand),
            opt_int(r.material) == param_id(material),
            opt_int(r.colour) == param_id(colour),
            r.sort@ == match sort {
                Some(s) => s@,
                None => "brand"@,
            },
            r.descending == (dir is Some && dir->0@ == "desc"@),
    {
        let brand = match brand {
            Some(s) => parse_i64(s),
            None => None,
        };
        let material = match material {
            Some(s) => parse_i64(s),
            None => None,
        };
        let colour = match colour {
            Some(s) => parse_i64(s),
            None => None,
        };
        let sort = match sort {
            Some(s) => owned(s),
            None => owned("brand"),
        };
        let descending = match dir {
            Some(d) => same_text(d, "desc"),
            None => false,
        };
        ListQuery { brand, material, colour, sort, descending }
    }

    /// The conditions of the set filters, and their ids, in order.
    fn filters(&self) -> (r: (Vec<String>, Vec<i64>))
        ensures
            views(r.0@) == list_conditions(*self),
            r.1@ == list_bindings_spec(*self),
    {
        let mut conds: Vec<String> = Vec::new();
        let mut ids: Vec<i64> = Vec::new();
        match self.brand {
            Some(v) => {
                conds.push(owned("s.brand_id = ?"));
                ids.push(v);
            },
            None => {},
        }
        match self.material {
            Some(v) => {
                conds.push(owned("s.material_id = ?"));
                ids.push(v);
            },
            None => {},
        }
        match self.colour {
            Some(v) => {
                conds.push(owned("s.colour_id = ?"));
                ids.push(v);
            },
            None => {},
        }
        assert(views(conds@) =~= list_conditions(*self));
        assert(ids@ =~= list_bindings_spec(*self));
        (conds, ids)
    }

    /// The ids to bind to the listing's placeholders, in order.
    pub fn bindings(&self) -> (r: Vec<i64>)
        ensures
            r@ == list_bindings_spec(*self),
    {
        self.filters().1
    }

    /// The listing query: the base query, a condition for each set filter,
    /// and the ordering by the whitelisted sort expression.
    pub fn sql(&self) -> (r: String)
        ensures
            r@ == SPOOL_LIST_BASE_QUERY@ + list_tail(*self),
    {
        let (conds, _) = self.filters();
        let mut s = owned(SPOOL_LIST_BASE_QUERY);
        if conds.len() > 0 {
            append_str(&mut s, " WHERE ");
            append_join(&mut s, &conds, " AND ");
        }
        append_str(&mut s, " ORDER BY ");
        append_str(&mut s, sort_column(self.sort.as_str()));
        append_str(&mut s, " ");
        if self.descending {
            append_str(&mut s, "DESC");
        } else {
            append_str(&mut s, "ASC");
        }
        s
    }

    /// The direction as the page shows it: "desc" or "asc".
    pub fn dir_text(&self) -> (r: &'static str)
        ensures
            r@ == if self.descending {
                "desc"@
            } else {
                "asc"@
            },
    {
        if self.descending {
            "desc"
        } else {
            "asc"
        }
    }
}

/// The query reading one spool of the listing by id.
pub fn spool_detail_sql() -> (r: String)
    ensures
        r@ == SPOOL_LIST_BASE_QUERY@ + " WHERE s.id = ?"@,
{
    let mut s = owned(SPOOL_LIST_BASE_QUERY);
    append_str(&mut s, " WHERE s.id = ?");
    s
}

/// Whether a request came from htmx: its `HX-Request` header is exactly "true".
pub fn is_htmx_request(header: Option<&[u8]>) -> (r: bool)
    ensures
        r == (header is Some && header->0@ == seq![116u8, 114u8, 117u8, 101u8]),
{
    match header {
        Some(h) => {
            if h.len() == 4 && h[0] == 116u8 && h[1] == 114u8 && h[2] == 117u8 && h[3] == 101u8 {
                assert(h@ =~= seq![116u8, 114u8, 117u8, 101u8]);
                true
            } else {
                false
            }
        },
        None => false,
    }
}

/// The template of the list page: an htmx request (a filter or sort change)
/// gets only the rows fragment (table body and card list) to swap in; any
/// other request gets the whole page.
pub fn list_template(htmx: bool) -> (r: &'static str)
    ensures
        r@ == if htmx {
            "partials/spool_rows.html"@
        } else {
            "spool_list.html"@
        },
{
    if htmx {
        "partials/spool_rows.html"
    } else {
        "spool_list.html"
    }
}

/// The message for an upload that failed while being read, by its HTTP status:
/// a body over the size limit (413) gets its own message.
pub fn multipart_error_message(status: u16) -> (r: &'static str)
    ensures
        status == 413 ==> r@ == "Upload too large. Try fewer or smaller photos."@,
        status != 413 ==> r@ == "Could not process the upload."@,
{
    if status == 413 {
        "Upload too large. Try fewer or smaller photos."
    } else {
        "Could not process the upload."
    }
}

proof fn lemma_no_placeholder_in_fixed_text(q: ListQuery)
    ensures
        count_char(" ORDER BY "@, '?') == 0,
        count_char(" "@, '?') == 0,
        count_char(" WHERE "@, '?') == 0,
        count_char(" AND "@, '?') == 0,
        count_char(sort_column_spec(q.sort@), '?') == 0,
        count_char(direction_sql(q.descending), '?') == 0,
{
    reveal_strlit(" ORDER BY ");
    reveal_strlit(" ");
    reveal_strlit(" WHERE ");
    reveal_strlit(" AND ");
    reveal_strlit("b.name");
    reveal_strlit("m.name");
    reveal_strlit("c.name");
    reveal_strlit("remaining_g");
    reveal_strlit("percent_remaining");
    reveal_strlit("s.purchase_date");
    reveal_strlit("DESC");
    reveal_strlit("ASC");
    lemma_count_absent(" ORDER BY "@, '?');
    lemma_count_absent(" "@, '?');
    lemma_count_absent(" WHERE "@, '?');
    lemma_count_absent(" AND "@, '?');
    lemma_count_absent(sort_column_spec(q.sort@), '?');
    lemma_count_absent(direction_sql(q.descending), '?');
}

proof fn lemma_one_placeholder_per_condition(q: ListQuery)
    ensures
        forall|i: int|
            0 <= i < list_conditions(q).len() ==> count_char(#[trigger] list_conditions(q)[i], '?')
                == 1,
{
    reveal_strlit("s.brand_id = ?");
    reveal_strlit("s.material_id = ?");
    reveal_strlit("s.colour_id = ?");
    lemma_count_one_at_end("s.brand_id = ?"@, '?');
    lemma_count_one_at_end("s.material_id = ?"@, '?');
    lemma_count_one_at_end("s.colour_id = ?"@, '?');
    let ps = filter_pairs(q);
    assert forall|i: int| 0 <= i < list_conditions(q).len() implies count_char(
        #[trigger] list_conditions(q)[i],
        '?',
    ) == 1 by {
        assert(list_conditions(q)[i] == ps[i].0);
    }
}

/// Every placeholder that the listing query holds after its base query gets
/// exactly one bound id: the query has one `?` per filter that is set, and
/// `bindings` gives one id per filter that is set, in the same order as the
/// conditions.
pub proof fn law_list_placeholders_match_bindings(q: ListQuery)
    ensures
        count_char(list_tail(q), '?') == list_bindings_spec(q).len(),
        list_conditions(q).len() == list_bindings_spec(q).len(),
        forall|i: int|
            0 <= i < list_bindings_spec(q).len() ==> (#[trigger] list_conditions(q)[i] == "s.brand_id = ?"@
                ==> q.brand == Some(list_bindings_spec(q)[i])) && (list_conditions(q)[i]
                == "s.material_id = ?"@ ==> q.material == Some(list_bindings_spec(q)[i])) && (
            list_conditions(q)[i] == "s.colour_id = ?"@ ==> q.colour == Some(
                list_bindings_spec(q)[i],
            )),
{
    lemma_no_placeholder_in_fixed_text(q);
    lemma_one_placeholder_per_condition(q);
    let w = where_clause(q);
    if list_conditions(q).len() > 0 {
        lemma_count_join_one_each(list_conditions(q), " AND "@, '?');
        lemma_count_concat(" WHERE "@, join(list_conditions(q), " AND "@), '?');
    }
    lemma_count_concat(w, " ORDER BY "@, '?');
    lemma_count_concat(w + " ORDER BY "@, sort_column_spec(q.sort@), '?');
    lemma_count_concat(w + " ORDER BY "@ + sort_column_spec(q.sort@), " "@, '?');
    lemma_count_concat(
        w + " ORDER BY "@ + sort_column_spec(q.sort@) + " "@,
        direction_sql(q.descending),
        '?',
    );
    reveal_strlit("s.brand_id = ?");
    reveal_strlit("s.material_id = ?");
    reveal_strlit("s.colour_id = ?");
    let ps = filter_pairs(q);
    assert forall|i: int| 0 <= i < list_bindings_spec(q).len() implies (
    #[trigger] list_conditions(q)[i] == "s.brand_id = ?"@ ==> q.brand == Some(
        list_bindings_spec(q)[i],
    )) && (list_conditions(q)[i] == "s.material_id = ?"@ ==> q.material == Some(
        list_bindings_spec(q)[i],
    )) && (list_conditions(q)[i] == "s.colour_id = ?"@ ==> q.colour == Some(
        list_bindings_spec(q)[i],
    )) by {
        assert(list_conditions(q)[i] == ps[i].0);
        assert(list_bindings_spec(q)[i] == ps[i].1);
        assert("s.brand_id = ?"@[2] == 'b');
        assert("s.material_id = ?"@[2] == 'm');
        assert("s.colour_id = ?"@[2] == 'c');
        assert("s.brand_id = ?"@ != "s.material_id = ?"@);
        assert("s.brand_id = ?"@ != "s.colour_id = ?"@);
        assert("s.material_id = ?"@ != "s.colour_id = ?"@);
    }
}

/// The fields of the spool form, as far as they have been read: the form of
/// a new spool (read field by field from an upload) and of an edited spool
/// (read from its pairs).
#[derive(Debug)]
pub struct SpoolForm {
    pub brand_id: Option<i64>,
    pub material_id: Option<i64>,
    pub colour_id: Option<i64>,
    /// The trimmed text of `nominal_weight_g`, read as a float when used.
    pub nominal_weight_text: Option<String>,
    pub weight_mode: String,
    /// The trimmed text of `gross_weight_g`, read as a float when used.
    pub gross_weight_text: Option<String>,
    pub product_urls: Vec<String>,
    pub notes: Option<String>,
    pub purchase_date: Option<String>,
    /// The uploaded pictures: file name and bytes.
    pub images: Vec<(String, Vec<u8>)>,
}

/// The fields of a spool form as mathematical values.
pub struct SpoolFormView {
    pub brand_id: Option<int>,
    pub material_id: Option<int>,
    pub colour_id: Option<int>,
    pub nominal_weight_text: Option<Seq<char>>,
    pub weight_mode: Seq<char>,
    pub gross_weight_text: Option<Seq<char>>,
    pub product_urls: Seq<Seq<char>>,
    pub notes: Option<Seq<char>>,
    pub purchase_date: Option<Seq<char>>,
    pub images: Seq<(Seq<char>, Seq<u8>)>,
}

/// An optional string as optional text.
pub open spec fn opt_text(o: Option<String>) -> Option<Seq<char>> {
    match o {
        Some(s) => Some(s@),
        None => None,
    }
}

impl View for SpoolForm {
    type V = SpoolFormView;

    open spec fn view(&self) -> SpoolFormView {
        SpoolFormView {
            brand_id: opt_int(self.brand_id),
            material_id: opt_int(self.material_id),
            colour_id: opt_int(self.colour_id),
            nominal_weight_text: opt_text(self.nominal_weight_text),
            weight_mode: self.weight_mode@,
            gross_weight_text: opt_text(self.gross_weight_text),
            product_urls: views(self.product_urls@),
            notes: opt_text(self.notes),
            purchase_date: opt_text(self.purchase_date),
            images: self.images@.map_values(|p: (String, Vec<u8>)| (p.0@, p.1@)),
        }
    }
}

/// The empty form.
pub open spec fn empty_form() -> SpoolFormView {
    SpoolFormView {
        brand_id: None,
        material_id: None,
        colour_id: None,
        nominal_weight_text: None,
        weight_mode: Seq::empty(),
        gross_weight_text: None,
        product_urls: Seq::empty(),
        notes: None,
        purchase_date: None,
        images: Seq::empty(),
    }
}

/// The form after a text field `name` with the value `raw`: the value is
/// trimmed; an id that is no `i64` is cleared; empty links, notes and
/// purchase dates are ignored; links collect in order; other names change
/// nothing.
pub open spec fn accept_text_spec(v: SpoolFormView, name: Seq<char>, raw: Seq<char>) -> SpoolFormView {
    let t = trim_spec(raw);
    if name == "brand_id"@ {
        SpoolFormView { brand_id: parse_i64_spec(t), ..v }
    } else if name == "material_id"@ {
        SpoolFormView { material_id: parse_i64_spec(t), ..v }
    } else if name == "colour_id"@ {
        SpoolFormView { colour_id: parse_i64_spec(t), ..v }
    } else if name == "nominal_weight_g"@ {
        SpoolFormView { nominal_weight_text: Some(t), ..v }
    } else if name == "weight_mode"@ {
        SpoolFormView { weight_mode: t, ..v }
    } else if name == "gross_weight_g"@ {
        SpoolFormView { gross_weight_text: Some(t), ..v }
    } else if name == "product_url"@ && t.len() > 0 {
        SpoolFormView { product_urls: v.product_urls.push(t), ..v }
    } else if name == "notes"@ && t.len() > 0 {
        SpoolFormView { notes: Some(t), ..v }
    } else if name == "purchase_date"@ && t.len() > 0 {
        SpoolFormView { purchase_date: Some(t), ..v }
    } else {
        v
    }
}

/// The form after all `pairs`, read in order.
pub open spec fn accept_pairs_spec(v: SpoolFormView, pairs: Seq<(String, String)>) -> SpoolFormView
    decreases pairs.len(),
{
    if pairs.len() == 0 {
        v
    } else {
        accept_text_spec(
            accept_pairs_spec(v, pairs.drop_last()),
            pairs.last().0@,
            pairs.last().1@,
        )
    }
}

/// Why a spool form cannot be saved.
#[derive(Clone, Copy, Debug, PartialEq, Eq, Structural)]
pub enum SpoolFormError {
    /// A new spool lacks its brand, material or colour.
    MissingReference,
    /// A new, opened spool lacks a gross weight that reads as a number.
    MissingGrossWeight,
    /// An edited spool lacks its brand.
    BrandRequired,
    /// An edited spool lacks its material.
    MaterialRequired,
    /// An edited spool lacks its colour.
    ColourRequired,
    /// A weighing lacks a gross weight that reads as a number.
    GrossWeightRequired,
}

impl SpoolFormError {
    /// The message the user gets.
    pub fn message(&self) -> (r: &'static str)
        ensures
            *self == SpoolFormError::MissingReference ==> r@
                == "Please select a brand, material, and colour."@,
            *self == SpoolFormError::MissingGrossWeight ==> r@
                == "Please enter the current gross weight for an already-opened spool."@,
            *self == SpoolFormError::BrandRequired ==> r@ == "brand is required"@,
            *self == SpoolFormError::MaterialRequired ==> r@ == "material is required"@,
            *self == SpoolFormError::ColourRequired ==> r@ == "colour is required"@,
            *self == SpoolFormError::GrossWeightRequired ==> r@ == "gross weight is required"@,
    {
        match self {
            SpoolFormError::MissingReference => "Please select a brand, material, and colour.",
            SpoolFormError::MissingGrossWeight => {
                "Please enter the current gross weight for an already-opened spool."
            },
            SpoolFormError::BrandRequired => "brand is required",
            SpoolFormError::MaterialRequired => "material is required",
            SpoolFormError::ColourRequired => "colour is required",
            SpoolFormError::GrossWeightRequired => "gross weight is required",
        }
    }
}

/// Where the first weighing of a new spool comes from.
#[derive(Clone, Copy, Debug, PartialEq, Eq, Structural)]
pub enum WeightSource {
    /// An opened spool: the gross weight entered in the form.
    Measured,
    /// A new spool: the brand's tare plus the nominal weight.
    TarePlusNominal,
}

/// Whether a field of the upload form carries a picture.
pub fn is_image_field(name: &str) -> (r: bool)
    ensures
        r == (name@ == "images"@),
{
    same_text(name, "images")
}

impl SpoolForm {
    /// The empty form.
    pub fn new() -> (r: SpoolForm)
        ensures
            r@ == empty_form(),
    {
        let r = SpoolForm {
            brand_id: None,
            material_id: None,
            colour_id: None,
            nominal_weight_text: None,
            weight_mode: String::new(),
            gross_weight_text: None,
            product_urls: Vec::new(),
            notes: None,
            purchase_date: None,
            images: Vec::new(),
        };
        assert(r@.product_urls =~= Seq::<Seq<char>>::empty());
        assert(r@.images =~= Seq::<(Seq<char>, Seq<u8>)>::empty());
        r
    }

    /// Reads the text field `name` with the value `raw`.
    pub fn accept_text(&mut self, name: &str, raw: &str)
        ensures
            final(self)@ == accept_text_spec(old(self)@, name@, raw@),
    {
        let t = trim(raw);
        let ghost tv = t@;
        if same_text(name, "brand_id") {
            self.brand_id = parse_i64(t.as_str());
        } else if same_text(name, "material_id") {
            self.material_id = parse_i64(t.as_str());
        } else if same_text(name, "colour_id") {
            self.colour_id = parse_i64(t.as_str());
        } else if same_text(name, "nominal_weight_g") {
            self.nominal_weight_text = Some(t);
        } else if same_text(name, "weight_mode") {
            self.weight_mode = t;
        } else if same_text(name, "gross_weight_g") {
            self.gross_weight_text = Some(t);
        } else if same_text(name, "product_url") && !t.as_str().is_empty() {
            let ghost before = self.product_urls@;
            self.product_urls.push(t);
            assert(views(self.product_urls@) =~= views(before).push(tv));
        } else if same_text(name, "notes") && !t.as_str().is_empty() {
            self.notes = Some(t);
        } else if same_text(name, "purchase_date") && !t.as_str().is_empty() {
            self.purchase_date = Some(t);
        }
    }

    /// Reads a picture field: kept where both its file name and its bytes are
    /// non-empty.
    pub fn accept_file(&mut self, file_name: String, bytes: Vec<u8>)
        ensures
            final(self)@ == if file_name@.len() > 0 && bytes@.len() > 0 {
                SpoolFormView { images: old(self)@.images.push((file_name@, bytes@)), ..old(self)@ }
            } else {
                old(self)@
            },
    {
        if !file_name.as_str().is_empty() && bytes.len() > 0 {
            let ghost before = self.images@;
            let ghost item = (file_name@, bytes@);
            self.images.push((file_name, bytes));
            assert(self@.images =~= before.map_values(|p: (String, Vec<u8>)| (p.0@, p.1@)).push(
                item,
            ));
        }
    }

    /// Reads the form of an edited spool from its pairs, in order.
    pub fn from_pairs(pairs: &Vec<(String, String)>) -> (r: SpoolForm)
        ensures
            r@ == accept_pairs_spec(empty_form(), pairs@),
    {
        let mut form = SpoolForm::new();
        let n = pairs.len();
        let mut i: usize = 0;
        while i < n
            invariant
                n == pairs@.len(),
                i <= n,
                form@ == accept_pairs_spec(empty_form(), pairs@.take(i as int)),
            decreases n - i,
        {
            form.accept_text(pairs[i].0.as_str(), pairs[i].1.as_str());
            assert(pairs@.take(i + 1).drop_last() =~= pairs@.take(i as int));
            i = i + 1;
        }
        assert(pairs@.take(n as int) =~= pairs@);
        form
    }

    /// The brand, material and colour of a new spool; all three are needed.
    pub fn create_ids(&self) -> (r: Result<(i64, i64, i64), SpoolFormError>)
        ensures
            match r {
                Ok((b, m, c)) => self.brand_id == Some(b) && self.material_id == Some(m)
                    && self.colour_id == Some(c),
                Err(e) => e == SpoolFormError::MissingReference && (self.brand_id is None
                    || self.material_id is None || self.colour_id is None),
            },
    {
        match (self.brand_id, self.material_id, self.colour_id) {
            (Some(b), Some(m), Some(c)) => Ok((b, m, c)),
            _ => Err(SpoolFormError::MissingReference),
        }
    }

    /// The brand, material and colour of an edited spool, checked in that
    /// order.
    pub fn update_ids(&self) -> (r: Result<(i64, i64, i64), SpoolFormError>)
        ensures
            match r {
                Ok((b, m, c)) => self.brand_id == Some(b) && self.material_id == Some(m)
                    && self.colour_id == Some(c),
                Err(e) => if self.brand_id is None {
                    e == SpoolFormError::BrandRequired
                } else if self.material_id is None {
                    e == SpoolFormError::MaterialRequired
                } else {
                    self.colour_id is None && e == SpoolFormError::ColourRequired
                },
            },
    {
        let b = match self.brand_id {
            Some(b) => b,
            None => return Err(SpoolFormError::BrandRequired),
        };
        let m = match self.material_id {
            Some(m) => m,
            None => return Err(SpoolFormError::MaterialRequired),
        };
        let c = match self.colour_id {
            Some(c) => c,
            None => return Err(SpoolFormError::ColourRequired),
        };
        Ok((b, m, c))
    }

    /// Whether the spool is marked as already opened.
    pub fn is_opened(&self) -> (r: bool)
        ensures
            r == (self.weight_mode@ == "opened"@),
    {
        same_text(self.weight_mode.as_str(), "opened")
    }

    /// Where the first weighing of a new spool comes from, given whether the
    /// form's gross weight reads as a number: an opened spool needs one and
    /// uses it; any other spool weighs its brand's tare plus its nominal weight.
    pub fn weight_source(&self, gross_is_number: bool) -> (r: Result<WeightSource, SpoolFormError>)
        ensures
            self.weight_mode@ == "opened"@ && gross_is_number ==> r == Ok::<
                WeightSource,
                SpoolFormError,
            >(WeightSource::Measured),
            self.weight_mode@ == "opened"@ && !gross_is_number ==> r == Err::<
                WeightSource,
                SpoolFormError,
            >(SpoolFormError::MissingGrossWeight),
            self.weight_mode@ != "opened"@ ==> r == Ok::<WeightSource, SpoolFormError>(
                WeightSource::TarePlusNominal,
            ),
    {
        if self.is_opened() {
            if gross_is_number {
                Ok(WeightSource::Measured)
            } else {
                Err(SpoolFormError::MissingGrossWeight)
            }
        } else {
            Ok(WeightSource::TarePlusNominal)
        }
    }
}

/// The product links that `pairs` carry: the trimmed, non-empty values of
/// the `product_url` entries, in the order they come.
pub open spec fn product_links(pairs: Seq<(String, String)>) -> Seq<Seq<char>>
    decreases pairs.len(),
{
    if pairs.len() == 0 {
        Seq::empty()
    } else {
        let t = trim_spec(pairs.last().1@);
        if pairs.last().0@ == "product_url"@ && t.len() > 0 {
            product_links(pairs.drop_last()).push(t)
        } else {
            product_links(pairs.drop_last())
        }
    }
}

/// An edited spool keeps exactly the product links of its form, in the order
/// they were entered, blank ones left out (and its links are then written in
/// that order).
pub proof fn law_product_links_in_order(pairs: Seq<(String, String)>)
    ensures
        accept_pairs_spec(empty_form(), pairs).product_urls == product_links(pairs),
    decreases pairs.len(),
{
    if pairs.len() > 0 {
        law_product_links_in_order(pairs.drop_last());
        reveal_strlit("product_url");
        reveal_strlit("brand_id");
        reveal_strlit("material_id");
        reveal_strlit("colour_id");
        reveal_strlit("nominal_weight_g");
        reveal_strlit("weight_mode");
        reveal_strlit("gross_weight_g");
        let name = pairs.last().0@;
        if name == "product_url"@ {
            assert(name[0] == 'p');
            assert(name.len() == 11);
            assert(name != "brand_id"@);
            assert(name != "material_id"@ && name != "colour_id"@);
            assert(name != "nominal_weight_g"@ && name != "weight_mode"@);
            assert(name != "gross_weight_g"@);
        }
    }
}

proof fn lemma_condition_texts_differ()
    ensures
        "s.brand_id = ?"@ != "s.material_id = ?"@,
        "s.brand_id = ?"@ != "s.colour_id = ?"@,
        "s.material_id = ?"@ != "s.colour_id = ?"@,
{
    reveal_strlit("s.brand_id = ?");
    reveal_strlit("s.material_id = ?");
    reveal_strlit("s.colour_id = ?");
    assert("s.brand_id = ?"@[2] == 'b');
    assert("s.material_id = ?"@[2] == 'm');
    assert("s.colour_id = ?"@[2] == 'c');
}

/// Each filter of the listing works on its own: the query holds the brand
/// condition exactly when a brand id was given, the material condition
/// exactly when a material id was given, and the colour condition exactly
/// when a colour id was given, whatever the other parameters are; there is
/// no other condition, and the id bound to each condition is its filter's id.
pub proof fn law_each_filter_on_its_own(q: ListQuery)
    ensures
        list_conditions(q).contains("s.brand_id = ?"@) <==> q.brand is Some,
        list_conditions(q).contains("s.material_id = ?"@) <==> q.material is Some,
        list_conditions(q).contains("s.colour_id = ?"@) <==> q.colour is Some,
        list_conditions(q).len() == (if q.brand is Some {
            1int
        } else {
            0int
        }) + (if q.material is Some {
            1int
        } else {
            0int
        }) + (if q.colour is Some {
            1int
        } else {
            0int
        }),
        list_bindings_spec(q).len() == list_conditions(q).len(),
        forall|i: int|
            0 <= i < list_conditions(q).len() ==> (#[trigger] list_conditions(q)[i]
                == "s.brand_id = ?"@ && q.brand == Some(list_bindings_spec(q)[i])) || (
            list_conditions(q)[i] == "s.material_id = ?"@ && q.material == Some(
                list_bindings_spec(q)[i],
            )) || (list_conditions(q)[i] == "s.colour_id = ?"@ && q.colour == Some(
                list_bindings_spec(q)[i],
            )),
{
    lemma_condition_texts_differ();
    let ps = filter_pairs(q);
    let cs = list_conditions(q);
    let bs = list_bindings_spec(q);
    assert forall|i: int| 0 <= i < cs.len() implies (#[trigger] cs[i] == "s.brand_id = ?"@ && q.brand
        == Some(bs[i])) || (cs[i] == "s.material_id = ?"@ && q.material == Some(bs[i])) || (cs[i]
        == "s.colour_id = ?"@ && q.colour == Some(bs[i])) by {
        assert(cs[i] == ps[i].0);
        assert(bs[i] == ps[i].1);
    }
    let nb: int = if q.brand is Some {
        1
    } else {
        0
    };
    let nm: int = if q.material is Some {
        1
    } else {
        0
    };
    if q.brand is Some {
        assert(cs[0] == "s.brand_id = ?"@);
    }
    if q.material is Some {
        assert(cs[nb] == "s.material_id = ?"@);
    }
    if q.colour is Some {
        assert(cs[nb + nm] == "s.colour_id = ?"@);
    }
    if cs.contains("s.brand_id = ?"@) {
        let k = choose|k: int| 0 <= k < cs.len() && cs[k] == "s.brand_id = ?"@;
        assert(cs[k] == ps[k].0);
    }
    if cs.contains("s.material_id = ?"@) {
        let k = choose|k: int| 0 <= k < cs.len() && cs[k] == "s.material_id = ?"@;
        assert(cs[k] == ps[k].0);
    }
    if cs.contains("s.colour_id = ?"@) {
        let k = choose|k: int| 0 <= k < cs.len() && cs[k] == "s.colour_id = ?"@;
        assert(cs[k] == ps[k].0);
    }
}

/// The value of the last entry named `name`, if there is one.
pub open spec fn last_entry(pairs: Seq<(String, String)>, name: Seq<char>) -> Option<Seq<char>>
    decreases pairs.len(),
{
    if pairs.len() == 0 {
        None
    } else if pairs.last().0@ == name {
        Some(pairs.last().1@)
    } else {
        last_entry(pairs.drop_last(), name)
    }
}

/// The trimmed value of the last entry named `name` whose trimmed value is
/// not empty, if there is one.
pub open spec fn last_filled_entry(pairs: Seq<(String, String)>, name: Seq<char>) -> Option<
    Seq<char>,
>
    decreases pairs.len(),
{
    if pairs.len() == 0 {
        None
    } else if pairs.last().0@ == name && trim_spec(pairs.last().1@).len() > 0 {
        Some(trim_spec(pairs.last().1@))
    } else {
        last_filled_entry(pairs.drop_last(), name)
    }
}

proof fn lemma_field_names()
    ensures
        "brand_id"@.len() == 8,
        "material_id"@.len() == 11,
        "material_id"@[0] == 'm',
        "colour_id"@.len() == 9,
        "nominal_weight_g"@.len() == 16,
        "weight_mode"@.len() == 11,
        "weight_mode"@[0] == 'w',
        "gross_weight_g"@.len() == 14,
        "product_url"@.len() == 11,
        "product_url"@[0] == 'p',
        "notes"@.len() == 5,
        "purchase_date"@.len() == 13,
{
    reveal_strlit("brand_id");
    reveal_strlit("material_id");
    reveal_strlit("colour_id");
    reveal_strlit("nominal_weight_g");
    reveal_strlit("weight_mode");
    reveal_strlit("gross_weight_g");
    reveal_strlit("product_url");
    reveal_strlit("notes");
    reveal_strlit("purchase_date");
}

/// What a spool form holds after reading `pairs` in order, field by field:
/// each id is the last `brand_id` / `material_id` / `colour_id` entry, trimmed
/// and read as an `i64` (cleared where it is none); the weights' texts and
/// the weight mode are the last such entry, trimmed; notes and purchase date
/// are the last such entry that is not blank after trimming; product links
/// gain every non-blank `product_url` entry in order; a field without such an
/// entry keeps what it held, and pictures are untouched.
pub proof fn law_form_fields_from_pairs(v: SpoolFormView, pairs: Seq<(String, String)>)
    ensures
        accept_pairs_spec(v, pairs).brand_id == match last_entry(pairs, "brand_id"@) {
            Some(x) => parse_i64_spec(trim_spec(x)),
            None => v.brand_id,
        },
        accept_pairs_spec(v, pairs).material_id == match last_entry(pairs, "material_id"@) {
            Some(x) => parse_i64_spec(trim_spec(x)),
            None => v.material_id,
        },
        accept_pairs_spec(v, pairs).colour_id == match last_entry(pairs, "colour_id"@) {
            Some(x) => parse_i64_spec(trim_spec(x)),
            None => v.colour_id,
        },
        accept_pairs_spec(v, pairs).nominal_weight_text == match last_entry(
            pairs,
            "nominal_weight_g"@,
        ) {
            Some(x) => Some(trim_spec(x)),
            None => v.nominal_weight_text,
        },
        accept_pairs_spec(v, pairs).weight_mode == match last_entry(pairs, "weight_mode"@) {
            Some(x) => trim_spec(x),
            None => v.weight_mode,
        },
        accept_pairs_spec(v, pairs).gross_weight_text == match last_entry(
            pairs,
            "gross_weight_g"@,
        ) {
            Some(x) => Some(trim_spec(x)),
            None => v.gross_weight_text,
        },
        accept_pairs_spec(v, pairs).notes == match last_filled_entry(pairs, "notes"@) {
            Some(t) => Some(t),
            None => v.notes,
        },
        accept_pairs_spec(v, pairs).purchase_date == match last_filled_entry(
            pairs,
            "purchase_date"@,
        ) {
            Some(t) => Some(t),
            None => v.purchase_date,
        },
        accept_pairs_spec(v, pairs).product_urls == v.product_urls + product_links(pairs),
        accept_pairs_spec(v, pairs).images == v.images,
    decreases pairs.len(),
{
    if pairs.len() == 0 {
        assert(v.product_urls + product_links(pairs) =~= v.product_urls);
    } else {
        law_form_fields_from_pairs(v, pairs.drop_last());
        lemma_field_names();
        let w = accept_pairs_spec(v, pairs.drop_last());
        let t = trim_spec(pairs.last().1@);
        let links = product_links(pairs.drop_last());
        if pairs.last().0@ == "product_url"@ && t.len() > 0 {
            assert(w.product_urls.push(t) =~= v.product_urls + links.push(t));
        }
    }
}

} // verus!

use filament_tracker::images::{new_image_name, stored_image_name};
use filament_tracker::spools::{
    is_htmx_request, is_image_field, list_template, multipart_error_message, sort_column,
    spool_detail_sql, ListQuery, SpoolForm, SpoolFormError, WeightSource, SPOOL_LIST_BASE_QUERY,
};

fn s(v: &str) -> String {
    v.to_string()
}

#[test]
fn sort_column_whitelist() {
    assert_eq!(sort_column("brand"), "b.name");
    assert_eq!(sort_column("material"), "m.name");
    assert_eq!(sort_column("colour"), "c.name");
    assert_eq!(sort_column("remaining_g"), "remaining_g");
    assert_eq!(sort_column("percent"), "percent_remaining");
    assert_eq!(sort_column("purchase_date"), "s.purchase_date");
}

#[test]
fn sort_column_unknown_key_falls_back_to_brand() {
    assert_eq!(sort_column("id; DROP TABLE spools"), "b.name");
    assert_eq!(sort_column(""), "b.name");
    assert_eq!(sort_column("Brand"), "b.name");
}

#[test]
fn list_query_defaults() {
    let q = ListQuery::from_params(None, None, None, None, None);
    assert_eq!(q.brand, None);
    assert_eq!(q.sort, "brand");
    assert!(!q.descending);
    assert_eq!(q.dir_text(), "asc");
    assert!(q.bindings().is_empty());
    assert_eq!(q.sql(), format!("{SPOOL_LIST_BASE_QUERY} ORDER BY b.name ASC"));
}

#[test]
fn list_query_with_filters_and_sort() {
    let q = ListQuery::from_params(Some("3"), Some("x"), Some("5"), Some("percent"), Some("desc"));
    assert_eq!(q.brand, Some(3));
    assert_eq!(q.material, None);
    assert_eq!(q.colour, Some(5));
    assert!(q.descending);
    assert_eq!(q.dir_text(), "desc");
    assert_eq!(q.bindings(), vec![3, 5]);
    assert_eq!(
        q.sql(),
        format!(
            "{SPOOL_LIST_BASE_QUERY} WHERE s.brand_id = ? AND s.colour_id = ? ORDER BY percent_remaining DESC"
        )
    );
}

#[test]
fn list_query_direction_is_desc_only_for_desc() {
    for d in ["DESC", "asc", "", "descending"] {
        let q = ListQuery::from_params(None, None, None, None, Some(d));
        assert!(!q.descending, "{d:?}");
    }
}

#[test]
fn list_query_unknown_sort_never_reaches_sql() {
    let q = ListQuery::from_params(Some("1"), Some("2"), Some("3"), Some("1; --"), None);
    let sql = q.sql();
    assert!(sql.ends_with(" WHERE s.brand_id = ? AND s.material_id = ? AND s.colour_id = ? ORDER BY b.name ASC"));
    assert!(!sql.contains("--"));
    assert_eq!(sql[SPOOL_LIST_BASE_QUERY.len()..].matches('?').count(), q.bindings().len());
}

#[test]
fn detail_query() {
    assert_eq!(spool_detail_sql(), format!("{SPOOL_LIST_BASE_QUERY} WHERE s.id = ?"));
}

#[test]
fn htmx_header_and_template() {
    assert!(is_htmx_request(Some(b"true")));
    assert!(!is_htmx_request(Some(b"True")));
    assert!(!is_htmx_request(Some(b"")));
    assert!(!is_htmx_request(None));
    assert_eq!(list_template(true), "partials/spool_rows.html");
    assert_eq!(list_template(false), "spool_list.html");
}

#[test]
fn upload_error_messages() {
    assert_eq!(multipart_error_message(413), "Upload too large. Try fewer or smaller photos.");
    assert_eq!(multipart_error_message(400), "Could not process the upload.");
}

#[test]
fn new_spool_form_reads_fields() {
    let mut f = SpoolForm::new();
    assert!(!is_image_field("brand_id"));
    assert!(is_image_field("images"));
    f.accept_text("brand_id", " 4 ");
    f.accept_text("material_id", "2");
    f.accept_text("colour_id", "nope");
    f.accept_text("nominal_weight_g", " 750 ");
    f.accept_text("weight_mode", "opened");
    f.accept_text("gross_weight_g", "812.4");
    f.accept_text("product_url", " https://a.example ");
    f.accept_text("product_url", "   ");
    f.accept_text("product_url", "https://b.example");
    f.accept_text("notes", "");
    f.accept_text("purchase_date", "2024-05-01");
    f.accept_text("unknown", "ignored");
    f.accept_file(s("a.jpg"), vec![1, 2, 3]);
    f.accept_file(s(""), vec![1]);
    f.accept_file(s("b.png"), vec![]);
    assert_eq!(f.brand_id, Some(4));
    assert_eq!(f.material_id, Some(2));
    assert_eq!(f.colour_id, None);
    assert_eq!(f.nominal_weight_text.as_deref(), Some("750"));
    assert_eq!(f.weight_mode, "opened");
    assert_eq!(f.gross_weight_text.as_deref(), Some("812.4"));
    assert_eq!(f.product_urls, vec![s("https://a.example"), s("https://b.example")]);
    assert_eq!(f.notes, None);
    assert_eq!(f.purchase_date.as_deref(), Some("2024-05-01"));
    assert_eq!(f.images, vec![(s("a.jpg"), vec![1u8, 2, 3])]);
    assert_eq!(f.create_ids(), Err(SpoolFormError::MissingReference));
}

#[test]
fn later_field_overwrites_earlier() {
    let mut f = SpoolForm::new();
    f.accept_text("brand_id", "4");
    f.accept_text("brand_id", "x");
    f.accept_text("notes", "first");
    f.accept_text("notes", "  ");
    assert_eq!(f.brand_id, None);
    assert_eq!(f.notes.as_deref(), Some("first"));
}

#[test]
fn create_ids_and_weight_source() {
    let mut f = SpoolForm::new();
    f.accept_text("brand_id", "1");
    f.accept_text("material_id", "2");
    f.accept_text("colour_id", "3");
    assert_eq!(f.create_ids(), Ok((1, 2, 3)));
    assert_eq!(f.weight_source(false), Ok(WeightSource::TarePlusNominal));
    f.accept_text("weight_mode", " opened ");
    assert!(f.is_opened());
    assert_eq!(f.weight_source(true), Ok(WeightSource::Measured));
    assert_eq!(f.weight_source(false), Err(SpoolFormError::MissingGrossWeight));
    f.accept_text("weight_mode", "new");
    assert_eq!(f.weight_source(false), Ok(WeightSource::TarePlusNominal));
}

#[test]
fn edited_spool_form_from_pairs() {
    let pairs = vec![
        (s("brand_id"), s("7")),
        (s("material_id"), s("8")),
        (s("colour_id"), s("9")),
        (s("nominal_weight_g"), s("1000")),
        (s("product_url"), s("u1")),
        (s("notes"), s(" keep dry ")),
        (s("product_url"), s("u2")),
    ];
    let f = SpoolForm::from_pairs(&pairs);
    assert_eq!(f.update_ids(), Ok((7, 8, 9)));
    assert_eq!(f.product_urls, vec![s("u1"), s("u2")]);
    assert_eq!(f.notes.as_deref(), Some("keep dry"));
    assert_eq!(f.nominal_weight_text.as_deref(), Some("1000"));
}

#[test]
fn update_ids_report_the_first_missing() {
    let f = SpoolForm::from_pairs(&vec![(s("material_id"), s("1"))]);
    assert_eq!(f.update_ids(), Err(SpoolFormError::BrandRequired));
    let f = SpoolForm::from_pairs(&vec![(s("brand_id"), s("1")), (s("colour_id"), s("1"))]);
    assert_eq!(f.update_ids(), Err(SpoolFormError::MaterialRequired));
    let f = SpoolForm::from_pairs(&vec![(s("brand_id"), s("1")), (s("material_id"), s("1"))]);
    assert_eq!(f.update_ids(), Err(SpoolFormError::ColourRequired));
}

#[test]
fn spool_form_error_messages() {
    assert_eq!(SpoolFormError::MissingReference.message(), "Please select a brand, material, and colour.");
    assert_eq!(
        SpoolFormError::MissingGrossWeight.message(),
        "Please enter the current gross weight for an already-opened spool."
    );
    assert_eq!(SpoolFormError::BrandRequired.message(), "brand is required");
    assert_eq!(SpoolFormError::MaterialRequired.message(), "material is required");
    assert_eq!(SpoolFormError::ColourRequired.message(), "colour is required");
    assert_eq!(SpoolFormError::GrossWeightRequired.message(), "gross weight is required");
}

#[test]
fn stored_image_names() {
    assert_eq!(stored_image_name("u", Some("jpg")), "u.jpg");
    assert_eq!(stored_image_name("u", None), "u.bin");
}

fn looks_like_uuid_v4(t: &str) -> bool {
    let b: Vec<char> = t.chars().collect();
    b.len() == 36
        && b.iter().enumerate().all(|(i, c)| {
            if [8, 13, 18, 23].contains(&i) {
                *c == '-'
            } else {
                c.is_ascii_digit() || ('a'..='f').contains(c)
            }
        })
        && b[14] == '4'
        && "89ab".contains(b[19])
}

#[test]
fn new_image_names_keep_the_extension() {
    let n = new_image_name("photo.jpg");
    assert!(looks_like_uuid_v4(&n[..36]), "{n}");
    assert_eq!(&n[36..], ".jpg");
    let n = new_image_name("archive.tar.gz");
    assert_eq!(&n[36..], ".gz");
    let n = new_image_name("README");
    assert_eq!(&n[36..], ".bin");
    let n = new_image_name(".hidden");
    assert_eq!(&n[36..], ".bin");
    let n = new_image_name(".a.webp");
    assert_eq!(&n[36..], ".webp");
    let n = new_image_name("photo.");
    assert_eq!(&n[36..], ".");
    let n = new_image_name("..");
    assert_eq!(&n[36..], ".bin");
    let n = new_image_name("");
    assert_eq!(&n[36..], ".bin");
    assert_eq!(&new_image_name("photos/a.png")[36..], ".png");
    assert_eq!(&new_image_name("a.png/")[36..], ".png");
    assert_eq!(&new_image_name("dir.d/file")[36..], ".bin");
    assert_eq!(&new_image_name("a/..")[36..], ".bin");
    for name in [
        "IMG_0001.HEIC", "x.png", "a.b.c", ".", "a..b", "no_dot", "...", "photos/a.png",
        "a/b.tar.gz/", "foo.txt/.//", "a/.", "./", "./x.jpg", "/abs/p.JPG", "/", "a//b.c",
        ".config/x", "a/.hidden", "a/b/..",
    ] {
        let expected = std::path::Path::new(name).extension().and_then(|e| e.to_str()).unwrap_or("bin");
        assert_eq!(&new_image_name(name)[37..], expected, "{name:?}");
    }
    assert_ne!(new_image_name("a.png"), new_image_name("a.png"));
}

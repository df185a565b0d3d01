use filament_tracker::config::{Config, ConfigError};
use filament_tracker::reference::{
    delete_refusal, delete_sql, form_values, in_use_sql, insert_sql, is_number_column, lookup,
    select_all_sql, select_one_sql, update_sql, ColumnDef, FormValue, ReferenceConfig,
};

static MATERIAL_COLUMNS: &[ColumnDef] = &[
    ColumnDef { key: "name", label: "Name", input_type: "text", required: true },
    ColumnDef { key: "notes", label: "Notes", input_type: "text", required: false },
];

static MATERIALS: ReferenceConfig = ReferenceConfig {
    entity: "materials",
    table: "materials",
    singular: "Material",
    title: "Materials",
    columns: MATERIAL_COLUMNS,
    spool_fk_column: "material_id",
};

static BRAND_COLUMNS: &[ColumnDef] = &[
    ColumnDef { key: "name", label: "Name", input_type: "text", required: true },
    ColumnDef { key: "tare_weight_g", label: "Tare (g)", input_type: "number", required: true },
    ColumnDef { key: "notes", label: "Notes", input_type: "text", required: false },
];

static BRANDS: ReferenceConfig = ReferenceConfig {
    entity: "brands",
    table: "brands",
    singular: "Brand",
    title: "Brands",
    columns: BRAND_COLUMNS,
    spool_fk_column: "brand_id",
};

fn s(v: &str) -> String {
    v.to_string()
}

#[test]
fn config_reads_all_three_values() {
    let c = Config::from_env(Some(s("sqlite://db")), Some(s("/data/images")), Some(s("9000"))).unwrap();
    assert_eq!(c.database_url, "sqlite://db");
    assert_eq!(c.image_dir, "/data/images");
    assert_eq!(c.port, 9000);
}

#[test]
fn config_port_defaults_to_8080() {
    let c = Config::from_env(Some(s("db")), Some(s("img")), None).unwrap();
    assert_eq!(c.port, 8080);
}

#[test]
fn config_errors_in_order() {
    assert_eq!(Config::from_env(None, None, Some(s("x"))).unwrap_err(), ConfigError::MissingDatabaseUrl);
    assert_eq!(Config::from_env(Some(s("db")), None, Some(s("x"))).unwrap_err(), ConfigError::MissingImageDir);
    assert_eq!(Config::from_env(Some(s("db")), Some(s("i")), Some(s("x"))).unwrap_err(), ConfigError::InvalidPort);
    assert_eq!(Config::from_env(Some(s("db")), Some(s("i")), Some(s("70000"))).unwrap_err(), ConfigError::InvalidPort);
    assert_eq!(Config::from_env(Some(s("db")), Some(s("i")), Some(s(" 80"))).unwrap_err(), ConfigError::InvalidPort);
}

#[test]
fn config_error_messages() {
    assert_eq!(ConfigError::MissingDatabaseUrl.message(), "DATABASE_URL must be set");
    assert_eq!(ConfigError::MissingImageDir.message(), "IMAGE_DIR must be set");
    assert_eq!(ConfigError::InvalidPort.message(), "PORT must be a valid u16");
}

#[test]
fn reference_queries_for_materials() {
    assert_eq!(select_all_sql(&MATERIALS), "SELECT * FROM materials ORDER BY name");
    assert_eq!(select_one_sql(&MATERIALS), "SELECT * FROM materials WHERE id = ?");
    assert_eq!(insert_sql(&MATERIALS), "INSERT INTO materials (name, notes) VALUES (?, ?)");
    assert_eq!(update_sql(&MATERIALS), "UPDATE materials SET name = ?, notes = ? WHERE id = ?");
    assert_eq!(in_use_sql(&MATERIALS), "SELECT COUNT(*) FROM spools WHERE material_id = ?");
    assert_eq!(delete_sql(&MATERIALS), "DELETE FROM materials WHERE id = ?");
}

#[test]
fn reference_queries_for_brands() {
    assert_eq!(
        insert_sql(&BRANDS),
        "INSERT INTO brands (name, tare_weight_g, notes) VALUES (?, ?, ?)"
    );
    assert_eq!(
        update_sql(&BRANDS),
        "UPDATE brands SET name = ?, tare_weight_g = ?, notes = ? WHERE id = ?"
    );
}

#[test]
fn reference_placeholders_match_values() {
    let form = vec![(s("name"), s("X"))];
    for config in [&MATERIALS, &BRANDS] {
        let values = form_values(config, &form);
        assert_eq!(insert_sql(config).matches('?').count(), values.len());
        assert_eq!(update_sql(config).matches('?').count(), values.len() + 1);
    }
}

#[test]
fn delete_is_refused_while_spools_use_the_row() {
    assert_eq!(delete_refusal(&MATERIALS, 0), None);
    assert_eq!(delete_refusal(&MATERIALS, -1), None);
    assert_eq!(
        delete_refusal(&MATERIALS, 3).as_deref(),
        Some("Cannot delete: 3 spool(s) still reference this Material.")
    );
    assert_eq!(
        delete_refusal(&BRANDS, 1).as_deref(),
        Some("Cannot delete: 1 spool(s) still reference this Brand.")
    );
}

#[test]
fn delete_goes_ahead_only_without_references() {
    let spools_refer_to = [1i64, 2, 2];
    for id in [1i64, 2, 3] {
        let in_use = spools_refer_to.iter().filter(|r| **r == id).count() as i64;
        let refusal = delete_refusal(&BRANDS, in_use);
        assert_eq!(refusal.is_none(), !spools_refer_to.contains(&id), "{id}");
    }
}

#[test]
fn number_columns_are_recognised() {
    assert!(!is_number_column(&BRAND_COLUMNS[0]));
    assert!(is_number_column(&BRAND_COLUMNS[1]));
    assert!(!is_number_column(&BRAND_COLUMNS[2]));
}

#[test]
fn lookup_finds_the_entry() {
    let form = vec![(s("a"), s("1")), (s("b"), s("2")), (s("a"), s("3"))];
    assert_eq!(lookup(&form, "b").map(|v| v.as_str()), Some("2"));
    assert_eq!(lookup(&form, "a").map(|v| v.as_str()), Some("3"));
    assert_eq!(lookup(&form, "c"), None);
}

#[test]
fn form_values_trim_and_classify() {
    let form = vec![
        (s("notes"), s("   ")),
        (s("name"), s("  Prusament ")),
        (s("tare_weight_g"), s(" 201.5 ")),
    ];
    let values = form_values(&BRANDS, &form);
    assert_eq!(values.len(), 3);
    assert!(matches!(&values[0], FormValue::Text(t) if t == "Prusament"));
    assert!(matches!(&values[1], FormValue::Number(t) if t == "201.5"));
    assert!(matches!(&values[2], FormValue::OptionalText(None)));
}

#[test]
fn form_values_for_missing_entries() {
    let values = form_values(&MATERIALS, &vec![(s("notes"), s(" dry before use "))]);
    assert!(matches!(&values[0], FormValue::Text(t) if t.is_empty()));
    assert!(matches!(&values[1], FormValue::OptionalText(Some(t)) if t == "dry before use"));
}

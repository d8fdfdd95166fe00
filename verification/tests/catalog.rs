use wallpaper_desktop::catalog::{
    catalog_filter, order_clause, page_total, page_window, plan_catalog_search, where_clause,
    SqlValue,
};
use wallpaper_desktop::error::AppError;
use wallpaper_desktop::models::CatalogQuery;

const KEYWORD_CLAUSE_1: &str = "(wallpaper.name LIKE ?1 COLLATE NOCASE OR wallpaper.provider LIKE ?1 COLLATE NOCASE OR wallpaper.category LIKE ?1 COLLATE NOCASE OR EXISTS (SELECT 1 FROM wallpaper_tag wt JOIN tag t ON t.id = wt.tag_id WHERE wt.wallpaper_id = wallpaper.id AND t.name LIKE ?1 COLLATE NOCASE))";

fn text(value: &SqlValue) -> Option<&str> {
    match value {
        SqlValue::Text(t) => Some(t.as_str()),
        SqlValue::Integer(_) => None,
    }
}

fn integer(value: &SqlValue) -> Option<i64> {
    match value {
        SqlValue::Integer(n) => Some(*n),
        SqlValue::Text(_) => None,
    }
}

#[test]
fn default_query_filters_only_blacklisted_items() {
    let filter = catalog_filter(&CatalogQuery::default());
    assert_eq!(filter.predicates, vec!["wallpaper.blacklisted = 0".to_string()]);
    assert!(filter.values.is_empty());
    assert_eq!(where_clause(&filter), "wallpaper.blacklisted = 0");

    let mut all = CatalogQuery::default();
    all.include_blacklisted = true;
    assert_eq!(catalog_filter(&all).predicates, vec!["1 = 1".to_string()]);
}

#[test]
fn combined_filters_number_their_parameters_in_order() {
    let query = CatalogQuery {
        keyword: Some("  sunset ".into()),
        name: Some("   ".into()),
        category: Some("Nature".into()),
        provider: Some("ALL".into()),
        file_availability: Some("remote".into()),
        favorite: Some(true),
        min_width: Some(3840),
        min_height: Some(0),
        tags: vec![" sea ".into(), "".into()],
        ..Default::default()
    };
    let filter = catalog_filter(&query);
    assert_eq!(
        filter.predicates,
        vec![
            "wallpaper.blacklisted = 0".to_string(),
            KEYWORD_CLAUSE_1.to_string(),
            "wallpaper.category = ?2 COLLATE NOCASE".to_string(),
            "NOT EXISTS (SELECT 1 FROM wallpaper_file_state AS state WHERE state.wallpaper_id = wallpaper.id)".to_string(),
            "wallpaper.favorite = ?3".to_string(),
            "wallpaper.width >= ?4".to_string(),
            "EXISTS (SELECT 1 FROM wallpaper_tag AS wt JOIN tag AS filter_tag ON filter_tag.id = wt.tag_id WHERE wt.wallpaper_id = wallpaper.id AND filter_tag.name = ?5 COLLATE NOCASE)".to_string(),
        ]
    );
    assert_eq!(filter.values.len(), 5);
    assert_eq!(text(&filter.values[0]), Some("%sunset%"));
    assert_eq!(text(&filter.values[1]), Some("Nature"));
    assert_eq!(integer(&filter.values[2]), Some(1));
    assert_eq!(integer(&filter.values[3]), Some(3840));
    assert_eq!(text(&filter.values[4]), Some("sea"));
}

#[test]
fn availability_and_storage_filters_bind_values_except_for_remote_records() {
    let query = CatalogQuery {
        file_availability: Some("missing".into()),
        storage_kind: Some("user_source".into()),
        collection_id: Some(7),
        ..Default::default()
    };
    let filter = catalog_filter(&query);
    assert_eq!(
        filter.predicates[1],
        "EXISTS (SELECT 1 FROM wallpaper_file_state AS state WHERE state.wallpaper_id = wallpaper.id AND state.availability = ?1)"
    );
    assert_eq!(
        filter.predicates[2],
        "EXISTS (SELECT 1 FROM wallpaper_file_state AS state WHERE state.wallpaper_id = wallpaper.id AND state.storage_kind = ?2)"
    );
    assert_eq!(
        filter.predicates[3],
        "EXISTS (SELECT 1 FROM collection_wallpaper AS member WHERE member.wallpaper_id = wallpaper.id AND member.collection_id = ?3)"
    );
    assert_eq!(text(&filter.values[0]), Some("missing"));
    assert_eq!(text(&filter.values[1]), Some("user_source"));
    assert_eq!(integer(&filter.values[2]), Some(7));

    let remote = CatalogQuery {
        storage_kind: Some("remote_metadata".into()),
        collection_id: Some(0),
        locally_available: true,
        ..Default::default()
    };
    let filter = catalog_filter(&remote);
    assert_eq!(filter.predicates.len(), 3);
    assert_eq!(
        filter.predicates[1],
        "EXISTS (SELECT 1 FROM wallpaper_file_state AS state WHERE state.wallpaper_id = wallpaper.id AND state.availability = 'available')"
    );
    assert_eq!(
        filter.predicates[2],
        "NOT EXISTS (SELECT 1 FROM wallpaper_file_state AS state WHERE state.wallpaper_id = wallpaper.id)"
    );
    assert!(filter.values.is_empty());
}

#[test]
fn sort_names_choose_their_order_and_fall_back_to_recent_sync() {
    assert_eq!(order_clause(Some("random")), "RANDOM()");
    assert_eq!(order_clause(Some("name")), "wallpaper.name COLLATE NOCASE ASC, wallpaper.id ASC");
    assert_eq!(order_clause(Some("recently_used")), "wallpaper.last_used_at DESC, wallpaper.id DESC");
    assert_eq!(order_clause(Some("file_size")), "wallpaper.file_size DESC, wallpaper.id DESC");
    assert_eq!(order_clause(Some("Name")), "wallpaper.synced_at DESC, wallpaper.id DESC");
    assert_eq!(order_clause(None), "wallpaper.synced_at DESC, wallpaper.id DESC");
}

#[test]
fn page_window_clamps_page_and_size() {
    let w = page_window(0, 0);
    assert_eq!((w.page, w.page_size, w.offset), (1, 1, 0));
    let w = page_window(3, 500);
    assert_eq!((w.page, w.page_size, w.offset), (3, 100, 200));
    let w = page_window(4, 24);
    assert_eq!((w.page, w.page_size, w.offset), (4, 24, 72));
}

#[test]
fn plan_counts_then_pages_with_limit_and_offset_after_the_filter_values() {
    let query = CatalogQuery {
        provider: Some("wallhaven".into()),
        sort: Some("name".into()),
        page: 2,
        page_size: 30,
        ..Default::default()
    };
    let plan = plan_catalog_search(&query);
    let filter = "wallpaper.blacklisted = 0 AND wallpaper.provider = ?1 COLLATE NOCASE";
    assert_eq!(plan.count_sql, format!("SELECT COUNT(*) FROM wallpaper WHERE {filter}"));
    assert!(plan.page_sql.starts_with("SELECT id, provider, remote_id, name,"));
    assert!(plan.page_sql.ends_with(&format!(
        " FROM wallpaper WHERE {filter} ORDER BY wallpaper.name COLLATE NOCASE ASC, wallpaper.id ASC LIMIT ?2 OFFSET ?3"
    )));
    assert_eq!(plan.count_values.len(), 1);
    assert_eq!(text(&plan.count_values[0]), Some("wallhaven"));
    assert_eq!(plan.page_values.len(), 3);
    assert_eq!(integer(&plan.page_values[1]), Some(30));
    assert_eq!(integer(&plan.page_values[2]), Some(30));
    assert_eq!((plan.window.page, plan.window.page_size), (2, 30));
}

#[test]
fn negative_counts_are_database_errors() {
    assert_eq!(page_total(12).expect("count"), 12);
    match page_total(-1) {
        Err(AppError::Database(message)) => assert_eq!(message, "wallpaper count was negative"),
        _ => panic!("a negative count must be rejected"),
    }
}

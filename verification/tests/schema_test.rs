use musictui2::schema::{schema_steps, SchemaStep};

fn names(list: &[&str]) -> Vec<String> {
    list.iter().map(|s| s.to_string()).collect()
}

fn added(steps: &[SchemaStep]) -> Vec<(&'static str, &'static str)> {
    steps
        .iter()
        .filter_map(|step| match step {
            SchemaStep::AddColumn { table, column, .. } => Some((*table, *column)),
            SchemaStep::BackfillDiscoveredAt => None,
        })
        .collect()
}

#[test]
fn an_up_to_date_database_needs_no_step() {
    let repos = names(&[
        "id", "owner", "name", "url", "source_type", "cache_enabled", "username", "password",
        "added_at", "last_scanned", "track_count", "tree_etag",
    ]);
    let tracks = names(&["id", "repository_id", "path", "discovered_at", "favorite", "blacklisted"]);
    assert!(schema_steps(&repos, &tracks, 0).is_empty());
    assert_eq!(schema_steps(&repos, &tracks, 3), vec![SchemaStep::BackfillDiscoveredAt]);
}

#[test]
fn a_legacy_database_gains_every_missing_column_in_order() {
    let repos = names(&["id", "owner", "name", "url", "added_at", "last_scanned"]);
    let tracks = names(&["id", "repository_id", "path"]);
    let steps = schema_steps(&repos, &tracks, 2);
    assert_eq!(
        added(&steps),
        vec![
            ("repositories", "track_count"),
            ("repositories", "source_type"),
            ("repositories", "cache_enabled"),
            ("repositories", "username"),
            ("repositories", "password"),
            ("repositories", "tree_etag"),
            ("tracks", "discovered_at"),
            ("tracks", "favorite"),
            ("tracks", "blacklisted"),
        ]
    );
    assert_eq!(steps.last(), Some(&SchemaStep::BackfillDiscoveredAt));
    assert_eq!(steps.len(), 10);
    match steps[1] {
        SchemaStep::AddColumn { statement, .. } => assert_eq!(
            statement,
            "ALTER TABLE repositories ADD COLUMN source_type TEXT NOT NULL DEFAULT 'github'"
        ),
        _ => panic!("expected a column"),
    }
}

#[test]
fn only_the_absent_columns_are_added() {
    let repos = names(&["track_count", "source_type", "cache_enabled", "username", "password"]);
    let tracks = names(&["discovered_at", "favorite"]);
    assert_eq!(
        added(&schema_steps(&repos, &tracks, 0)),
        vec![("repositories", "tree_etag"), ("tracks", "blacklisted")]
    );
}

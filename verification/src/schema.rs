//! The database's schema migrations: which columns an older database lacks
//! and must gain, in a fixed order, and whether tracks without a discovery
//! time need one. The caller reads the tables and runs the statements.

use vstd::prelude::*;

use crate::text::str_equal;

verus! {

/// One step of bringing a database's schema up to date.
#[derive(Debug, Clone, Copy, PartialEq, Eq)]
pub enum SchemaStep {
    /// Add `column` to `table` with the `ALTER TABLE` statement given.
    AddColumn { table: &'static str, column: &'static str, statement: &'static str },
    /// Give every track without a discovery time the current time.
    BackfillDiscoveredAt,
}

/// A step as plain values: the table, column and statement of an added
/// column; none for the backfill.
pub open spec fn step_view(step: SchemaStep) -> Option<(Seq<char>, Seq<char>, Seq<char>)> {
    match step {
        SchemaStep::AddColumn { table, column, statement } => Some((table@, column@, statement@)),
        SchemaStep::BackfillDiscoveredAt => None,
    }
}

/// The columns later versions added, in the order they are migrated: each
/// with its table and the statement that adds it.
pub open spec fn column_migrations() -> Seq<(Seq<char>, Seq<char>, Seq<char>)> {
    seq![
        ("repositories"@, "track_count"@, "ALTER TABLE repositories ADD COLUMN track_count INTEGER DEFAULT 0"@),
        ("repositories"@, "source_type"@, "ALTER TABLE repositories ADD COLUMN source_type TEXT NOT NULL DEFAULT 'github'"@),
        ("repositories"@, "cache_enabled"@, "ALTER TABLE repositories ADD COLUMN cache_enabled BOOLEAN DEFAULT TRUE"@),
        ("repositories"@, "username"@, "ALTER TABLE repositories ADD COLUMN username TEXT"@),
        ("repositories"@, "password"@, "ALTER TABLE repositories ADD COLUMN password TEXT"@),
        ("repositories"@, "tree_etag"@, "ALTER TABLE repositories ADD COLUMN tree_etag TEXT"@),
        ("tracks"@, "discovered_at"@, "ALTER TABLE tracks ADD COLUMN discovered_at DATETIME"@),
        ("tracks"@, "favorite"@, "ALTER TABLE tracks ADD COLUMN favorite BOOLEAN DEFAULT FALSE"@),
        ("tracks"@, "blacklisted"@, "ALTER TABLE tracks ADD COLUMN blacklisted BOOLEAN DEFAULT FALSE"@),
    ]
}

/// Whether the table a migration is for already has its column.
pub open spec fn column_present(
    m: (Seq<char>, Seq<char>, Seq<char>),
    repository_columns: Seq<Seq<char>>,
    track_columns: Seq<Seq<char>>,
) -> bool {
    if m.0 == "repositories"@ {
        repository_columns.contains(m.1)
    } else {
        track_columns.contains(m.1)
    }
}

/// The column migrations among the first `k` that are still needed, in
/// order.
pub open spec fn needed_columns(
    repository_columns: Seq<Seq<char>>,
    track_columns: Seq<Seq<char>>,
    k: int,
) -> Seq<(Seq<char>, Seq<char>, Seq<char>)>
    decreases k,
{
    if k <= 0 {
        Seq::empty()
    } else {
        let m = column_migrations()[k - 1];
        needed_columns(repository_columns, track_columns, k - 1) + if column_present(
            m,
            repository_columns,
            track_columns,
        ) {
            Seq::empty()
        } else {
            seq![m]
        }
    }
}

/// The steps that bring a database up to date: each missing column's
/// migration, in the fixed order, then the backfill where some track has
/// no discovery time.
pub open spec fn schema_plan(
    repository_columns: Seq<Seq<char>>,
    track_columns: Seq<Seq<char>>,
    missing_discovered_at: u64,
) -> Seq<Option<(Seq<char>, Seq<char>, Seq<char>)>> {
    needed_columns(repository_columns, track_columns, 9).map_values(
        |m: (Seq<char>, Seq<char>, Seq<char>)| Some(m),
    ) + if missing_discovered_at > 0 {
        seq![None]
    } else {
        Seq::empty()
    }
}

/// The column migrations, in order.
fn migration_list() -> (v: Vec<(&'static str, &'static str, &'static str)>)
    ensures
        v@.map_values(|m: (&'static str, &'static str, &'static str)| (m.0@, m.1@, m.2@))
            == column_migrations(),
{
    let mut v: Vec<(&'static str, &'static str, &'static str)> = Vec::new();
    v.push(("repositories", "track_count", "ALTER TABLE repositories ADD COLUMN track_count INTEGER DEFAULT 0"));
    v.push(("repositories", "source_type", "ALTER TABLE repositories ADD COLUMN source_type TEXT NOT NULL DEFAULT 'github'"));
    v.push(("repositories", "cache_enabled", "ALTER TABLE repositories ADD COLUMN cache_enabled BOOLEAN DEFAULT TRUE"));
    v.push(("repositories", "username", "ALTER TABLE repositories ADD COLUMN username TEXT"));
    v.push(("repositories", "password", "ALTER TABLE repositories ADD COLUMN password TEXT"));
    v.push(("repositories", "tree_etag", "ALTER TABLE repositories ADD COLUMN tree_etag TEXT"));
    v.push(("tracks", "discovered_at", "ALTER TABLE tracks ADD COLUMN discovered_at DATETIME"));
    v.push(("tracks", "favorite", "ALTER TABLE tracks ADD COLUMN favorite BOOLEAN DEFAULT FALSE"));
    v.push(("tracks", "blacklisted", "ALTER TABLE tracks ADD COLUMN blacklisted BOOLEAN DEFAULT FALSE"));
    assert(v@.map_values(|m: (&'static str, &'static str, &'static str)| (m.0@, m.1@, m.2@))
        =~= column_migrations());
    v
}

/// Whether `columns` names `column`.
fn has_column(columns: &Vec<String>, column: &str) -> (b: bool)
    ensures
        b == columns.deep_view().contains(column@),
{
    let mut i: usize = 0;
    while i < columns.len()
        invariant
            i <= columns@.len(),
            forall|j: int| 0 <= j < i ==> columns.deep_view()[j] != column@,
        decreases columns@.len() - i,
    {
        assert(columns.deep_view()[i as int] == columns@[i as int]@);
        if str_equal(columns[i].as_str(), column) {
            assert(columns.deep_view()[i as int] == column@);
            return true;
        }
        i = i + 1;
    }
    proof {
        if columns.deep_view().contains(column@) {
            let j = choose|j: int| 0 <= j < columns.deep_view().len() && columns.deep_view()[j] == column@;
            assert(columns.deep_view()[j] != column@);
        }
    }
    false
}

/// The migration steps for a database whose `repositories` table has
/// `repository_columns` and whose `tracks` table has `track_columns`, with
/// `missing_discovered_at` tracks lacking a discovery time once the
/// columns are in place: each listed column's migration exactly where that
/// column is absent, in the fixed order, then the backfill exactly where
/// some track lacks a discovery time.
pub fn schema_steps(
    repository_columns: &Vec<String>,
    track_columns: &Vec<String>,
    missing_discovered_at: u64,
) -> (steps: Vec<SchemaStep>)
    ensures
        steps@.map_values(|s: SchemaStep| step_view(s)) == schema_plan(
            repository_columns.deep_view(),
            track_columns.deep_view(),
            missing_discovered_at,
        ),
{
    let migrations = migration_list();
    let ghost ms = migrations@.map_values(
        |m: (&'static str, &'static str, &'static str)| (m.0@, m.1@, m.2@),
    );
    let ghost repo = repository_columns.deep_view();
    let ghost trk = track_columns.deep_view();
    let mut steps: Vec<SchemaStep> = Vec::new();
    let mut k: usize = 0;
    assert(column_migrations().len() == 9);
    assert(ms.len() == migrations@.len());
    assert(steps@.map_values(|s: SchemaStep| step_view(s)) =~= needed_columns(repo, trk, 0).map_values(
        |m: (Seq<char>, Seq<char>, Seq<char>)| Some(m),
    ));
    while k < migrations.len()
        invariant
            k <= migrations@.len(),
            migrations@.len() == 9,
            ms == column_migrations(),
            ms == migrations@.map_values(
                |m: (&'static str, &'static str, &'static str)| (m.0@, m.1@, m.2@),
            ),
            repo == repository_columns.deep_view(),
            trk == track_columns.deep_view(),
            steps@.map_values(|s: SchemaStep| step_view(s)) == needed_columns(repo, trk, k as int).map_values(
                |m: (Seq<char>, Seq<char>, Seq<char>)| Some(m),
            ),
        decreases migrations@.len() - k,
    {
        let (table, column, statement) = migrations[k];
        assert(ms[k as int] == (table@, column@, statement@));
        let present = if str_equal(table, "repositories") {
            has_column(repository_columns, column)
        } else {
            has_column(track_columns, column)
        };
        assert(present == column_present(ms[k as int], repo, trk));
        let ghost before = steps@;
        let ghost m = column_migrations()[k as int];
        let ghost prev = needed_columns(repo, trk, k as int);
        assert(needed_columns(repo, trk, k as int + 1) == prev + if present {
            Seq::<(Seq<char>, Seq<char>, Seq<char>)>::empty()
        } else {
            seq![m]
        });
        if !present {
            let step = SchemaStep::AddColumn { table, column, statement };
            assert(step_view(step) == Some(m));
            steps.push(step);
            assert(steps@ == before.push(step));
        }
        proof {
            let next = needed_columns(repo, trk, k as int + 1);
            assert(before.map_values(|s: SchemaStep| step_view(s)) == prev.map_values(
                |m: (Seq<char>, Seq<char>, Seq<char>)| Some(m),
            ));
            assert(before.map_values(|s: SchemaStep| step_view(s)).len() == before.len());
            assert(prev.map_values(|m: (Seq<char>, Seq<char>, Seq<char>)| Some(m)).len() == prev.len());
            assert(before.len() == prev.len());
            assert(steps@.len() == next.len());
            assert forall|i: int| 0 <= i < steps@.len() implies step_view(#[trigger] steps@[i]) == Some(
                next[i],
            ) by {
                if i < before.len() {
                    assert(steps@[i] == before[i]);
                    assert(before.map_values(|s: SchemaStep| step_view(s))[i] == step_view(before[i]));
                    assert(prev.map_values(|m: (Seq<char>, Seq<char>, Seq<char>)| Some(m))[i] == Some(prev[i]));
                    assert(next[i] == prev[i]);
                }
            }
        }
        assert(steps@.map_values(|s: SchemaStep| step_view(s)) =~= needed_columns(
            repo,
            trk,
            k as int + 1,
        ).map_values(|m: (Seq<char>, Seq<char>, Seq<char>)| Some(m)));
        k = k + 1;
    }
    let ghost cols = steps@;
    if missing_discovered_at > 0 {
        steps.push(SchemaStep::BackfillDiscoveredAt);
    }
    assert(steps@.map_values(|s: SchemaStep| step_view(s)) =~= schema_plan(
        repo,
        trk,
        missing_discovered_at,
    ));
    steps
}

} // verus!

//! Bringing a store of any age to the present tables: what is missing is added,
//! and what is there stays.
use vstd::prelude::*;
use crate::schema::literal;
use crate::sql::SqlView;
use crate::text::{holds_text, views};

verus! {

/// The version of the tables.
pub const SCHEMA_VERSION: i32 = 1;

/// A column that a table must have.
#[derive(Debug, Clone)]
pub struct Column {
    pub name: &'static str,
    pub definition: String,
}

/// The columns that old `sessions` tables may lack, in the order in which they are added.
pub open spec fn session_columns() -> Seq<(Seq<char>, Seq<char>)> {
    seq![
        ("message_count"@, "INTEGER DEFAULT 0"@),
        ("last_message_at"@, "INTEGER"@),
        ("cwd"@, "TEXT"@),
        ("model"@, "TEXT"@),
        ("channel"@, "TEXT"@),
        ("file_mtime"@, "INTEGER"@),
        ("file_size"@, "INTEGER"@),
        ("file_offset"@, "INTEGER DEFAULT 0"@),
        ("file_inode"@, "INTEGER"@),
        ("encoded_dir_name"@, "TEXT"@),
        ("meta"@, "TEXT"@),
        ("created_at"@, "INTEGER DEFAULT (strftime('%s','now')*1000)"@),
        ("updated_at"@, "INTEGER DEFAULT (strftime('%s','now')*1000)"@),
        ("session_type"@, "TEXT"@),
        ("source"@, "TEXT"@),
    ]
}

/// The columns that old `messages` tables may lack, in the order in which they are added, where
/// `source` is the tool that messages belong to that do not say it.
pub open spec fn message_columns(source: Seq<char>) -> Seq<(Seq<char>, Seq<char>)> {
    seq![
        ("source"@, "TEXT DEFAULT "@ + literal(source)),
        ("channel"@, "TEXT"@),
        ("model"@, "TEXT"@),
        ("tool_call_id"@, "TEXT"@),
        ("tool_name"@, "TEXT"@),
        ("tool_args"@, "TEXT"@),
        ("raw"@, "TEXT"@),
        ("vector_indexed"@, "INTEGER DEFAULT 0"@),
        ("approval_status"@, "TEXT"@),
        ("approval_resolved_at"@, "INTEGER"@),
    ]
}

/// What the columns say.
pub open spec fn column_views(v: Seq<Column>) -> Seq<(Seq<char>, Seq<char>)> {
    v.map_values(|c: Column| (c.name@, c.definition@))
}

/// The statement that adds a column.
pub open spec fn add_column(table: Seq<char>, column: (Seq<char>, Seq<char>)) -> Seq<char> {
    "ALTER TABLE "@ + table + " ADD COLUMN "@ + column.0 + " "@ + column.1
}

/// The statements that add the columns that a table lacks. A table that is not there lacks none:
/// it is created with all of them.
pub open spec fn missing_columns(
    table: Seq<char>,
    exists_already: bool,
    present: Seq<Seq<char>>,
    wanted: Seq<(Seq<char>, Seq<char>)>,
) -> Seq<Seq<char>>
    decreases wanted.len(),
{
    if wanted.len() == 0 {
        seq![]
    } else {
        let p = missing_columns(table, exists_already, present, wanted.drop_last());
        if exists_already && !present.contains(wanted.last().0) {
            p.push(add_column(table, wanted.last()))
        } else {
            p
        }
    }
}

/// The statement that adds a column, where the table is there and lacks it.
pub fn ensure_column(
    table: &str,
    table_exists: bool,
    present: &Vec<String>,
    column: &str,
    definition: &str,
) -> (r: Option<String>)
    ensures
        match r {
            Some(sql) => table_exists && !views(present@).contains(column@) && sql@ == add_column(
                table@,
                (column@, definition@),
            ),
            None => !table_exists || views(present@).contains(column@),
        },
{
    if !table_exists || holds_text(present, column) {
        return None;
    }
    let mut sql = "ALTER TABLE ".to_owned();
    sql.push_str(table);
    sql.push_str(" ADD COLUMN ");
    sql.push_str(column);
    sql.push_str(" ");
    sql.push_str(definition);
    Some(sql)
}

fn ensure_columns(
    table: &str,
    table_exists: bool,
    present: &Vec<String>,
    wanted: &Vec<Column>,
) -> (r: Vec<String>)
    ensures
        views(r@) == missing_columns(
            table@,
            table_exists,
            views(present@),
            column_views(wanted@),
        ),
{
    let ghost columns = column_views(wanted@);
    let mut r: Vec<String> = Vec::new();
    let mut i: usize = 0;
    assert(columns.take(0) =~= Seq::<(Seq<char>, Seq<char>)>::empty());
    assert(views(r@) =~= Seq::<Seq<char>>::empty());
    while i < wanted.len()
        invariant
            i <= wanted@.len(),
            columns == column_views(wanted@),
            views(r@) == missing_columns(
                table@,
                table_exists,
                views(present@),
                columns.take(i as int),
            ),
        decreases wanted@.len() - i,
    {
        assert(columns.take(i + 1).drop_last() =~= columns.take(i as int));
        assert(columns[i as int] == (wanted@[i as int].name@, wanted@[i as int].definition@));
        match ensure_column(table, table_exists, present, wanted[i].name, wanted[i].definition.as_str()) {
            Some(sql) => {
                let ghost before = r@;
                let ghost s = sql@;
                r.push(sql);
                assert(views(r@) =~= views(before).push(s));
            },
            None => {},
        }
        i += 1;
    }
    assert(columns.take(columns.len() as int) =~= columns);
    r
}

/// The statements that add the columns that the `sessions` table lacks.
pub fn ensure_sessions_columns(table_exists: bool, present: &Vec<String>) -> (r: Vec<String>)
    ensures
        views(r@) == missing_columns(
            "sessions"@,
            table_exists,
            views(present@),
            session_columns(),
        ),
{
    let wanted: Vec<Column> = vec![
        Column { name: "message_count", definition: "INTEGER DEFAULT 0".to_owned() },
        Column { name: "last_message_at", definition: "INTEGER".to_owned() },
        Column { name: "cwd", definition: "TEXT".to_owned() },
        Column { name: "model", definition: "TEXT".to_owned() },
        Column { name: "channel", definition: "TEXT".to_owned() },
        Column { name: "file_mtime", definition: "INTEGER".to_owned() },
        Column { name: "file_size", definition: "INTEGER".to_owned() },
        Column { name: "file_offset", definition: "INTEGER DEFAULT 0".to_owned() },
        Column { name: "file_inode", definition: "INTEGER".to_owned() },
        Column { name: "encoded_dir_name", definition: "TEXT".to_owned() },
        Column { name: "meta", definition: "TEXT".to_owned() },
        Column { name: "created_at", definition: "INTEGER DEFAULT (strftime('%s','now')*1000)".to_owned() },
        Column { name: "updated_at", definition: "INTEGER DEFAULT (strftime('%s','now')*1000)".to_owned() },
        Column { name: "session_type", definition: "TEXT".to_owned() },
        Column { name: "source", definition: "TEXT".to_owned() },
    ];
    assert(column_views(wanted@) =~= session_columns());
    ensure_columns("sessions", table_exists, present, &wanted)
}

/// The statements that add the columns that the `messages` table lacks.
pub fn ensure_messages_columns(table_exists: bool, present: &Vec<String>, source: &str) -> (r: Vec<
    String,
>)
    requires
        !source@.contains('\''),
    ensures
        views(r@) == missing_columns(
            "messages"@,
            table_exists,
            views(present@),
            message_columns(source@),
        ),
{
    let mut granted = "TEXT DEFAULT '".to_owned();
    granted.push_str(source);
    granted.push_str("'");
    proof {
        reveal_strlit("TEXT DEFAULT '");
        reveal_strlit("TEXT DEFAULT ");
        reveal_strlit("'");
        assert(granted@ =~= "TEXT DEFAULT "@ + literal(source@));
    }
    let wanted: Vec<Column> = vec![
        Column { name: "source", definition: granted },
        Column { name: "channel", definition: "TEXT".to_owned() },
        Column { name: "model", definition: "TEXT".to_owned() },
        Column { name: "tool_call_id", definition: "TEXT".to_owned() },
        Column { name: "tool_name", definition: "TEXT".to_owned() },
        Column { name: "tool_args", definition: "TEXT".to_owned() },
        Column { name: "raw", definition: "TEXT".to_owned() },
        Column { name: "vector_indexed", definition: "INTEGER DEFAULT 0".to_owned() },
        Column { name: "approval_status", definition: "TEXT".to_owned() },
        Column { name: "approval_resolved_at", definition: "INTEGER".to_owned() },
    ];
    assert(column_views(wanted@) =~= message_columns(source@));
    ensure_columns("messages", table_exists, present, &wanted)
}

/// The version that is written to the store, where its own is older.
pub fn version_update(current: i32) -> (r: Option<i32>)
    ensures
        r == if current < SCHEMA_VERSION {
            Some(SCHEMA_VERSION)
        } else {
            None
        },
{
    if current < SCHEMA_VERSION {
        Some(SCHEMA_VERSION)
    } else {
        None
    }
}

/// The statement that removes the table of an older way of migrating, where it is there.
pub fn cleanup_old_migration_system(table_exists: bool) -> (r: Option<&'static str>)
    ensures
        match r {
            Some(sql) => table_exists && sql@ == "DROP TABLE schema_migrations"@,
            None => !table_exists,
        },
{
    if table_exists {
        Some("DROP TABLE schema_migrations")
    } else {
        None
    }
}

/// The names of the columns that are added.
pub open spec fn added_columns(
    exists_already: bool,
    present: Seq<Seq<char>>,
    wanted: Seq<(Seq<char>, Seq<char>)>,
) -> Seq<Seq<char>>
    decreases wanted.len(),
{
    if wanted.len() == 0 {
        seq![]
    } else {
        let p = added_columns(exists_already, present, wanted.drop_last());
        if exists_already && !present.contains(wanted.last().0) {
            p.push(wanted.last().0)
        } else {
            p
        }
    }
}

proof fn lemma_wanted_is_there(
    present: Seq<Seq<char>>,
    wanted: Seq<(Seq<char>, Seq<char>)>,
    i: int,
)
    requires
        0 <= i < wanted.len(),
    ensures
        (present + added_columns(true, present, wanted)).contains(wanted[i].0),
    decreases wanted.len(),
{
    let all = present + added_columns(true, present, wanted);
    let name = wanted[i].0;
    if present.contains(name) {
        let k = choose|k: int| 0 <= k < present.len() && present[k] == name;
        assert(all[k] == name);
    } else if i == wanted.len() - 1 {
        assert(all[all.len() - 1] == name);
    } else {
        let d = wanted.drop_last();
        lemma_wanted_is_there(present, d, i);
        let before = present + added_columns(true, present, d);
        let k = choose|k: int| 0 <= k < before.len() && before[k] == name;
        assert(all[k] == name);
    }
}

proof fn lemma_nothing_missing(
    table: Seq<char>,
    present: Seq<Seq<char>>,
    wanted: Seq<(Seq<char>, Seq<char>)>,
)
    requires
        forall|i: int| 0 <= i < wanted.len() ==> present.contains((#[trigger] wanted[i]).0),
    ensures
        missing_columns(table, true, present, wanted).len() == 0,
    decreases wanted.len(),
{
    if wanted.len() > 0 {
        let d = wanted.drop_last();
        assert forall|i: int| 0 <= i < d.len() implies present.contains((#[trigger] d[i]).0) by {
            assert(d[i] == wanted[i]);
        }
        lemma_nothing_missing(table, present, d);
        assert(present.contains(wanted[wanted.len() - 1].0));
    }
}

/// A store that has been brought to the present tables lacks nothing: migrating it again changes
/// nothing.
pub proof fn migration_is_idempotent(
    table: Seq<char>,
    present: Seq<Seq<char>>,
    wanted: Seq<(Seq<char>, Seq<char>)>,
)
    ensures
        missing_columns(
            table,
            true,
            present + added_columns(true, present, wanted),
            wanted,
        ).len() == 0,
{
    let all = present + added_columns(true, present, wanted);
    assert forall|i: int| 0 <= i < wanted.len() implies all.contains((#[trigger] wanted[i]).0) by {
        lemma_wanted_is_there(present, wanted, i);
    }
    lemma_nothing_missing(table, all, wanted);
}

/// A table: its columns in order, and its rows, each with a value for each column.
pub struct Table {
    pub columns: Seq<Seq<char>>,
    pub rows: Seq<Map<Seq<char>, SqlView>>,
}

/// A store: its tables by their names, and the version that is written in it.
pub struct Store {
    pub tables: Map<Seq<char>, Table>,
    pub version: int,
}

/// A table once the columns that it lacks were added, where a column grants its value to the rows
/// that are there.
pub open spec fn completed(
    t: Table,
    wanted: Seq<(Seq<char>, Seq<char>)>,
    granted: spec_fn((Seq<char>, Seq<char>)) -> SqlView,
) -> Table
    decreases wanted.len(),
{
    if wanted.len() == 0 {
        t
    } else {
        let p = completed(t, wanted.drop_last(), granted);
        let c = wanted.last();
        if t.columns.contains(c.0) {
            p
        } else {
            Table {
                columns: p.columns.push(c.0),
                rows: p.rows.map_values(|r: Map<Seq<char>, SqlView>| r.insert(c.0, granted(c))),
            }
        }
    }
}

/// Whether the table has all the columns.
pub open spec fn has_all(t: Table, wanted: Seq<(Seq<char>, Seq<char>)>) -> bool {
    forall|i: int| 0 <= i < wanted.len() ==> t.columns.contains((#[trigger] wanted[i]).0)
}

/// Whether the tables are such as the present schema creates where they are missing: projects,
/// sessions, messages and talks are among them, and nothing of the older way of migrating.
pub open spec fn is_present_schema(fresh: Map<Seq<char>, Table>) -> bool {
    &&& fresh.contains_key("projects"@)
    &&& fresh.contains_key("sessions"@)
    &&& fresh.contains_key("messages"@)
    &&& fresh.contains_key("talks"@)
    &&& !fresh.contains_key("schema_migrations"@)
}

/// A store that was brought to the present tables: those that are missing are created, columns that
/// `sessions` and `messages` lack are added, the table of the older way of migrating is removed,
/// and the version is raised.
pub open spec fn upgraded(
    store: Store,
    fresh: Map<Seq<char>, Table>,
    source: Seq<char>,
    granted: spec_fn((Seq<char>, Seq<char>)) -> SqlView,
) -> Store {
    let created = fresh.union_prefer_right(store.tables);
    let sessions = completed(created["sessions"@], session_columns(), granted);
    let messages = completed(created["messages"@], message_columns(source), granted);
    Store {
        tables: created.insert("sessions"@, sessions).insert("messages"@, messages).remove(
            "schema_migrations"@,
        ),
        version: if store.version < SCHEMA_VERSION {
            SCHEMA_VERSION as int
        } else {
            store.version
        },
    }
}

proof fn lemma_completed_columns(
    t: Table,
    wanted: Seq<(Seq<char>, Seq<char>)>,
    granted: spec_fn((Seq<char>, Seq<char>)) -> SqlView,
)
    ensures
        completed(t, wanted, granted).columns == t.columns + added_columns(true, t.columns, wanted),
    decreases wanted.len(),
{
    if wanted.len() == 0 {
        assert(t.columns + Seq::<Seq<char>>::empty() =~= t.columns);
    } else {
        let d = wanted.drop_last();
        lemma_completed_columns(t, d, granted);
        let before = added_columns(true, t.columns, d);
        assert((t.columns + before).push(wanted.last().0) =~= t.columns + before.push(
            wanted.last().0,
        ));
    }
}

proof fn lemma_completed_rows(
    t: Table,
    wanted: Seq<(Seq<char>, Seq<char>)>,
    granted: spec_fn((Seq<char>, Seq<char>)) -> SqlView,
)
    ensures
        keeps_rows(t, completed(t, wanted, granted)),
    decreases wanted.len(),
{
    if wanted.len() > 0 {
        lemma_completed_rows(t, wanted.drop_last(), granted);
    }
}

proof fn lemma_complete_stays(
    t: Table,
    wanted: Seq<(Seq<char>, Seq<char>)>,
    granted: spec_fn((Seq<char>, Seq<char>)) -> SqlView,
)
    requires
        has_all(t, wanted),
    ensures
        completed(t, wanted, granted) == t,
    decreases wanted.len(),
{
    if wanted.len() > 0 {
        let d = wanted.drop_last();
        assert forall|i: int| 0 <= i < d.len() implies t.columns.contains((#[trigger] d[i]).0) by {
            assert(d[i] == wanted[i]);
        }
        lemma_complete_stays(t, d, granted);
        assert(t.columns.contains(wanted[wanted.len() - 1].0));
    }
}

/// Whether a table has the rows of another, in order, with the same values in the columns of that
/// other.
pub open spec fn keeps_rows(before: Table, after: Table) -> bool {
    &&& after.rows.len() == before.rows.len()
    &&& forall|i: int, c: Seq<char>|
        0 <= i < before.rows.len() && before.columns.contains(c) ==> {
            &&& (#[trigger] after.rows[i].contains_key(c)) == before.rows[i].contains_key(c)
            &&& after.rows[i][c] == before.rows[i][c]
        }
}

proof fn lemma_table_names_differ()
    ensures
        "sessions"@ != "messages"@,
        "schema_migrations"@ != "projects"@,
        "schema_migrations"@ != "sessions"@,
        "schema_migrations"@ != "messages"@,
        "schema_migrations"@ != "talks"@,
        "projects"@ != "sessions"@,
        "projects"@ != "messages"@,
        "talks"@ != "sessions"@,
        "talks"@ != "messages"@,
{
    reveal_strlit("projects");
    reveal_strlit("sessions");
    reveal_strlit("messages");
    reveal_strlit("talks");
    reveal_strlit("schema_migrations");
    assert("sessions"@[0] == 's' && "messages"@[0] == 'm' && "projects"@[0] == 'p');
    assert("talks"@.len() == 5 && "schema_migrations"@.len() == 17);
    assert("sessions"@.len() == 8 && "messages"@.len() == 8 && "projects"@.len() == 8);
}

/// A store of any age that is brought to the present tables has every table and column that is
/// needed, keeps all its rows, and is not changed by being brought there again: no column is missing
/// then, nothing is to be cleaned up, and the version stays.
pub proof fn upgrade_completes(
    store: Store,
    fresh: Map<Seq<char>, Table>,
    source: Seq<char>,
    granted: spec_fn((Seq<char>, Seq<char>)) -> SqlView,
)
    requires
        is_present_schema(fresh),
    ensures
        ({
            let u = upgraded(store, fresh, source, granted);
            &&& u.tables.contains_key("projects"@)
            &&& u.tables.contains_key("sessions"@)
            &&& u.tables.contains_key("messages"@)
            &&& u.tables.contains_key("talks"@)
            &&& !u.tables.contains_key("schema_migrations"@)
            &&& has_all(u.tables["sessions"@], session_columns())
            &&& has_all(u.tables["messages"@], message_columns(source))
            &&& u.version >= SCHEMA_VERSION
            &&& forall|name: Seq<char>|
                name != "schema_migrations"@ && #[trigger] store.tables.contains_key(name)
                    ==> u.tables.contains_key(name) && keeps_rows(
                    store.tables[name],
                    u.tables[name],
                )
            &&& missing_columns(
                "sessions"@,
                true,
                u.tables["sessions"@].columns,
                session_columns(),
            ).len() == 0
            &&& missing_columns(
                "messages"@,
                true,
                u.tables["messages"@].columns,
                message_columns(source),
            ).len() == 0
            &&& upgraded(u, fresh, source, granted) == u
        }),
{
    lemma_table_names_differ();
    let created = fresh.union_prefer_right(store.tables);
    let u = upgraded(store, fresh, source, granted);
    let s0 = created["sessions"@];
    let m0 = created["messages"@];
    let s = u.tables["sessions"@];
    let m = u.tables["messages"@];
    assert(s == completed(s0, session_columns(), granted));
    assert(m == completed(m0, message_columns(source), granted));
    lemma_completed_columns(s0, session_columns(), granted);
    lemma_completed_columns(m0, message_columns(source), granted);
    lemma_completed_rows(s0, session_columns(), granted);
    lemma_completed_rows(m0, message_columns(source), granted);
    assert forall|i: int| 0 <= i < session_columns().len() implies s.columns.contains(
        (#[trigger] session_columns()[i]).0,
    ) by {
        lemma_wanted_is_there(s0.columns, session_columns(), i);
    }
    assert forall|i: int| 0 <= i < message_columns(source).len() implies m.columns.contains(
        (#[trigger] message_columns(source)[i]).0,
    ) by {
        lemma_wanted_is_there(m0.columns, message_columns(source), i);
    }
    lemma_nothing_missing("sessions"@, s.columns, session_columns());
    lemma_nothing_missing("messages"@, m.columns, message_columns(source));
    lemma_complete_stays(s, session_columns(), granted);
    lemma_complete_stays(m, message_columns(source), granted);
    assert forall|name: Seq<char>|
        name != "schema_migrations"@ && #[trigger] store.tables.contains_key(name) implies u.tables.contains_key(
        name,
    ) && keeps_rows(store.tables[name], u.tables[name]) by {
        assert(created[name] == store.tables[name]);
    }
    let again = upgraded(u, fresh, source, granted);
    assert(fresh.union_prefer_right(u.tables) =~= u.tables);
    assert(again.tables =~= u.tables);
}

} // verus!

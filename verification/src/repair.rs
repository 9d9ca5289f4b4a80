//! Repairing a damaged database file.
use vstd::prelude::*;
use crate::db::{is_malformed_error, says_malformed};
use crate::paths;
use crate::paths::{path_with_extension, PathStyle};
use crate::sql::{numbered_placeholders, placeholders};
use crate::text::{join, joined, lowercase, same_text, views};

verus! {

/// The files that a repair deals with.
#[derive(Debug, Clone)]
pub struct RepairPaths {
    pub wal: String,
    pub shm: String,
    /// Where the write-ahead log goes.
    pub wal_backup: String,
    /// Where the new database is built.
    pub rebuilt: String,
    /// Where the damaged database goes.
    pub damaged: String,
    /// What asks for a repair.
    pub marker: String,
}

/// The files that a repair of the database at `db_path` deals with.
pub fn repair_paths(style: PathStyle, db_path: &str) -> (r: RepairPaths)
    ensures
        r.wal@ == path_with_extension(style, db_path@, "db-wal"@),
        r.shm@ == path_with_extension(style, db_path@, "db-shm"@),
        r.wal_backup@ == path_with_extension(style, r.wal@, "db-wal.repair-backup"@),
        r.rebuilt@ == path_with_extension(style, db_path@, "db-repair-tmp"@),
        r.damaged@ == path_with_extension(style, db_path@, "db-pre-repair"@),
        r.marker@ == path_with_extension(style, db_path@, "db-repair-needed"@),
{
    proof {
        reveal_strlit("db-wal");
        reveal_strlit("db-shm");
        reveal_strlit("db-wal.repair-backup");
        reveal_strlit("db-repair-tmp");
        reveal_strlit("db-pre-repair");
        reveal_strlit("db-repair-needed");
    }
    let wal = paths::with_extension(style, db_path, "db-wal");
    let wal_backup = paths::with_extension(style, wal.as_str(), "db-wal.repair-backup");
    RepairPaths {
        wal,
        shm: paths::with_extension(style, db_path, "db-shm"),
        wal_backup,
        rebuilt: paths::with_extension(style, db_path, "db-repair-tmp"),
        damaged: paths::with_extension(style, db_path, "db-pre-repair"),
        marker: paths::with_extension(style, db_path, "db-repair-needed"),
    }
}

/// Whether others use the database: there is a file of shared memory, and it could not be locked.
pub fn has_other_db_users(shm_exists: bool, locked: bool) -> (r: bool)
    ensures
        r == (shm_exists && !locked),
{
    shm_exists && !locked
}

/// What a repair does next.
#[derive(Debug, Clone)]
pub enum RepairStep {
    /// Asks the open database for its integrity.
    Check,
    /// Puts the write-ahead log aside and opens the database once more.
    DropWal,
    /// Writes the write-ahead log into the database; it is sound.
    Checkpoint,
    /// Builds the database anew from what can be read of it.
    Rebuild,
    /// Gives up, for the reason given.
    GiveUp(String),
}

/// Whether a repair may begin: the database is there, and nobody else uses it.
pub fn run_repair(db_path: &str, db_exists: bool, used_by_others: bool) -> (r: Result<(), String>)
    ensures
        match r {
            Ok(_) => db_exists && !used_by_others,
            Err(why) => if !db_exists {
                why@ == "Database file not found: "@ + db_path@
            } else {
                used_by_others && why@
                    == "Other processes are using the database.\nPlease stop ETerm and memex first, then retry."@
            },
        },
{
    if !db_exists {
        let mut why = "Database file not found: ".to_owned();
        why.push_str(db_path);
        return Err(why);
    }
    if used_by_others {
        return Err(
            "Other processes are using the database.\nPlease stop ETerm and memex first, then retry.".to_owned(),
        );
    }
    Ok(())
}

/// What a repair does once it has tried to open the database: the first error, if any, is given.
pub fn after_open(error: Option<&str>) -> (r: RepairStep)
    ensures
        match error {
            None => r is Check,
            Some(e) => if says_malformed(lowercase(e@)) {
                r is DropWal
            } else {
                r matches RepairStep::GiveUp(why) && why@ == "Cannot open DB: "@ + e@
            },
        },
{
    match error {
        None => RepairStep::Check,
        Some(e) => {
            if is_malformed_error(e) {
                RepairStep::DropWal
            } else {
                let mut why = "Cannot open DB: ".to_owned();
                why.push_str(e);
                RepairStep::GiveUp(why)
            }
        },
    }
}

/// What a repair does once it has opened the database without its write-ahead log.
pub fn repair_malformed(error: Option<&str>) -> (r: RepairStep)
    ensures
        match error {
            None => r is Check,
            Some(e) => r matches RepairStep::GiveUp(why) && why@
                == "DB still malformed after WAL cleanup: "@ + e@
                + "\nThe database file itself is corrupted and needs manual recovery."@,
        },
{
    match error {
        None => RepairStep::Check,
        Some(e) => {
            let mut why = "DB still malformed after WAL cleanup: ".to_owned();
            why.push_str(e);
            why.push_str("\nThe database file itself is corrupted and needs manual recovery.");
            RepairStep::GiveUp(why)
        },
    }
}

/// What a repair does with the report of an integrity check.
pub fn repair_with_connection(report: &str) -> (r: RepairStep)
    ensures
        if report@ == "ok"@ {
            r is Checkpoint
        } else {
            r is Rebuild
        },
{
    if same_text(report, "ok") {
        RepairStep::Checkpoint
    } else {
        RepairStep::Rebuild
    }
}

/// A name between quotation marks.
pub open spec fn quoted(name: Seq<char>) -> Seq<char> {
    "\""@ + name + "\""@
}

/// The names between quotation marks, with commas.
pub open spec fn column_list(columns: Seq<Seq<char>>) -> Seq<char> {
    joined(columns.map_values(|c: Seq<char>| quoted(c)), ", "@)
}

/// The statements that read the rows of a table and write them into another of the same name.
#[derive(Debug, Clone)]
pub struct CopyStatements {
    pub select: String,
    pub insert: String,
}

/// The statements that copy a table with the columns; a table without columns has nothing to copy.
pub fn copy_table(table: &str, columns: &Vec<String>) -> (r: Option<CopyStatements>)
    requires
        columns@.len() < usize::MAX,
    ensures
        match r {
            Some(c) => {
                &&& columns@.len() > 0
                &&& c.select@ == "SELECT "@ + column_list(views(columns@)) + " FROM "@ + quoted(
                    table@,
                )
                &&& c.insert@ == "INSERT OR IGNORE INTO "@ + quoted(table@) + " ("@ + column_list(
                    views(columns@),
                ) + ") VALUES ("@ + joined(placeholders(1, columns@.len(), ""@, ""@), ", "@) + ")"@
            },
            None => columns@.len() == 0,
        },
{
    if columns.len() == 0 {
        return None;
    }
    let mut names: Vec<String> = Vec::new();
    let mut i: usize = 0;
    while i < columns.len()
        invariant
            i <= columns@.len(),
            names@.len() == i,
            forall|k: int| 0 <= k < i ==> (#[trigger] names@[k])@ == quoted(columns@[k]@),
        decreases columns@.len() - i,
    {
        names.push(in_quotes(columns[i].as_str()));
        i += 1;
    }
    assert(views(names@) =~= views(columns@).map_values(|c: Seq<char>| quoted(c))) by {
        assert forall|k: int| 0 <= k < columns@.len() implies views(columns@)[k]
            == columns@[k]@ by {}
    }
    let list = join(&names, ", ");
    let q = in_quotes(table);
    let mut select = "SELECT ".to_owned();
    select.push_str(list.as_str());
    select.push_str(" FROM ");
    select.push_str(q.as_str());
    let mut insert = "INSERT OR IGNORE INTO ".to_owned();
    insert.push_str(q.as_str());
    insert.push_str(" (");
    insert.push_str(list.as_str());
    insert.push_str(") VALUES (");
    insert.push_str(join(&numbered_placeholders(1, columns.len(), "", ""), ", ").as_str());
    insert.push_str(")");
    Some(CopyStatements { select, insert })
}

fn in_quotes(name: &str) -> (r: String)
    ensures
        r@ == quoted(name@),
{
    let mut r = "\"".to_owned();
    r.push_str(name);
    r.push_str("\"");
    r
}

} // verus!

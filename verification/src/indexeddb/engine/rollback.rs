//! Undoing and committing a transaction.

use vstd::prelude::*;
use vstd::string::*;

use crate::indexeddb::engine::model::{
    values_view, EngineError, Statement, StatementView, Value, ValueView,
};
use crate::indexeddb::engine::schema::{signed_serial, stored_serial};

verus! {

/// What a rollback does next.
#[derive(Debug)]
pub enum RollbackStep {
    /// Runs a batch of statements.
    Batch(String),
    /// Reads one text column.
    Load(Statement),
    /// Runs one statement.
    Execute(Statement),
    Finish(Result<(), EngineError>),
}

/// How far a rollback has come.
#[derive(Debug)]
pub enum RollbackStage {
    Begin,
    Load,
    /// The undo statements, newest first, and how many of them have run.
    Replay { statements: Vec<String>, done: usize },
    ClearLog,
    Commit,
    /// The replay failed; what it did is taken back, and then the error is reported.
    Undo(EngineError),
}

/// A rollback under way. The replay of the undo statements lands whole or not at all.
#[derive(Debug)]
pub struct Rollback {
    pub serial: i64,
    pub stage: RollbackStage,
}

/// The read of a transaction's undo statements, newest first: each undoes one write, so it has to
/// run where the writes after it have been undone already.
pub open spec fn load_statement(serial: int) -> StatementView {
    StatementView {
        sql: "SELECT statement FROM undo_log WHERE transaction_serial = ? ORDER BY seq DESC"@,
        values: seq![ValueView::Integer(serial)],
    }
}

/// The deletion of a transaction's undo statements.
pub open spec fn clear_log_statement(serial: int) -> StatementView {
    StatementView {
        sql: "DELETE FROM undo_log WHERE transaction_serial = ?"@,
        values: seq![ValueView::Integer(serial)],
    }
}

fn serial_statement(sql: &str, serial: i64) -> (statement: Statement)
    ensures
        statement@ == (StatementView {
            sql: sql@,
            values: seq![ValueView::Integer(serial as int)],
        }),
{
    let values: Vec<Value> = vec![Value::Integer(serial)];
    assert(values_view(values@) =~= seq![ValueView::Integer(serial as int)]);
    Statement { sql: sql.to_owned(), values }
}

/// Forgets how to undo a transaction that has committed.
pub fn commit_transaction(serial_number: u64) -> (statement: Statement)
    ensures
        statement@ == clear_log_statement(stored_serial(serial_number)),
{
    serial_statement(
        "DELETE FROM undo_log WHERE transaction_serial = ?",
        signed_serial(serial_number),
    )
}

impl Rollback {
    /// The step that belongs to the stage.
    pub open spec fn leads_to(self, step: RollbackStep) -> bool {
        match self.stage {
            RollbackStage::Begin => step matches RollbackStep::Batch(sql) && sql@
                == "BEGIN IMMEDIATE"@,
            RollbackStage::Load => step matches RollbackStep::Load(statement) && statement@
                == load_statement(self.serial as int),
            RollbackStage::Replay { statements, done } => step matches RollbackStep::Batch(sql)
                && sql@ == statements[done as int]@,
            RollbackStage::ClearLog => step matches RollbackStep::Execute(statement) && statement@
                == clear_log_statement(self.serial as int),
            RollbackStage::Commit => step matches RollbackStep::Batch(sql) && sql@ == "COMMIT"@,
            RollbackStage::Undo(_) => step matches RollbackStep::Batch(sql) && sql@ == "ROLLBACK"@,
        }
    }

    /// What comes after the stage's step has succeeded, given what was read.
    pub open spec fn after_success(self, loaded: Vec<String>, after: Rollback) -> bool {
        &&& after.serial == self.serial
        &&& match self.stage {
            RollbackStage::Begin => after.stage is Load,
            RollbackStage::Load => after.stage == if loaded.len() == 0 {
                RollbackStage::ClearLog
            } else {
                RollbackStage::Replay { statements: loaded, done: 0 }
            },
            RollbackStage::Replay { statements, done } => after.stage == if done + 1
                < statements.len() {
                RollbackStage::Replay { statements, done: (done + 1) as usize }
            } else {
                RollbackStage::ClearLog
            },
            RollbackStage::ClearLog => after.stage is Commit,
            _ => true,
        }
    }

    /// A replay that is under way has a statement to run.
    pub open spec fn wf(self) -> bool {
        self.stage matches RollbackStage::Replay { statements, done } ==> done < statements.len()
    }

    /// Starts the rollback of a transaction.
    pub fn new(serial_number: u64) -> (rollback: Self)
        ensures
            rollback.wf(),
            rollback.serial == stored_serial(serial_number),
            rollback.stage is Begin,
    {
        Rollback { serial: signed_serial(serial_number), stage: RollbackStage::Begin }
    }

    /// The step that belongs to the stage.
    pub fn next(&self) -> (step: RollbackStep)
        requires
            self.wf(),
        ensures
            self.leads_to(step),
    {
        match &self.stage {
            RollbackStage::Begin => RollbackStep::Batch("BEGIN IMMEDIATE".to_owned()),
            RollbackStage::Load => RollbackStep::Load(
                serial_statement(
                    "SELECT statement FROM undo_log WHERE transaction_serial = ? ORDER BY seq DESC",
                    self.serial,
                ),
            ),
            RollbackStage::Replay { statements, done } => RollbackStep::Batch(
                statements[*done].clone(),
            ),
            RollbackStage::ClearLog => RollbackStep::Execute(
                serial_statement("DELETE FROM undo_log WHERE transaction_serial = ?", self.serial),
            ),
            RollbackStage::Commit => RollbackStep::Batch("COMMIT".to_owned()),
            RollbackStage::Undo(_) => RollbackStep::Batch("ROLLBACK".to_owned()),
        }
    }

    /// Goes on after a step. `outcome` is what the step gave: the texts that were read, or an
    /// error. A rollback that cannot begin or commit fails with that error; a replay that fails is
    /// taken back, and fails with its own error, whatever comes of taking it back.
    pub fn resume(self, outcome: Result<Vec<String>, EngineError>) -> (result: (
        Option<Rollback>,
        RollbackStep,
    ))
        requires
            self.wf(),
        ensures
            match result.0 {
                Some(after) => after.wf() && after.leads_to(result.1),
                None => result.1 is Finish,
            },
            match (self.stage, outcome) {
                (RollbackStage::Undo(error), _) => result.0 is None && result.1
                    == RollbackStep::Finish(Err(error)),
                (RollbackStage::Commit, Ok(_)) => result.0 is None && result.1
                    == RollbackStep::Finish(Ok(())),
                (RollbackStage::Begin | RollbackStage::Commit, Err(error)) => result.0 is None
                    && result.1 == RollbackStep::Finish(Err(error)),
                (_, Err(error)) => result.0 == Some(
                    Rollback { serial: self.serial, stage: RollbackStage::Undo(error) },
                ),
                (_, Ok(loaded)) => result.0 matches Some(after) && self.after_success(
                    loaded,
                    after,
                ),
            },
    {
        let serial = self.serial;
        let stage = match (self.stage, outcome) {
            (RollbackStage::Undo(error), _) => {
                return (None, RollbackStep::Finish(Err(error)));
            },
            (RollbackStage::Begin, Ok(_)) => RollbackStage::Load,
            (RollbackStage::Begin, Err(error)) => {
                return (None, RollbackStep::Finish(Err(error)));
            },
            (RollbackStage::Commit, Ok(_)) => {
                return (None, RollbackStep::Finish(Ok(())));
            },
            (RollbackStage::Commit, Err(error)) => {
                return (None, RollbackStep::Finish(Err(error)));
            },
            (_, Err(error)) => RollbackStage::Undo(error),
            (RollbackStage::Load, Ok(loaded)) => if loaded.len() == 0 {
                RollbackStage::ClearLog
            } else {
                RollbackStage::Replay { statements: loaded, done: 0 }
            },
            (RollbackStage::Replay { statements, done }, Ok(_)) => if done + 1 < statements.len() {
                RollbackStage::Replay { statements, done: done + 1 }
            } else {
                RollbackStage::ClearLog
            },
            (RollbackStage::ClearLog, Ok(_)) => RollbackStage::Commit,
        };
        let after = Rollback { serial, stage };
        let step = after.next();
        (Some(after), step)
    }
}

/// One change of one row, by the row's key, with what is needed to undo it.
pub enum Change<K, V> {
    /// The row was added.
    Inserted(K, V),
    /// The row was removed; this is what it held.
    Deleted(K, V),
    /// The row was replaced; this is what it held and what it holds.
    Updated(K, V, V),
}

impl<K, V> Change<K, V> {
    /// The change can happen to these rows.
    pub open spec fn fits(self, rows: Map<K, V>) -> bool {
        match self {
            Change::Inserted(key, _) => !rows.contains_key(key),
            Change::Deleted(key, old) => rows.contains_key(key) && rows[key] == old,
            Change::Updated(key, old, _) => rows.contains_key(key) && rows[key] == old,
        }
    }

    /// The rows after the change.
    pub open spec fn done(self, rows: Map<K, V>) -> Map<K, V> {
        match self {
            Change::Inserted(key, new) => rows.insert(key, new),
            Change::Deleted(key, _) => rows.remove(key),
            Change::Updated(key, _, new) => rows.insert(key, new),
        }
    }

    /// The rows after the statement that the triggers recorded for the change: an added row is
    /// deleted, a removed row inserted, a replaced row set back.
    pub open spec fn undone(self, rows: Map<K, V>) -> Map<K, V> {
        match self {
            Change::Inserted(key, _) => rows.remove(key),
            Change::Deleted(key, old) => rows.insert(key, old),
            Change::Updated(key, old, _) => rows.insert(key, old),
        }
    }
}

/// The changes can happen to these rows one after the other.
pub open spec fn all_fit<K, V>(changes: Seq<Change<K, V>>, rows: Map<K, V>) -> bool
    decreases changes.len(),
{
    changes.len() == 0 || (all_fit(changes.drop_last(), rows) && changes.last().fits(
        all_done(changes.drop_last(), rows),
    ))
}

/// The rows after the changes.
pub open spec fn all_done<K, V>(changes: Seq<Change<K, V>>, rows: Map<K, V>) -> Map<K, V>
    decreases changes.len(),
{
    if changes.len() == 0 {
        rows
    } else {
        changes.last().done(all_done(changes.drop_last(), rows))
    }
}

/// The rows after the changes have been undone, the newest first.
pub open spec fn all_undone<K, V>(changes: Seq<Change<K, V>>, rows: Map<K, V>) -> Map<K, V>
    decreases changes.len(),
{
    if changes.len() == 0 {
        rows
    } else {
        all_undone(changes.drop_last(), changes.last().undone(rows))
    }
}

/// Undoing what a transaction changed, the newest change first, gives back the rows that it
/// started from.
pub proof fn rollback_restores<K, V>(changes: Seq<Change<K, V>>, rows: Map<K, V>)
    requires
        all_fit(changes, rows),
    ensures
        all_undone(changes, all_done(changes, rows)) == rows,
    decreases changes.len(),
{
    if changes.len() > 0 {
        let before = all_done(changes.drop_last(), rows);
        assert(changes.last().undone(changes.last().done(before)) =~= before);
        rollback_restores(changes.drop_last(), rows);
    }
}

} // verus!

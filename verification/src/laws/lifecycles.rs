//! How the database is opened, restricted and backed up.
use vstd::prelude::*;
use crate::decode::AnswerView;
use crate::error::DatabaseErrorView;
use crate::lifecycle::{
    backup_steps, copying, restricted, stage_after, token_stripping, BackupStepView, Stage,
    INCREMENTAL, NO_MODE,
};
use crate::tables::{meets, Matching, Tables};
use crate::value::{Cell, Column, Table};

verus! {

/// The vacuum modes that a database reads while it is opened: as it was found,
/// once it was configured, and once a mode was set where it had none.
pub struct Modes {
    pub found: i64,
    pub configured: i64,
    pub set: i64,
}

/// The stages of opening a database that reads these modes, and whose index has
/// to be rebuilt or not.
pub open spec fn stages(modes: Modes, rebuild: bool) -> Seq<Stage> {
    seq![Stage::OpenWriter, Stage::AskFirstMode] + (if modes.found == NO_MODE {
        seq![Stage::PresetVacuumMode]
    } else {
        Seq::empty()
    }) + seq![Stage::ConfigureWriter, Stage::RestrictPermissions, Stage::AskVacuumMode] + (
    if modes.configured == INCREMENTAL {
        Seq::empty()
    } else if modes.configured != NO_MODE {
        seq![Stage::ChangeVacuumMode, Stage::Vacuum]
    } else if modes.set == INCREMENTAL {
        seq![Stage::SetVacuumMode, Stage::CheckVacuumMode]
    } else {
        seq![Stage::SetVacuumMode, Stage::CheckVacuumMode, Stage::Vacuum]
    }) + seq![Stage::Migrate, Stage::AskIndex] + (if rebuild {
        seq![Stage::RebuildIndex]
    } else {
        Seq::empty()
    }) + seq![
        Stage::OpenReader,
        Stage::ConfigureReader,
        Stage::EvictNotes,
        Stage::EvictMessages,
        Stage::ReturnPages,
        Stage::Open,
    ]
}

/// Whether `reply` is what a stage is answered where these modes are read and
/// the index has to be rebuilt or not. It is no matter what the stages that ask
/// nothing are answered.
pub open spec fn answers(
    stage: Stage,
    reply: AnswerView,
    modes: Modes,
    rebuild: bool,
) -> bool {
    match stage {
        Stage::AskFirstMode => reply.one::<i64>() == Ok::<i64, DatabaseErrorView>(modes.found),
        Stage::AskVacuumMode => reply.one::<i64>() == Ok::<i64, DatabaseErrorView>(
            modes.configured,
        ),
        Stage::CheckVacuumMode => reply.one::<i64>() == Ok::<i64, DatabaseErrorView>(modes.set),
        Stage::AskIndex => reply.one::<bool>() == Ok::<bool, DatabaseErrorView>(rebuild),
        _ => true,
    }
}

/// Where nothing fails, opening goes through its stages from the first to the
/// last: it sets the vacuum mode where it is another, rebuilds the index only
/// where that is needed, and evicts once the tables are up to date.
pub proof fn opening_goes_through_its_stages(
    modes: Modes,
    rebuild: bool,
    i: int,
    reply: AnswerView,
)
    requires
        0 <= i < stages(modes, rebuild).len() - 1,
        answers(stages(modes, rebuild)[i], reply, modes, rebuild),
    ensures
        stages(modes, rebuild)[0] == Stage::OpenWriter,
        stage_after(stages(modes, rebuild)[i], Ok(reply)) == Ok::<Stage, DatabaseErrorView>(
            stages(modes, rebuild)[i + 1],
        ),
        stages(modes, rebuild).last() == Stage::Open,
{
}

/// Opening vacuums a database that has another vacuum mode, and one that has
/// none and does not take the wanted one when it is set. It vacuums no other: a
/// new database, which takes it, is not vacuumed.
pub proof fn opening_vacuums_only_where_it_has_to(modes: Modes, rebuild: bool)
    ensures
        stages(modes, rebuild).contains(Stage::Vacuum) <==> modes.configured != INCREMENTAL && !(
        modes.configured == NO_MODE && modes.set == INCREMENTAL),
{
    let path = stages(modes, rebuild);
    let asked: int = if modes.found == NO_MODE {
        5
    } else {
        4
    };
    assert(path[asked] == Stage::AskVacuumMode);
    if modes.configured != INCREMENTAL && modes.configured != NO_MODE {
        assert(path[asked + 2] == Stage::Vacuum);
    } else if modes.configured == NO_MODE && modes.set != INCREMENTAL {
        assert(path[asked + 3] == Stage::Vacuum);
    }
}

/// The mode is set before the connection is configured only where the database
/// was found with none: the mode of any other is read as it was found.
pub proof fn opening_presets_only_where_there_is_no_mode(modes: Modes, rebuild: bool)
    ensures
        stages(modes, rebuild).contains(Stage::PresetVacuumMode) <==> modes.found == NO_MODE,
{
    let path = stages(modes, rebuild);
    if modes.found == NO_MODE {
        assert(path[2] == Stage::PresetVacuumMode);
    }
}

/// Opening ends with the first failure, but a failure to restrict permissions
/// does not keep the database from being opened.
pub proof fn opening_ends_with_the_first_failure(stage: Stage, e: DatabaseErrorView)
    ensures
        stage != Stage::RestrictPermissions ==> stage_after(stage, Err(e)) == Err::<
            Stage,
            DatabaseErrorView,
        >(e),
        stage == Stage::RestrictPermissions ==> stage_after(stage, Err(e)) == Ok::<
            Stage,
            DatabaseErrorView,
        >(Stage::AskVacuumMode),
{
}

/// Once its permissions were restricted, a file gives others none. One that
/// gave others none keeps its permissions.
pub proof fn restricted_files_are_the_owners_alone(mode: u32)
    ensures
        ({
            let now = match restricted(mode) {
                Some(new) => new,
                None => mode,
            };
            now & 0o077 == 0
        }),
        mode & 0o077 == 0 ==> restricted(mode) is None,
{
    assert(0o600u32 & 0o077 == 0) by (bit_vector);
}

/// A database and the file that it is backed up to.
pub struct Backup {
    pub database: Tables,
    pub copy: Option<Tables>,
}

/// Whether a step of a backup, when it succeeds, can turn one state into
/// another. The engine does not copy onto a file that exists.
pub open spec fn backup_step(
    step: BackupStepView,
    before: Backup,
    after: Backup,
    m: Matching,
) -> bool {
    &&& after.database == before.database
    &&& match step {
        BackupStepView::RemoveExisting => after.copy is None,
        BackupStepView::Copy(_) => before.copy is None && after.copy == Some(before.database),
        BackupStepView::RestrictPermissions => after.copy == before.copy,
        BackupStepView::OnCopy(statement) => {
            &&& before.copy is Some
            &&& after.copy is Some
            &&& exists|changed: nat| #[trigger]
                statement.step(before.copy->0, after.copy->0, changed, m)
        },
    }
}

/// Whether states follow one another by the steps of a backup.
pub open spec fn backed_up(steps: Seq<BackupStepView>, states: Seq<Backup>, m: Matching) -> bool {
    &&& states.len() == steps.len() + 1
    &&& forall|i: int|
        0 <= i < steps.len() ==> backup_step(#[trigger] steps[i], states[i], states[i + 1], m)
}

/// A backup leaves the database as it is, and the copy holds what the database
/// holds: without its tokens where they were to be stripped, and otherwise all
/// of it. It is no matter whether the file was there before.
pub proof fn a_backup_holds_what_the_database_holds(
    dest: Seq<char>,
    strip_tokens: bool,
    states: Seq<Backup>,
    m: Matching,
)
    requires
        states.len() > 0,
        backed_up(backup_steps(dest, states[0].copy is Some, strip_tokens), states, m),
    ensures
        states.last().database == states[0].database,
        states.last().copy is Some,
        !strip_tokens ==> states.last().copy == Some(states[0].database),
        strip_tokens ==> {
            let rows = states[0].database[Table::Accounts];
            let copied = states.last().copy->0[Table::Accounts];
            &&& copied.len() == rows.len()
            &&& forall|i: int|
                0 <= i < rows.len() ==> #[trigger] copied[i] == rows[i].insert(
                    Column::Token,
                    Cell::Text(""@),
                )
            &&& forall|t: Table|
                t != Table::Accounts ==> #[trigger] states.last().copy->0[t]
                    == states[0].database[t]
        },
{
    let there = states[0].copy is Some;
    let steps = backup_steps(dest, there, strip_tokens);
    let first: int = if there {
        1
    } else {
        0
    };
    if there {
        assert(steps[0] == BackupStepView::RemoveExisting);
        assert(backup_step(steps[0], states[0], states[1], m));
    }
    assert(steps[first] == BackupStepView::Copy(copying(dest)));
    assert(backup_step(steps[first], states[first], states[first + 1], m));
    assert(steps[first + 1] == BackupStepView::RestrictPermissions);
    assert(backup_step(steps[first + 1], states[first + 1], states[first + 2], m));
    if strip_tokens {
        assert(steps[first + 2] == BackupStepView::OnCopy(token_stripping()));
        assert(backup_step(steps[first + 2], states[first + 2], states[first + 3], m));
        let copy = states[first + 2].copy->0;
        let stripped = states[first + 3].copy->0;
        let changed = choose|changed: nat| #[trigger]
            token_stripping().step(copy, stripped, changed, m);
        assert(states.last() == states[first + 3]);
        let rows = states[0].database[Table::Accounts];
        assert forall|i: int| 0 <= i < rows.len() implies #[trigger] stripped[Table::Accounts][i]
            == rows[i].insert(Column::Token, Cell::Text(""@)) by {
            assert(meets(rows[i], Seq::empty(), m));
        }
    } else {
        assert(states.last() == states[first + 2]);
    }
}

} // verus!

//! Which migrations bring the session database's schema up to date.

use vstd::prelude::*;

use crate::text::{append_str, copy_str, decimal, decimal_string, push_char};

verus! {

/// The schema version the migrations lead to: one per migration.
pub const SCHEMA_VERSION: usize = 1;

/// Why a database cannot be used.
#[derive(Clone, Copy, Debug, Eq, PartialEq, Structural)]
pub enum SchemaError {
    /// The database is at a version that no migration leads to.
    Unsupported { version: i64 },
}

/// The decimal numeral of an integer, with a minus sign when negative.
pub open spec fn signed_decimal(n: int) -> Seq<char> {
    if n < 0 {
        seq!['-'] + decimal((-n) as nat)
    } else {
        decimal(n as nat)
    }
}

/// The message of a schema error.
pub open spec fn schema_error_message(e: SchemaError) -> Seq<char> {
    match e {
        SchemaError::Unsupported { version } => "database schema version "@ + signed_decimal(
            version as int,
        ) + " is unsupported; expected "@ + decimal(SCHEMA_VERSION as nat),
    }
}

/// The decimal numeral of an `i64`.
pub fn signed_decimal_string(n: i64) -> (r: String)
    ensures
        r@ == signed_decimal(n as int),
{
    if n < 0 {
        let magnitude: i128 = -(n as i128);
        let digits = decimal_string(magnitude as u128);
        let mut r = String::new();
        push_char(&mut r, '-');
        append_str(&mut r, digits.as_str());
        r
    } else {
        decimal_string(n as u128)
    }
}

impl SchemaError {
    /// The error's message.
    pub fn message(&self) -> (r: String)
        ensures
            r@ == schema_error_message(*self),
    {
        match self {
            SchemaError::Unsupported { version } => {
                let mut r = copy_str("database schema version ");
                let number = signed_decimal_string(*version);
                append_str(&mut r, number.as_str());
                append_str(&mut r, " is unsupported; expected ");
                let expected = decimal_string(SCHEMA_VERSION as u128);
                append_str(&mut r, expected.as_str());
                proof {
                    reveal_strlit("database schema version ");
                    reveal_strlit(" is unsupported; expected ");
                }
                r
            },
        }
    }
}

/// The migrations, by number from one, that bring a database at `version`
/// up to date: those after its version, in order.  A negative version, or one
/// past the last migration, is not supported.
pub open spec fn migration_plan(version: int) -> Result<Seq<nat>, SchemaError> {
    if version < 0 || version > SCHEMA_VERSION {
        Err(SchemaError::Unsupported { version: version as i64 })
    } else {
        Ok(Seq::new((SCHEMA_VERSION - version) as nat, |i: int| (version + 1 + i) as nat))
    }
}

/// The migrations to apply to a database at `version`.
pub fn migrations_to_apply(version: i64) -> (r: Result<Vec<usize>, SchemaError>)
    ensures
        match (r, migration_plan(version as int)) {
            (Ok(v), Ok(p)) => v@.map_values(|n: usize| n as nat) == p,
            (Err(e), Err(f)) => e == f,
            _ => false,
        },
{
    if version < 0 || version > SCHEMA_VERSION as i64 {
        return Err(SchemaError::Unsupported { version });
    }
    let start = version as usize;
    let mut plan: Vec<usize> = Vec::new();
    let mut n = start;
    while n < SCHEMA_VERSION
        invariant
            start <= n <= SCHEMA_VERSION,
            start == version,
            plan@.map_values(|k: usize| k as nat) == Seq::new(
                (n - start) as nat,
                |i: int| (version + 1 + i) as nat,
            ),
        decreases SCHEMA_VERSION - n,
    {
        let ghost before = plan@;
        plan.push(n + 1);
        proof {
            assert(plan@.map_values(|k: usize| k as nat) =~= before.map_values(
                |k: usize| k as nat,
            ).push((n + 1) as nat));
            assert(before.map_values(|k: usize| k as nat).push((n + 1) as nat) =~= Seq::new(
                (n + 1 - start) as nat,
                |i: int| (version + 1 + i) as nat,
            ));
        }
        n = n + 1;
    }
    Ok(plan)
}

/// How a session is saved: over the row it was saved to before, or as a new
/// row whose id it then takes.
#[derive(Clone, Copy, Debug, Eq, PartialEq, Structural)]
pub enum SaveStep {
    Update { id: i64 },
    Insert,
}

/// Why a session could not be saved.
#[derive(Clone, Copy, Debug, Eq, PartialEq, Structural)]
pub enum SaveError {
    /// The session's creation time does not fit an SQLite integer.
    CreatedOutOfRange,
    /// The session's update time does not fit an SQLite integer.
    UpdatedOutOfRange,
    /// The row the session was saved to is gone.
    Missing { id: i64 },
}

/// The message of a save error.
pub open spec fn save_error_message(e: SaveError) -> Seq<char> {
    match e {
        SaveError::CreatedOutOfRange => "session creation time exceeds SQLite integer range"@,
        SaveError::UpdatedOutOfRange => "session update time exceeds SQLite integer range"@,
        SaveError::Missing { id } => "session `"@ + signed_decimal(id as int)
            + "` no longer exists"@,
    }
}

impl SaveError {
    /// The error's message.
    pub fn message(&self) -> (r: String)
        ensures
            r@ == save_error_message(*self),
    {
        proof {
            reveal_strlit("session creation time exceeds SQLite integer range");
            reveal_strlit("session update time exceeds SQLite integer range");
            reveal_strlit("session `");
            reveal_strlit("` no longer exists");
        }
        match self {
            SaveError::CreatedOutOfRange => copy_str(
                "session creation time exceeds SQLite integer range",
            ),
            SaveError::UpdatedOutOfRange => copy_str(
                "session update time exceeds SQLite integer range",
            ),
            SaveError::Missing { id } => {
                let mut r = copy_str("session `");
                let number = signed_decimal_string(*id);
                append_str(&mut r, number.as_str());
                append_str(&mut r, "` no longer exists");
                r
            },
        }
    }
}

/// Saving a session with `id` updates that row; without one it inserts.
pub fn save_step(id: Option<i64>) -> (r: SaveStep)
    ensures
        r == (match id {
            Option::Some(i) => SaveStep::Update { id: i },
            Option::None => SaveStep::Insert,
        }),
{
    match id {
        Some(i) => SaveStep::Update { id: i },
        None => SaveStep::Insert,
    }
}

/// The creation and update times of a session as SQLite integers; the first
/// that does not fit is the error.
pub fn sqlite_times(created_at: u64, updated_at: u64) -> (r: Result<(i64, i64), SaveError>)
    ensures
        created_at > i64::MAX ==> r == Err::<(i64, i64), SaveError>(
            SaveError::CreatedOutOfRange,
        ),
        created_at <= i64::MAX && updated_at > i64::MAX ==> r == Err::<(i64, i64), SaveError>(
            SaveError::UpdatedOutOfRange,
        ),
        created_at <= i64::MAX && updated_at <= i64::MAX ==> r == Ok::<(i64, i64), SaveError>(
            (created_at as i64, updated_at as i64),
        ),
{
    if created_at > i64::MAX as u64 {
        Err(SaveError::CreatedOutOfRange)
    } else if updated_at > i64::MAX as u64 {
        Err(SaveError::UpdatedOutOfRange)
    } else {
        Ok((created_at as i64, updated_at as i64))
    }
}

/// What an update of row `id` that changed `rows_changed` rows means: the
/// session is saved, or its row is gone when no row changed.
pub fn update_outcome(id: i64, rows_changed: usize) -> (r: Result<(), SaveError>)
    ensures
        rows_changed == 0 ==> r == Err::<(), SaveError>(SaveError::Missing { id }),
        rows_changed > 0 ==> r is Ok,
{
    if rows_changed == 0 {
        Err(SaveError::Missing { id })
    } else {
        Ok(())
    }
}

/// Every supported version is brought to the current schema: its plan holds
/// the migrations after it, ending with the last one.
pub proof fn law_plan_reaches_schema_version(version: int)
    requires
        0 <= version <= SCHEMA_VERSION,
    ensures
        migration_plan(version) matches Ok(p) && p.len() == SCHEMA_VERSION - version && (
        p.len() > 0 ==> p.last() == SCHEMA_VERSION) && (p.len() == 0 ==> version
            == SCHEMA_VERSION),
{
}

} // verus!

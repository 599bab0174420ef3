//! Explaining why migrations could not be applied.
//!
//! A checksum of every migration is recorded when it is applied, and the service refuses to
//! start if one has since changed. That is correct, and it is also the single most likely
//! thing to stop it booting. All such failures have the same fix, so it is said.

use vstd::prelude::*;

use crate::text::{join, join3, signed_decimal, to_signed_decimal};

verus! {

/// Why the recorded migrations and the files do not go together.
#[derive(Debug)]
pub enum MigrationFault {
    /// An applied migration was edited.
    VersionMismatch(i64),
    /// The file of an applied migration is gone.
    VersionMissing(i64),
    /// A migration is numbered below one that was applied.
    VersionTooOld(i64, i64),
    /// A migration was applied in part.
    Dirty(i64),
}

/// What is wrong, in a sentence.
pub open spec fn hint(fault: MigrationFault) -> Seq<char> {
    match fault {
        MigrationFault::VersionMismatch(version) => "migration "@ + signed_decimal(version as int)
            + " was already applied and has since been edited"@,
        MigrationFault::VersionMissing(version) => "migration "@ + signed_decimal(version as int)
            + " was already applied but its file is now missing or renamed"@,
        MigrationFault::VersionTooOld(version, latest) => "migration "@ + signed_decimal(
            version as int,
        ) + " is numbered below the already-applied "@ + signed_decimal(latest as int),
        MigrationFault::Dirty(version) => "migration "@ + signed_decimal(version as int)
            + " was only partially applied"@,
    }
}

/// What to do about it.
pub open spec fn remedy() -> Seq<char> {
    ".\n\nApplied migrations are checksummed, so they cannot be changed in place. Wipe the database and reapply everything from scratch:\n\n    ./reset.sh\n\nThat deletes data/ — which holds nothing but the seeded reference data and whatever you have booked while testing, all of which is recreated on the next start."@
}

/// Says what is wrong with the migrations, and what to do about it.
pub fn explain_migration_failure(fault: &MigrationFault) -> (s: String)
    ensures
        s@ == hint(*fault) + remedy(),
{
    let said = match fault {
        MigrationFault::VersionMismatch(version) => join3(
            "migration ",
            to_signed_decimal(*version).as_str(),
            " was already applied and has since been edited",
        ),
        MigrationFault::VersionMissing(version) => join3(
            "migration ",
            to_signed_decimal(*version).as_str(),
            " was already applied but its file is now missing or renamed",
        ),
        MigrationFault::VersionTooOld(version, latest) => {
            let start = join3(
                "migration ",
                to_signed_decimal(*version).as_str(),
                " is numbered below the already-applied ",
            );
            join(start.as_str(), to_signed_decimal(*latest).as_str())
        },
        MigrationFault::Dirty(version) => join3(
            "migration ",
            to_signed_decimal(*version).as_str(),
            " was only partially applied",
        ),
    };
    join(
        said.as_str(),
        ".\n\nApplied migrations are checksummed, so they cannot be changed in place. Wipe the database and reapply everything from scratch:\n\n    ./reset.sh\n\nThat deletes data/ — which holds nothing but the seeded reference data and whatever you have booked while testing, all of which is recreated on the next start.",
    )
}

/// Says that there is no migrations directory, given its path as it is quoted.
pub fn missing_directory(quoted: &str) -> (s: String)
    ensures
        s@ == "migrations directory "@ + quoted@
            + " not found — run from the workspace root, or set MIGRATIONS_DIR"@,
{
    join3(
        "migrations directory ",
        quoted,
        " not found — run from the workspace root, or set MIGRATIONS_DIR",
    )
}

} // verus!

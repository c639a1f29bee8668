//! Decisions of the configuration store.
use super::SCHEMA_VERSION;
use crate::domain::validation;
use crate::domain::validation::ValidationError;
use crate::identity;
use crate::text;
use vstd::prelude::*;
use vstd::string::*;

verus! {

#[derive(Debug)]
pub enum StoreError {
    Io(String),
    Decode(String),
    Encode(String),
    UnsupportedSchema(u32),
    InvalidRule(ValidationError),
    InvalidRules(Vec<ValidationError>),
    DurabilityUncertain(String),
}

/// The characters that `format!("{:?}")` writes for a text.
pub uninterp spec fn debug_text(value: Seq<char>) -> Seq<char>;

/// `format!("{:?}")` on a text puts it in double quotes with escapes. Which escapes is left to
/// the name `debug_text`.
#[verifier::external_body]
pub(crate) fn quoted(value: &str) -> (r: String)
    ensures
        r@ == debug_text(value@),
{
    format!("{value:?}")
}

/// A refusal as `format!("{:?}")` lays it out.
pub open spec fn refusal_debug(refusal: validation::Refusal) -> Seq<char> {
    match refusal {
        validation::Refusal::Empty { field } => "Empty { field: "@ + field.shown() + " }"@,
        validation::Refusal::SurroundingWhitespace { field } => "SurroundingWhitespace { field: "@
            + field.shown() + " }"@,
        validation::Refusal::Whitespace { field } => "Whitespace { field: "@ + field.shown()
            + " }"@,
        validation::Refusal::ControlCharacter { field } => "ControlCharacter { field: "@
            + field.shown() + " }"@,
        validation::Refusal::TooLong { field, max_characters } => "TooLong { field: "@
            + field.shown() + ", max_characters: "@ + text::decimal(max_characters) + " }"@,
        validation::Refusal::LooksLikeOption { field } => "LooksLikeOption { field: "@
            + field.shown() + " }"@,
        validation::Refusal::PortZero { field } => "PortZero { field: "@ + field.shown() + " }"@,
        validation::Refusal::InvalidBindAddress { value } => "InvalidBindAddress { value: "@
            + debug_text(value) + " }"@,
        validation::Refusal::InvalidDestinationHost { value } => "InvalidDestinationHost { value: "@
            + debug_text(value) + " }"@,
        validation::Refusal::DuplicateName { name } => "DuplicateName { name: "@ + debug_text(name)
            + " }"@,
        validation::Refusal::DuplicateLocalListener {
            address,
            port,
        } => "DuplicateLocalListener { address: "@ + debug_text(address) + ", port: "@
            + text::decimal(port as nat) + " }"@,
    }
}

fn push_debug(out: &mut String, error: &ValidationError)
    ensures
        final(out)@ == old(out)@ + refusal_debug(error@),
{
    let ghost start = out@;
    match error {
        ValidationError::Empty { field } => {
            out.append("Empty { field: ");
            out.append(field.name());
        },
        ValidationError::SurroundingWhitespace { field } => {
            out.append("SurroundingWhitespace { field: ");
            out.append(field.name());
        },
        ValidationError::Whitespace { field } => {
            out.append("Whitespace { field: ");
            out.append(field.name());
        },
        ValidationError::ControlCharacter { field } => {
            out.append("ControlCharacter { field: ");
            out.append(field.name());
        },
        ValidationError::TooLong { field, max_characters } => {
            out.append("TooLong { field: ");
            out.append(field.name());
            out.append(", max_characters: ");
            text::push_decimal(out, *max_characters as u64);
        },
        ValidationError::LooksLikeOption { field } => {
            out.append("LooksLikeOption { field: ");
            out.append(field.name());
        },
        ValidationError::PortZero { field } => {
            out.append("PortZero { field: ");
            out.append(field.name());
        },
        ValidationError::InvalidBindAddress { value } => {
            out.append("InvalidBindAddress { value: ");
            out.append(quoted(value.as_str()).as_str());
        },
        ValidationError::InvalidDestinationHost { value } => {
            out.append("InvalidDestinationHost { value: ");
            out.append(quoted(value.as_str()).as_str());
        },
        ValidationError::DuplicateName { name } => {
            out.append("DuplicateName { name: ");
            out.append(quoted(name.as_str()).as_str());
        },
        ValidationError::DuplicateLocalListener { address, port } => {
            out.append("DuplicateLocalListener { address: ");
            out.append(quoted(address.as_str()).as_str());
            out.append(", port: ");
            text::push_decimal(out, *port as u64);
        },
    }
    out.append(" }");
    assert(out@ =~= start + refusal_debug(error@));
}

/// The refusals, separated by commas.
pub open spec fn refusals_debug(errors: Seq<validation::Refusal>) -> Seq<char>
    decreases errors.len(),
{
    if errors.len() == 0 {
        Seq::empty()
    } else if errors.len() == 1 {
        refusal_debug(errors[0])
    } else {
        refusals_debug(errors.drop_last()) + ", "@ + refusal_debug(errors.last())
    }
}

/// All refusals in square brackets.
pub open spec fn rule_set_debug(errors: Seq<validation::Refusal>) -> Seq<char> {
    "["@ + refusals_debug(errors) + "]"@
}

pub fn rule_set_text(errors: &Vec<ValidationError>) -> (r: String)
    ensures
        r@ == rule_set_debug(validation::refusals(errors@)),
{
    let ghost all = validation::refusals(errors@);
    let mut out = "[".to_owned();
    let mut i: usize = 0;
    assert(all.take(0) =~= Seq::<validation::Refusal>::empty());
    while i < errors.len()
        invariant
            i <= errors@.len(),
            all == validation::refusals(errors@),
            out@ =~= "["@ + refusals_debug(all.take(i as int)),
        decreases errors.len() - i,
    {
        assert(all.take(i as int + 1).drop_last() =~= all.take(i as int));
        assert(all.take(i as int + 1).last() == errors@[i as int]@);
        if i > 0 {
            out.append(", ");
        }
        push_debug(&mut out, &errors[i]);
        i = i + 1;
    }
    assert(all.take(all.len() as int) =~= all);
    out.append("]");
    out
}

impl StoreError {
    pub open spec fn shown(self) -> Seq<char> {
        match self {
            StoreError::Io(cause) => "configuration I/O failed: "@ + cause@,
            StoreError::Decode(cause) => "invalid configuration TOML: "@ + cause@,
            StoreError::Encode(cause) => "configuration serialization failed: "@ + cause@,
            StoreError::UnsupportedSchema(version) => "unsupported schema version "@
                + text::decimal(version as nat),
            StoreError::InvalidRule(error) => "invalid rule: "@ + validation::refusal_message(
                error@,
            ),
            StoreError::InvalidRules(errors) => "invalid rule set: "@ + rule_set_debug(
                validation::refusals(errors@),
            ),
            StoreError::DurabilityUncertain(cause) =>
            "configuration was replaced, but directory sync failed: "@ + cause@,
        }
    }

    pub fn to_string(&self) -> (r: String)
        ensures
            r@ == self.shown(),
    {
        match self {
            StoreError::Io(cause) => text::joined("configuration I/O failed: ", cause.as_str()),
            StoreError::Decode(cause) => text::joined(
                "invalid configuration TOML: ",
                cause.as_str(),
            ),
            StoreError::Encode(cause) => text::joined(
                "configuration serialization failed: ",
                cause.as_str(),
            ),
            StoreError::UnsupportedSchema(version) => {
                let mut out = "unsupported schema version ".to_owned();
                text::push_decimal(&mut out, *version as u64);
                out
            },
            StoreError::InvalidRule(error) => text::joined(
                "invalid rule: ",
                error.to_string().as_str(),
            ),
            StoreError::InvalidRules(errors) => text::joined(
                "invalid rule set: ",
                rule_set_text(errors).as_str(),
            ),
            StoreError::DurabilityUncertain(cause) => text::joined(
                "configuration was replaced, but directory sync failed: ",
                cause.as_str(),
            ),
        }
    }
}

// ---------------------------------------------------------------------------
// Schema versions
// ---------------------------------------------------------------------------
pub open spec fn schema_complaint(version: u32) -> Seq<char> {
    "unsupported schema version "@ + text::decimal(version as nat) + "; expected "@ + text::decimal(
        SCHEMA_VERSION as nat,
    )
}

/// Accepts the one schema version that a configuration of rules can have.
pub fn check_schema_version(version: u32) -> (r: Result<u32, String>)
    ensures
        match r {
            Ok(accepted) => version == SCHEMA_VERSION && accepted == version,
            Err(message) => version != SCHEMA_VERSION && message@ == schema_complaint(version),
        },
{
    if version == SCHEMA_VERSION {
        Ok(version)
    } else {
        let mut out = "unsupported schema version ".to_owned();
        text::push_decimal(&mut out, version as u64);
        out.append("; expected ");
        text::push_decimal(&mut out, SCHEMA_VERSION as u64);
        Err(out)
    }
}

/// What to do with a stored configuration.
#[derive(Clone, Copy, Debug, PartialEq, Eq, Structural)]
pub enum LoadPlan {
    /// It is in the current schema.
    Decode,
    /// It is in the older schema of the migration: back it up, migrate it and store the result.
    Migrate,
}

/// A configuration in an older schema than `current` is migrated only from the version that the
/// migration is registered for. Newer schemas are never touched.
pub fn load_plan(version: u32, current: u32, source_version: u32) -> (r: Result<
    LoadPlan,
    StoreError,
>)
    ensures
        r == (if version == current {
            Ok::<LoadPlan, StoreError>(LoadPlan::Decode)
        } else if version < current && version == source_version {
            Ok(LoadPlan::Migrate)
        } else {
            Err(StoreError::UnsupportedSchema(version))
        }),
{
    if version == current {
        return Ok(LoadPlan::Decode);
    }
    if version >= current || version != source_version {
        return Err(StoreError::UnsupportedSchema(version));
    }
    Ok(LoadPlan::Migrate)
}

/// The name of the file in which a configuration is prepared.
pub fn temporary_name(id: u128) -> (r: String)
    ensures
        r@ == ".config."@ + identity::hyphenated(id) + ".tmp"@,
{
    text::joined3(".config.", identity::uuid_text(id).as_str(), ".tmp")
}

/// The name of the file that keeps a configuration in an older schema.
pub fn backup_name(version: u32, id: u128) -> (r: String)
    ensures
        r@ == "config.toml.v"@ + text::decimal(version as nat) + "."@ + identity::hyphenated(id)
            + ".bak"@,
{
    let mut out = "config.toml.v".to_owned();
    text::push_decimal(&mut out, version as u64);
    out.append(".");
    out.append(identity::uuid_text(id).as_str());
    out.append(".bak");
    out
}

/// A name for a file in which a configuration is prepared, with a new identifier in it.
pub fn new_temporary_name() -> (r: String)
    ensures
        exists|id: u128| #[trigger] identity::version_four(id) && r@ == ".config."@
            + identity::hyphenated(id) + ".tmp"@,
{
    let id: u128 = identity::random_uuid();
    let name = temporary_name(id);
    assert(identity::version_four(id));
    name
}

/// A name for the backup of a configuration in an older schema, with a new identifier in it.
pub fn new_backup_name(version: u32) -> (r: String)
    ensures
        exists|id: u128| #[trigger] identity::version_four(id) && r@ == "config.toml.v"@
            + text::decimal(version as nat) + "."@ + identity::hyphenated(id) + ".bak"@,
{
    let id: u128 = identity::random_uuid();
    let name = backup_name(version, id);
    assert(identity::version_four(id));
    name
}

// ---------------------------------------------------------------------------
// Replacing the configuration
// ---------------------------------------------------------------------------
/// The next thing to do in order to replace the configuration.
#[derive(Debug)]
pub enum ReplaceStep {
    /// Create the temporary file; it must not exist.
    Create,
    /// Write the new configuration to it.
    Write,
    /// Flush it to the disk.
    Synchronize,
    /// Open the current configuration, if there is one, to see that it is safe to replace.
    Inspect,
    /// Give the temporary file the name of the configuration.
    Rename,
    /// Flush the directory.
    SynchronizeDirectory,
    /// Remove the temporary file, whether or not that works, and end with the failure.
    Discard(String),
    Finished(Result<(), StoreError>),
}

/// How a step went.
#[derive(Debug)]
pub enum StepOutcome {
    Done,
    /// The file that was looked for does not exist.
    Missing(String),
    Failed(String),
}

pub open spec fn cause(outcome: StepOutcome) -> Seq<char> {
    match outcome {
        StepOutcome::Done => Seq::empty(),
        StepOutcome::Missing(message) => message@,
        StepOutcome::Failed(message) => message@,
    }
}

/// The step that follows `step`.
pub open spec fn replaced_by(step: ReplaceStep, outcome: StepOutcome, r: ReplaceStep) -> bool {
    match step {
        ReplaceStep::Create => if outcome is Done {
            r is Write
        } else {
            r matches ReplaceStep::Finished(Err(StoreError::Io(message))) && message@ == cause(
                outcome,
            )
        },
        ReplaceStep::Write => if outcome is Done {
            r is Synchronize
        } else {
            r matches ReplaceStep::Discard(message) && message@ == cause(outcome)
        },
        ReplaceStep::Synchronize => if outcome is Done {
            r is Inspect
        } else {
            r matches ReplaceStep::Discard(message) && message@ == cause(outcome)
        },
        ReplaceStep::Inspect => if outcome is Failed {
            r matches ReplaceStep::Discard(message) && message@ == cause(outcome)
        } else {
            r is Rename
        },
        ReplaceStep::Rename => if outcome is Done {
            r is SynchronizeDirectory
        } else {
            r matches ReplaceStep::Discard(message) && message@ == cause(outcome)
        },
        ReplaceStep::SynchronizeDirectory => if outcome is Done {
            r matches ReplaceStep::Finished(Ok(_))
        } else {
            r matches ReplaceStep::Finished(Err(StoreError::DurabilityUncertain(message)))
                && message@ == cause(outcome)
        },
        ReplaceStep::Discard(message) => r == ReplaceStep::Finished(Err(StoreError::Io(message))),
        ReplaceStep::Finished(result) => r == ReplaceStep::Finished(result),
    }
}

fn message_of(outcome: StepOutcome) -> (r: String)
    ensures
        r@ == cause(outcome),
{
    match outcome {
        StepOutcome::Done => String::new(),
        StepOutcome::Missing(message) => message,
        StepOutcome::Failed(message) => message,
    }
}

/// Decides how a replacement goes on after `step` had `outcome`.
pub fn replace_next(step: ReplaceStep, outcome: StepOutcome) -> (r: ReplaceStep)
    ensures
        replaced_by(step, outcome, r),
{
    match step {
        ReplaceStep::Create => match outcome {
            StepOutcome::Done => ReplaceStep::Write,
            _ => ReplaceStep::Finished(Err(StoreError::Io(message_of(outcome)))),
        },
        ReplaceStep::Write => match outcome {
            StepOutcome::Done => ReplaceStep::Synchronize,
            _ => ReplaceStep::Discard(message_of(outcome)),
        },
        ReplaceStep::Synchronize => match outcome {
            StepOutcome::Done => ReplaceStep::Inspect,
            _ => ReplaceStep::Discard(message_of(outcome)),
        },
        ReplaceStep::Inspect => match outcome {
            StepOutcome::Failed(message) => ReplaceStep::Discard(message),
            _ => ReplaceStep::Rename,
        },
        ReplaceStep::Rename => match outcome {
            StepOutcome::Done => ReplaceStep::SynchronizeDirectory,
            _ => ReplaceStep::Discard(message_of(outcome)),
        },
        ReplaceStep::SynchronizeDirectory => match outcome {
            StepOutcome::Done => ReplaceStep::Finished(Ok(())),
            _ => ReplaceStep::Finished(Err(StoreError::DurabilityUncertain(message_of(outcome)))),
        },
        ReplaceStep::Discard(message) => ReplaceStep::Finished(Err(StoreError::Io(message))),
        ReplaceStep::Finished(result) => ReplaceStep::Finished(result),
    }
}

/// What the directory holds: the configuration and the file that a new one is prepared in.
pub struct Directory {
    pub config: Option<Seq<u8>>,
    pub temporary: Option<Seq<u8>>,
}

/// What a step may do to the directory. Only a rename that worked touches the configuration.
pub open spec fn step_effect(
    step: ReplaceStep,
    outcome: StepOutcome,
    bytes: Seq<u8>,
    before: Directory,
    after: Directory,
) -> bool {
    match step {
        ReplaceStep::Create => after.config == before.config && (outcome is Done
            ==> after.temporary == Some(Seq::<u8>::empty())),
        ReplaceStep::Write => after.config == before.config && (outcome is Done ==> after.temporary
            == Some(bytes)),
        ReplaceStep::Rename => if outcome is Done {
            after.config == before.temporary && after.temporary is None
        } else {
            after == before
        },
        ReplaceStep::Discard(_) => after.config == before.config,
        _ => after == before,
    }
}

/// What is true of the directory before `step`, when `original` was stored at the start.
pub open spec fn safe_to_go_on(
    step: ReplaceStep,
    bytes: Seq<u8>,
    original: Option<Seq<u8>>,
    now: Directory,
) -> bool {
    match step {
        ReplaceStep::Create | ReplaceStep::Write | ReplaceStep::Discard(_) => now.config
            == original,
        ReplaceStep::Synchronize | ReplaceStep::Inspect | ReplaceStep::Rename => now.config
            == original && now.temporary == Some(bytes),
        ReplaceStep::SynchronizeDirectory => now.config == Some(bytes),
        ReplaceStep::Finished(Ok(_)) => now.config == Some(bytes),
        ReplaceStep::Finished(Err(StoreError::DurabilityUncertain(_))) => now.config == Some(bytes),
        ReplaceStep::Finished(Err(_)) => now.config == original,
    }
}

/// A replacement is all or nothing, whichever step fails: it keeps the invariant that at the
/// end the stored configuration is the new one, complete, if the replacement worked or only the
/// last flush failed, and the original one after every other failure.
pub proof fn replacement_is_atomic(
    step: ReplaceStep,
    outcome: StepOutcome,
    following: ReplaceStep,
    bytes: Seq<u8>,
    original: Option<Seq<u8>>,
    before: Directory,
    after: Directory,
)
    requires
        safe_to_go_on(step, bytes, original, before),
        step_effect(step, outcome, bytes, before, after),
        replaced_by(step, outcome, following),
    ensures
        safe_to_go_on(following, bytes, original, after),
{
}

// ---------------------------------------------------------------------------
// Migrating the configuration
// ---------------------------------------------------------------------------
/// The next thing to do in order to migrate the configuration.
#[derive(Debug)]
pub enum MigrationStep {
    /// Create the backup; it must not exist.
    CreateBackup,
    /// Write the original configuration to it.
    WriteBackup,
    /// Flush it to the disk.
    SynchronizeBackup,
    /// Flush the directory.
    SynchronizeDirectory,
    /// Remove the backup, whether or not that works, and end with the failure.
    DiscardBackup(StoreError),
    /// Convert the original configuration and check the rules that come out.
    Convert,
    /// Replace the original configuration by the converted one.
    Replace,
    Finished(Result<(), StoreError>),
}

/// The step that follows `step`. Nothing is converted before the backup is safe on the disk, and
/// from then on the backup stays.
pub open spec fn migrated_by(
    step: MigrationStep,
    outcome: Result<(), StoreError>,
) -> MigrationStep {
    match step {
        MigrationStep::CreateBackup => match outcome {
            Ok(_) => MigrationStep::WriteBackup,
            Err(error) => MigrationStep::Finished(Err(error)),
        },
        MigrationStep::WriteBackup => match outcome {
            Ok(_) => MigrationStep::SynchronizeBackup,
            Err(error) => MigrationStep::DiscardBackup(error),
        },
        MigrationStep::SynchronizeBackup => match outcome {
            Ok(_) => MigrationStep::SynchronizeDirectory,
            Err(error) => MigrationStep::DiscardBackup(error),
        },
        MigrationStep::SynchronizeDirectory => match outcome {
            Ok(_) => MigrationStep::Convert,
            Err(error) => MigrationStep::DiscardBackup(error),
        },
        MigrationStep::DiscardBackup(error) => MigrationStep::Finished(Err(error)),
        MigrationStep::Convert => match outcome {
            Ok(_) => MigrationStep::Replace,
            Err(error) => MigrationStep::Finished(Err(error)),
        },
        MigrationStep::Replace => MigrationStep::Finished(outcome),
        MigrationStep::Finished(result) => MigrationStep::Finished(result),
    }
}

/// Decides how a migration goes on after `step` had `outcome`.
pub fn migrate_next(step: MigrationStep, outcome: Result<(), StoreError>) -> (r: MigrationStep)
    ensures
        r == migrated_by(step, outcome),
{
    match step {
        MigrationStep::CreateBackup => match outcome {
            Ok(_) => MigrationStep::WriteBackup,
            Err(error) => MigrationStep::Finished(Err(error)),
        },
        MigrationStep::WriteBackup => match outcome {
            Ok(_) => MigrationStep::SynchronizeBackup,
            Err(error) => MigrationStep::DiscardBackup(error),
        },
        MigrationStep::SynchronizeBackup => match outcome {
            Ok(_) => MigrationStep::SynchronizeDirectory,
            Err(error) => MigrationStep::DiscardBackup(error),
        },
        MigrationStep::SynchronizeDirectory => match outcome {
            Ok(_) => MigrationStep::Convert,
            Err(error) => MigrationStep::DiscardBackup(error),
        },
        MigrationStep::DiscardBackup(error) => MigrationStep::Finished(Err(error)),
        MigrationStep::Convert => match outcome {
            Ok(_) => MigrationStep::Replace,
            Err(error) => MigrationStep::Finished(Err(error)),
        },
        MigrationStep::Replace => MigrationStep::Finished(outcome),
        MigrationStep::Finished(result) => MigrationStep::Finished(result),
    }
}

/// What the directory holds during a migration: the configuration and its backup.
pub struct Archive {
    pub config: Option<Seq<u8>>,
    pub backup: Option<Seq<u8>>,
}

/// What a step may do to the directory. Replacing is all or nothing, and a replacement whose
/// durability is uncertain has taken place.
pub open spec fn migration_effect(
    step: MigrationStep,
    outcome: Result<(), StoreError>,
    original: Seq<u8>,
    converted: Seq<u8>,
    before: Archive,
    after: Archive,
) -> bool {
    match step {
        MigrationStep::CreateBackup | MigrationStep::DiscardBackup(_) => after.config
            == before.config,
        MigrationStep::WriteBackup => after.config == before.config && (outcome is Ok
            ==> after.backup == Some(original)),
        MigrationStep::Replace => after.backup == before.backup && (match outcome {
            Ok(_) | Err(StoreError::DurabilityUncertain(_)) => after.config == Some(converted),
            Err(_) => after.config == before.config,
        }),
        _ => after == before,
    }
}

/// What is true of the directory before `step`.
pub open spec fn nothing_is_lost(
    step: MigrationStep,
    original: Seq<u8>,
    converted: Seq<u8>,
    now: Archive,
) -> bool {
    match step {
        MigrationStep::CreateBackup
        | MigrationStep::WriteBackup
        | MigrationStep::DiscardBackup(_) => now.config == Some(original),
        MigrationStep::Finished(Ok(_)) => now.config == Some(converted) && now.backup == Some(
            original,
        ),
        MigrationStep::Finished(Err(_)) => now.config == Some(original) || (now.config == Some(
            converted,
        ) && now.backup == Some(original)),
        _ => now.config == Some(original) && now.backup == Some(original),
    }
}

/// A migration never loses the original configuration, whichever step fails: it stays in place
/// until it stands in the backup, and a conversion that is refused leaves it in both.
pub proof fn migration_keeps_the_original(
    step: MigrationStep,
    outcome: Result<(), StoreError>,
    original: Seq<u8>,
    converted: Seq<u8>,
    before: Archive,
    after: Archive,
)
    requires
        nothing_is_lost(step, original, converted, before),
        migration_effect(step, outcome, original, converted, before, after),
    ensures
        nothing_is_lost(migrated_by(step, outcome), original, converted, after),
        step is Convert && outcome is Err ==> after.config == Some(original) && after.backup
            == Some(original),
{
}

/// A replacement that goes well creates, writes and synchronizes a new file, looks at the old one,
/// renames, and synchronizes the directory, in this order. Then it is finished.
pub proof fn replacements_go_through_all_steps(r: ReplaceStep)
    ensures
        replaced_by(ReplaceStep::Create, StepOutcome::Done, r) <==> r is Write,
        replaced_by(ReplaceStep::Write, StepOutcome::Done, r) <==> r is Synchronize,
        replaced_by(ReplaceStep::Synchronize, StepOutcome::Done, r) <==> r is Inspect,
        replaced_by(ReplaceStep::Inspect, StepOutcome::Done, r) <==> r is Rename,
        replaced_by(ReplaceStep::Rename, StepOutcome::Done, r) <==> r is SynchronizeDirectory,
        replaced_by(ReplaceStep::SynchronizeDirectory, StepOutcome::Done, r) <==> r
            matches ReplaceStep::Finished(Ok(_)),
{
}

/// A replacement that fails before the new file is in place discards it and reports the cause. An
/// old file that is missing is no failure. Once the new file is in place, a failure leaves only its
/// durability uncertain.
pub proof fn failed_replacements_leave_nothing_behind(
    step: ReplaceStep,
    outcome: StepOutcome,
    r: ReplaceStep,
    message: String,
)
    requires
        replaced_by(step, outcome, r),
    ensures
        step is Create && !(outcome is Done) ==> (r matches ReplaceStep::Finished(
            Err(StoreError::Io(told)),
        ) && told@ == cause(outcome)),
        (step is Write || step is Synchronize || step is Rename) && !(outcome is Done) ==> (
        r matches ReplaceStep::Discard(told) && told@ == cause(outcome)),
        step is Inspect && outcome is Missing ==> r is Rename,
        step is Inspect && outcome is Failed ==> (r matches ReplaceStep::Discard(told) && told@
            == cause(outcome)),
        step is SynchronizeDirectory && !(outcome is Done) ==> (r matches ReplaceStep::Finished(
            Err(StoreError::DurabilityUncertain(told)),
        ) && told@ == cause(outcome)),
        step == ReplaceStep::Discard(message) ==> r == ReplaceStep::Finished(
            Err(StoreError::Io(message)),
        ),
        step is Finished ==> r == step,
        outcome matches StepOutcome::Failed(told) ==> cause(outcome) == told@,
        outcome matches StepOutcome::Missing(told) ==> cause(outcome) == told@,
{
}

/// A migration that goes well backs up first: it creates, writes and synchronizes the backup and
/// its directory. Only then does it convert, and then replace.
pub proof fn migrations_back_up_first()
    ensures
        migrated_by(MigrationStep::CreateBackup, Ok(())) is WriteBackup,
        migrated_by(MigrationStep::WriteBackup, Ok(())) is SynchronizeBackup,
        migrated_by(MigrationStep::SynchronizeBackup, Ok(())) is SynchronizeDirectory,
        migrated_by(MigrationStep::SynchronizeDirectory, Ok(())) is Convert,
        migrated_by(MigrationStep::Convert, Ok(())) is Replace,
        migrated_by(MigrationStep::Replace, Ok(())) == MigrationStep::Finished(Ok(())),
{
}

/// A backup that could not be finished is discarded, and one that was finished stays. Either way
/// the error that stopped the migration is the one that is reported.
pub proof fn failed_migrations_report_their_error(
    step: MigrationStep,
    error: StoreError,
    outcome: Result<(), StoreError>,
)
    ensures
        step is CreateBackup || step is Convert || step is Replace ==> migrated_by(step, Err(error))
            == MigrationStep::Finished(Err(error)),
        step is WriteBackup || step is SynchronizeBackup || step is SynchronizeDirectory
            ==> migrated_by(step, Err(error)) == MigrationStep::DiscardBackup(error),
        migrated_by(MigrationStep::DiscardBackup(error), outcome) == MigrationStep::Finished(
            Err(error),
        ),
        step is Finished ==> migrated_by(step, outcome) == step,
{
}

/// Errors of the store say what failed.
pub proof fn store_errors_say_what_failed(error: StoreError)
    ensures
        match error {
            StoreError::Io(cause) => error.shown() == "configuration I/O failed: "@ + cause@,
            StoreError::Decode(cause) => error.shown() == "invalid configuration TOML: "@ + cause@,
            StoreError::Encode(cause) => error.shown() == "configuration serialization failed: "@
                + cause@,
            StoreError::UnsupportedSchema(version) => error.shown()
                == "unsupported schema version "@ + text::decimal(version as nat),
            StoreError::InvalidRule(refusal) => error.shown() == "invalid rule: "@
                + validation::refusal_message(refusal@),
            StoreError::InvalidRules(errors) => error.shown() == "invalid rule set: "@
                + rule_set_debug(validation::refusals(errors@)),
            StoreError::DurabilityUncertain(cause) => error.shown()
                == "configuration was replaced, but directory sync failed: "@ + cause@,
        },
{
}

/// A schema that cannot be read is named, and so is the one that can.
pub proof fn schema_complaints_name_both_versions(version: u32)
    ensures
        schema_complaint(version) == "unsupported schema version "@ + text::decimal(version as nat)
            + "; expected "@ + text::decimal(1),
{
}

/// All refusals of a set of rules are listed in their order, in square brackets and with commas
/// between them.
pub proof fn refusals_are_listed_in_order(
    errors: Seq<validation::Refusal>,
    refusal: validation::Refusal,
)
    ensures
        rule_set_debug(Seq::empty()) == "["@ + Seq::<char>::empty() + "]"@,
        rule_set_debug(seq![refusal]) == "["@ + refusal_debug(refusal) + "]"@,
        errors.len() > 0 ==> refusals_debug(errors.push(refusal)) == refusals_debug(errors) + ", "@
            + refusal_debug(refusal),
{
    assert(errors.push(refusal).drop_last() =~= errors);
}

/// A refusal is laid out with the name of its kind and its fields.
pub proof fn refusals_are_laid_out(field: validation::Field, value: Seq<char>, number: nat, port: u16)
    ensures
        refusal_debug(validation::Refusal::DuplicateName { name: value })
            == "DuplicateName { name: "@ + debug_text(value) + " }"@,
        refusal_debug(validation::Refusal::DuplicateLocalListener { address: value, port })
            == "DuplicateLocalListener { address: "@ + debug_text(value) + ", port: "@
            + text::decimal(port as nat) + " }"@,
        refusal_debug(validation::Refusal::Empty { field }) == "Empty { field: "@ + field.shown()
            + " }"@,
        refusal_debug(validation::Refusal::SurroundingWhitespace { field })
            == "SurroundingWhitespace { field: "@ + field.shown() + " }"@,
        refusal_debug(validation::Refusal::Whitespace { field }) == "Whitespace { field: "@
            + field.shown() + " }"@,
        refusal_debug(validation::Refusal::ControlCharacter { field })
            == "ControlCharacter { field: "@ + field.shown() + " }"@,
        refusal_debug(validation::Refusal::TooLong { field, max_characters: number })
            == "TooLong { field: "@ + field.shown() + ", max_characters: "@ + text::decimal(number)
            + " }"@,
        refusal_debug(validation::Refusal::LooksLikeOption { field })
            == "LooksLikeOption { field: "@ + field.shown() + " }"@,
        refusal_debug(validation::Refusal::PortZero { field }) == "PortZero { field: "@
            + field.shown() + " }"@,
        refusal_debug(validation::Refusal::InvalidBindAddress { value })
            == "InvalidBindAddress { value: "@ + debug_text(value) + " }"@,
        refusal_debug(validation::Refusal::InvalidDestinationHost { value })
            == "InvalidDestinationHost { value: "@ + debug_text(value) + " }"@,
{
}

} // verus!

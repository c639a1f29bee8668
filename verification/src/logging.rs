//! A bounded application log with a fixed number of older generations.
use crate::config::LogLevel;
use crate::path;
use crate::text;
use vstd::prelude::*;
use vstd::string::*;

verus! {

pub const DEFAULT_MAX_BYTES: u64 = 1048576;

pub const DEFAULT_BACKUPS: usize = 3;

/// Characters that would break a record apart become spaces.
pub open spec fn flat(c: char) -> char {
    if c == '\n' || c == '\r' || c == '\t' {
        ' '
    } else {
        c
    }
}

pub open spec fn flattened(s: Seq<char>) -> Seq<char> {
    s.map_values(|c: char| flat(c))
}

/// A record: level and message, with a tab between them, on a line of their own.
pub open spec fn record(level: Seq<char>, message: Seq<char>) -> Seq<char> {
    flattened(level).push('\t') + flattened(message).push('\n')
}

pub fn single_line(value: &str) -> (r: String)
    ensures
        r@ == flattened(value@),
{
    let chars = text::chars_of(value);
    let mut out = String::new();
    let mut i: usize = 0;
    while i < chars.len()
        invariant
            i <= chars@.len(),
            chars@ == value@,
            out@ =~= flattened(value@.take(i as int)),
        decreases chars.len() - i,
    {
        let c = chars[i];
        out.push(
            if c == '\n' || c == '\r' || c == '\t' {
                ' '
            } else {
                c
            },
        );
        assert(flattened(value@.take(i as int + 1)) =~= flattened(value@.take(i as int)).push(
            flat(value@[i as int]),
        ));
        i = i + 1;
    }
    assert(value@.take(value@.len() as int) =~= value@);
    out
}

/// A record is one line: its only line feed is its last character, and its only tab separates
/// the level from the message.
pub proof fn record_is_one_line(level: Seq<char>, message: Seq<char>, i: int)
    requires
        0 <= i < record(level, message).len(),
    ensures
        record(level, message)[i] == '\n' <==> i == record(level, message).len() - 1,
        record(level, message)[i] == '\t' <==> i == level.len(),
        record(level, message)[i] != '\r',
{
    let r = record(level, message);
    assert(flattened(level).len() == level.len());
    if i < level.len() {
        assert(r[i] == flat(level[i]));
    } else if i > level.len() && i < r.len() - 1 {
        assert(r[i] == flat(message[i - level.len() - 1]));
    }
}

/// What is to be written for a message.
pub fn record_line(level: &str, message: &str) -> (r: String)
    ensures
        r@ == record(level@, message@),
{
    let mut out = single_line(level);
    out.push('\t');
    out.append(single_line(message).as_str());
    out.push('\n');
    assert(out@ =~= record(level@, message@));
    out
}

/// What to do with a record of `length` bytes.
#[derive(Clone, Copy, Debug, PartialEq, Eq, Structural)]
pub enum WritePlan {
    Append,
    RotateAndAppend,
    Refuse,
}

pub open spec fn planned(length: int, current: Option<u64>, max_bytes: u64) -> WritePlan {
    if length > max_bytes {
        WritePlan::Refuse
    } else {
        match current {
            Some(size) => if size + length > max_bytes {
                WritePlan::RotateAndAppend
            } else {
                WritePlan::Append
            },
            None => WritePlan::Append,
        }
    }
}

/// Decides how a record of `length` bytes is written to a log of `current` bytes, which may not
/// exist yet. No log file ever grows beyond `max_bytes`.
pub fn plan_write(length: usize, current: Option<u64>, max_bytes: u64) -> (r: WritePlan)
    ensures
        r == planned(length as int, current, max_bytes),
{
    let length: u64 = length as u64;
    if length > max_bytes {
        return WritePlan::Refuse;
    }
    match current {
        Some(size) => if size > max_bytes - length {
            WritePlan::RotateAndAppend
        } else {
            WritePlan::Append
        },
        None => WritePlan::Append,
    }
}

/// After a record is written as planned, the log is within its bound.
pub proof fn log_stays_bounded(length: int, current: Option<u64>, max_bytes: u64)
    requires
        length >= 0,
    ensures
        match planned(length, current, max_bytes) {
            WritePlan::Append => (match current {
                Some(size) => size as int,
                None => 0,
            }) + length <= max_bytes,
            WritePlan::RotateAndAppend => length <= max_bytes,
            WritePlan::Refuse => length > max_bytes,
        },
{
}

/// The name of an older generation of the log.
pub open spec fn numbered(name: Seq<u8>, index: nat) -> Seq<u8> {
    name + path::bytes("."@ + text::decimal(index))
}

pub fn rotated_name(name: &[u8], index: usize) -> (r: Vec<u8>)
    ensures
        r@ == numbered(name@, index as nat),
{
    let mut out = path::copied(name);
    let mut suffix = ".".to_owned();
    text::push_decimal(&mut suffix, index as u64);
    path::push_bytes(&mut out, suffix.as_str().as_bytes());
    out
}

/// The name of a generation: the log itself is generation 0.
pub fn generation_name(name: &[u8], index: usize) -> (r: Vec<u8>)
    ensures
        r@ == (if index == 0 {
            name@
        } else {
            numbered(name@, index as nat)
        }),
{
    if index == 0 {
        path::copied(name)
    } else {
        rotated_name(name, index)
    }
}

/// How much a level lets through: errors least, traces most.
pub open spec fn verbosity(level: LogLevel) -> int {
    match level {
        LogLevel::Error => 0,
        LogLevel::Warn => 1,
        LogLevel::Info => 2,
        LogLevel::Debug => 3,
        LogLevel::Trace => 4,
    }
}

fn rank(level: LogLevel) -> (r: u8)
    ensures
        r == verbosity(level),
{
    match level {
        LogLevel::Error => 0,
        LogLevel::Warn => 1,
        LogLevel::Info => 2,
        LogLevel::Debug => 3,
        LogLevel::Trace => 4,
    }
}

/// Whether records of `level` are written under this setting.
pub fn is_written(level: LogLevel, setting: LogLevel) -> (r: bool)
    ensures
        r == (verbosity(level) <= verbosity(setting)),
{
    rank(level) <= rank(setting)
}

/// One step of a rotation, on generations. A file that does not exist is passed over.
#[derive(Clone, Copy, Debug, PartialEq, Eq, Structural)]
pub enum RotateAction {
    Remove(usize),
    Rename { from: usize, to: usize },
    Synchronize,
}

/// What each generation holds after one step.
pub open spec fn rotate_step<T>(files: Seq<Option<T>>, action: RotateAction) -> Seq<Option<T>> {
    match action {
        RotateAction::Remove(i) => files.update(i as int, None),
        RotateAction::Rename { from, to } => if files[from as int] is Some {
            files.update(to as int, files[from as int]).update(from as int, None)
        } else {
            files
        },
        RotateAction::Synchronize => files,
    }
}

pub open spec fn rotate_all<T>(files: Seq<Option<T>>, actions: Seq<RotateAction>) -> Seq<Option<T>>
    decreases actions.len(),
{
    if actions.len() == 0 {
        files
    } else {
        rotate_step(rotate_all(files, actions.drop_last()), actions.last())
    }
}

/// What a rotation does to a log with `backups` older generations: the oldest goes, every other
/// one grows older, and there is room for a new log.
pub open spec fn rotated<T>(files: Seq<Option<T>>) -> Seq<Option<T>> {
    Seq::new(
        files.len(),
        |i: int|
            if i == 0 {
                None
            } else {
                files[i - 1]
            },
    )
}

/// The steps of a rotation: remove the oldest generation, then move each of the others by one,
/// the older ones first.
pub open spec fn rotation(backups: nat) -> Seq<RotateAction> {
    if backups == 0 {
        seq![RotateAction::Remove(0)]
    } else {
        (seq![RotateAction::Remove(backups as usize)] + moves(backups, backups)).push(
            RotateAction::Synchronize,
        )
    }
}

/// The first `count` moves.
pub open spec fn moves(backups: nat, count: nat) -> Seq<RotateAction>
    decreases count,
{
    if count == 0 {
        Seq::empty()
    } else {
        moves(backups, (count - 1) as nat).push(
            RotateAction::Rename {
                from: (backups - count) as usize,
                to: (backups - count + 1) as usize,
            },
        )
    }
}

pub fn rotation_plan(backups: usize) -> (r: Vec<RotateAction>)
    ensures
        r@ == rotation(backups as nat),
{
    let mut out: Vec<RotateAction> = Vec::new();
    if backups == 0 {
        out.push(RotateAction::Remove(0));
        assert(out@ =~= rotation(0));
        return out;
    }
    out.push(RotateAction::Remove(backups));
    let mut index: usize = backups;
    while index > 0
        invariant
            0 <= index <= backups,
            out@ =~= seq![RotateAction::Remove(backups)] + moves(
                backups as nat,
                (backups - index) as nat,
            ),
        decreases index,
    {
        out.push(RotateAction::Rename { from: index - 1, to: index });
        index = index - 1;
    }
    out.push(RotateAction::Synchronize);
    out
}

proof fn moves_shift<T>(files: Seq<Option<T>>, backups: nat, count: nat)
    requires
        files.len() == backups + 1,
        0 < backups <= usize::MAX,
        count <= backups,
    ensures
        ({
            let now = rotate_all(
                files,
                seq![RotateAction::Remove(backups as usize)] + moves(backups, count),
            );
            &&& now.len() == files.len()
            &&& forall|i: int| 0 <= i < backups - count ==> now[i] == files[i]
            &&& now[backups - count] is None
            &&& forall|i: int| backups - count < i <= backups ==> now[i] == files[i - 1]
        }),
    decreases count,
{
    let start = seq![RotateAction::Remove(backups as usize)];
    if count == 0 {
        assert(start + moves(backups, 0) =~= start);
        assert(start.drop_last() =~= Seq::<RotateAction>::empty());
        reveal_with_fuel(rotate_all, 2);
    } else {
        moves_shift(files, backups, (count - 1) as nat);
        let before = start + moves(backups, (count - 1) as nat);
        let all = start + moves(backups, count);
        assert(all.drop_last() =~= before);
        assert(all.last() == moves(backups, count).last());
    }
}

/// A rotation keeps every generation but the oldest, each one step older.
pub proof fn rotation_shifts_generations<T>(files: Seq<Option<T>>)
    requires
        1 <= files.len() <= usize::MAX,
    ensures
        rotate_all(files, rotation((files.len() - 1) as nat)) == rotated(files),
{
    let backups = (files.len() - 1) as nat;
    if backups == 0 {
        let plan = rotation(0);
        assert(plan.drop_last() =~= Seq::<RotateAction>::empty());
        reveal_with_fuel(rotate_all, 2);
        assert(rotate_all(files, plan) =~= rotated(files));
    } else {
        moves_shift(files, backups, backups);
        let plan = rotation(backups);
        assert(plan.drop_last() =~= seq![RotateAction::Remove(backups as usize)] + moves(
            backups,
            backups,
        ));
        assert(rotate_all(files, plan) =~= rotated(files));
    }
}

/// Line feeds, carriage returns and tabs become spaces, and no other character changes.
pub proof fn only_separators_are_flattened(s: Seq<char>, i: int)
    requires
        0 <= i < s.len(),
    ensures
        flattened(s).len() == s.len(),
        s[i] == '\n' || s[i] == '\r' || s[i] == '\t' ==> flattened(s)[i] == ' ',
        s[i] != '\n' && s[i] != '\r' && s[i] != '\t' ==> flattened(s)[i] == s[i],
{
}

/// A record is the level, then the message.
pub proof fn records_name_their_level(level: Seq<char>, message: Seq<char>)
    ensures
        record(level, message).len() == level.len() + message.len() + 2,
        record(level, message).take(level.len() as int) == flattened(level),
        record(level, message).subrange(
            level.len() as int + 1,
            level.len() as int + 1 + message.len(),
        ) == flattened(message),
{
    let r = record(level, message);
    assert(r.take(level.len() as int) =~= flattened(level));
    assert(r.subrange(level.len() as int + 1, level.len() as int + 1 + message.len())
        =~= flattened(message));
}

/// A record that can be in the log is written, and the log is rotated exactly if it would grow too
/// large otherwise. Only a record that is too large by itself is refused.
pub proof fn logs_are_rotated_when_full(length: int, current: Option<u64>, max_bytes: u64)
    requires
        length >= 0,
    ensures
        planned(length, current, max_bytes) == WritePlan::Refuse <==> length > max_bytes,
        planned(length, current, max_bytes) == WritePlan::RotateAndAppend <==> length <= max_bytes
            && current is Some && current->0 + length > max_bytes,
{
}

/// Messages of a level are let through by its own setting and by every more talkative one.
pub proof fn settings_let_more_severe_levels_through(level: LogLevel)
    ensures
        verbosity(LogLevel::Error) < verbosity(LogLevel::Warn) < verbosity(LogLevel::Info)
            < verbosity(LogLevel::Debug) < verbosity(LogLevel::Trace),
        verbosity(LogLevel::Error) <= verbosity(level) <= verbosity(LogLevel::Trace),
{
}

/// What a rotation leaves: no current log, and every generation one older. The oldest is gone.
pub proof fn generations_grow_older<T>(files: Seq<Option<T>>, i: int)
    requires
        0 <= i < files.len() <= usize::MAX,
    ensures
        ({
            let after = rotate_all(files, rotation((files.len() - 1) as nat));
            &&& after.len() == files.len()
            &&& after[0] is None
            &&& i > 0 ==> after[i] == files[i - 1]
        }),
{
    rotation_shifts_generations(files);
}

/// An older generation has the name of the log, a dot and its number.
pub proof fn generations_are_numbered(name: Seq<u8>, index: nat)
    ensures
        numbered(name, index).take(name.len() as int) == name,
        numbered(name, index).skip(name.len() as int) == path::bytes("."@ + text::decimal(index)),
        DEFAULT_MAX_BYTES == 1024 * 1024,
        DEFAULT_BACKUPS == 3,
{
    assert(numbered(name, index).take(name.len() as int) =~= name);
    assert(numbered(name, index).skip(name.len() as int) =~= path::bytes(
        "."@ + text::decimal(index),
    ));
}

} // verus!

//! When files and directories are private enough to be used.
use crate::text;
use vstd::prelude::*;
use vstd::string::*;

verus! {

#[derive(Clone, Copy, Debug, PartialEq, Eq, Structural)]
pub enum FileKind {
    File,
    Directory,
    Socket,
    Other,
}

/// What the operating system says of a file, without following a symbolic link.
#[derive(Clone, Copy, Debug, PartialEq, Eq, Structural)]
pub struct FileFacts {
    pub uid: u32,
    pub mode: u32,
    pub kind: FileKind,
    pub links: u64,
}

/// Owned by the user and closed to everybody else: a directory with mode 700, or a regular file
/// with mode 600 and no second name.
pub open spec fn private(facts: FileFacts, uid: u32, directory: bool) -> bool {
    &&& facts.uid == uid
    &&& facts.mode & 0o7777 == (if directory {
        0o700u32
    } else {
        0o600u32
    })
    &&& if directory {
        facts.kind == FileKind::Directory
    } else {
        facts.kind == FileKind::File && facts.links == 1
    }
}

pub fn check(facts: &FileFacts, uid: u32, directory: bool) -> (r: Result<(), &'static str>)
    ensures
        match r {
            Ok(_) => private(*facts, uid, directory),
            Err(message) => !private(*facts, uid, directory) && message@
                == "unsafe file type, ownership, permissions, or hard links"@,
        },
{
    let mode: u32 = if directory {
        0o700
    } else {
        0o600
    };
    let wrong_kind = if directory {
        facts.kind != FileKind::Directory
    } else {
        facts.kind != FileKind::File || facts.links != 1
    };
    if facts.uid != uid || facts.mode & 0o7777 != mode || wrong_kind {
        return Err("unsafe file type, ownership, permissions, or hard links");
    }
    Ok(())
}

/// One file name: it cannot lead out of its directory.
pub open spec fn file_name(s: Seq<char>) -> bool {
    &&& s.len() > 0
    &&& s != "."@
    &&& s != ".."@
    &&& !s.contains('/')
}

pub fn component(name: &str) -> (r: Result<(), &'static str>)
    ensures
        match r {
            Ok(_) => file_name(name@) && !name@.contains('\0'),
            Err(message) => if file_name(name@) {
                name@.contains('\0') && message@ == "invalid file name"@
            } else {
                message@ == "expected one file name"@
            },
        },
{
    let chars = text::chars_of(name);
    if chars.len() == 0 || text::same(name, ".") || text::same(name, "..") || text::has_char(
        chars.as_slice(),
        '/',
    ) {
        return Err("expected one file name");
    }
    if text::has_char(chars.as_slice(), '\0') {
        return Err("invalid file name");
    }
    Ok(())
}

/// What to do about a directory that the application needs.
#[derive(Clone, Copy, Debug, PartialEq, Eq, Structural)]
pub enum DirectoryPlan {
    /// It is there.
    Use,
    /// It has to be created, after the directory above it.
    Create,
}

/// What looking up a path gave.
#[derive(Debug)]
pub enum FileLookup {
    Found(FileFacts),
    NotFound,
    Failed(String),
}

/// A symbolic link or a file where a directory is needed is refused.
pub fn directory_plan(lookup: &FileLookup) -> (r: Result<DirectoryPlan, String>)
    ensures
        match r {
            Ok(DirectoryPlan::Use) => lookup matches FileLookup::Found(facts) && facts.kind
                == FileKind::Directory,
            Ok(DirectoryPlan::Create) => lookup is NotFound,
            Err(message) => match lookup {
                FileLookup::Found(facts) => facts.kind != FileKind::Directory && message@
                    == "application directory is not a directory or is a symlink"@,
                FileLookup::NotFound => false,
                FileLookup::Failed(cause) => message@ == cause@,
            },
        },
{
    match lookup {
        FileLookup::Found(facts) => if facts.kind == FileKind::Directory {
            Ok(DirectoryPlan::Use)
        } else {
            Err("application directory is not a directory or is a symlink".to_owned())
        },
        FileLookup::NotFound => Ok(DirectoryPlan::Create),
        FileLookup::Failed(cause) => Err(cause.clone()),
    }
}

/// Another user's file is never private, nor is one that anybody else may open. A file with a
/// second name, a socket and anything else that is no regular file is not private either.
pub proof fn private_means_private(facts: FileFacts, uid: u32)
    ensures
        facts.uid != uid ==> !private(facts, uid, true) && !private(facts, uid, false),
        facts.mode & 0o7777 != 0o700 ==> !private(facts, uid, true),
        facts.mode & 0o7777 != 0o600 ==> !private(facts, uid, false),
        facts.links != 1 ==> !private(facts, uid, false),
        facts.kind != FileKind::File ==> !private(facts, uid, false),
        facts.kind != FileKind::Directory ==> !private(facts, uid, true),
        facts.uid == uid && facts.mode & 0o7777 == 0o700 && facts.kind == FileKind::Directory
            ==> private(facts, uid, true),
        facts.uid == uid && facts.mode & 0o7777 == 0o600 && facts.kind == FileKind::File
            && facts.links == 1 ==> private(facts, uid, false),
{
}

/// A file name is no way to another directory.
pub proof fn file_names_stay_in_their_directory(s: Seq<char>)
    ensures
        !file_name(Seq::empty()),
        !file_name("."@),
        !file_name(".."@),
        s.contains('/') ==> !file_name(s),
        s.len() > 2 && !s.contains('/') ==> file_name(s),
{
    reveal_strlit(".");
    reveal_strlit("..");
}

} // verus!

//! The queue's vocabulary as the terminal layer sees it: which operation,
//! what kind it is, where it stands, and what to do about a name that is
//! already taken at the destination.
use vstd::prelude::*;
use crate::text::{chars_of, ends_with, has_suffix};

verus! {

/// Names one queued operation.
#[derive(Debug, Clone, Copy, PartialEq, Eq, Structural)]
pub struct OpId(pub u64);

/// What to do, for a whole operation, about names already at the destination.
#[derive(Debug, Clone, Copy, PartialEq, Eq, Structural)]
pub enum ConflictPolicy {
    Overwrite,
    Skip,
    RenameNew,
}

/// Where a deletion sends what it removes.
#[derive(Debug, Clone, Copy, PartialEq, Eq, Structural)]
pub enum DeleteHow {
    Trash,
    Permanent,
}

/// An archive format, told apart by the file name's suffix.
#[derive(Debug, Clone, Copy, PartialEq, Eq, Structural)]
pub enum Format {
    Zip,
    Tar,
    TarGz,
    TarZst,
    SevenZip,
}

/// What a queued operation does.
#[derive(Debug, Clone, Copy, PartialEq, Eq, Structural)]
pub enum OpKind {
    Copy,
    Move,
    Delete(DeleteHow),
    Rename,
    Compress(Format),
    Extract,
}

/// Where a queued operation stands.
#[derive(Debug, Clone, Copy, PartialEq, Eq, Structural)]
pub enum OpStatus {
    Queued,
    Planning,
    NeedsPolicy,
    Running,
    Done,
    Failed,
    Cancelled,
}

/// One name that is already taken at the destination.
#[derive(Debug, Clone, PartialEq, Eq)]
pub struct Conflict {
    pub source: String,
    pub dest: String,
    /// Both the source and what is in its way are directories.
    pub both_dirs: bool,
}

/// The suffix each format is written with, without its dot.
pub open spec fn suffix_of(f: Format) -> Seq<char> {
    match f {
        Format::Zip => seq!['z', 'i', 'p'],
        Format::Tar => seq!['t', 'a', 'r'],
        Format::TarGz => seq!['t', 'a', 'r', '.', 'g', 'z'],
        Format::TarZst => seq!['t', 'a', 'r', '.', 'z', 's', 't'],
        Format::SevenZip => seq!['7', 'z'],
    }
}

/// The format a path names by its suffix: the longest of the five that the
/// path ends with, dot included.
pub open spec fn format_of(path: Seq<char>) -> Option<Format> {
    if has_suffix(path, seq!['.'] + suffix_of(Format::TarGz)) {
        Some(Format::TarGz)
    } else if has_suffix(path, seq!['.'] + suffix_of(Format::TarZst)) {
        Some(Format::TarZst)
    } else if has_suffix(path, seq!['.'] + suffix_of(Format::Tar)) {
        Some(Format::Tar)
    } else if has_suffix(path, seq!['.'] + suffix_of(Format::Zip)) {
        Some(Format::Zip)
    } else if has_suffix(path, seq!['.'] + suffix_of(Format::SevenZip)) {
        Some(Format::SevenZip)
    } else {
        None
    }
}

/// `path` with its archive suffix taken off, dot included; unchanged when it
/// names no archive.
pub open spec fn archive_base(path: Seq<char>) -> Seq<char> {
    match format_of(path) {
        Some(f) => path.subrange(0, path.len() - suffix_of(f).len() - 1),
        None => path,
    }
}

impl Format {
    /// The suffix the format is written with, without its dot.
    pub fn suffix(self) -> (s: &'static str)
        ensures
            s@ == suffix_of(self),
    {
        proof {
            reveal_strlit("zip");
            reveal_strlit("tar");
            reveal_strlit("tar.gz");
            reveal_strlit("tar.zst");
            reveal_strlit("7z");
        }
        match self {
            Format::Zip => "zip",
            Format::Tar => "tar",
            Format::TarGz => "tar.gz",
            Format::TarZst => "tar.zst",
            Format::SevenZip => "7z",
        }
    }

    /// The format `path` names by its suffix.
    pub fn from_path(path: &[char]) -> (r: Option<Format>)
        ensures
            r == format_of(path@),
    {
        proof {
            reveal_strlit(".tar.gz");
            reveal_strlit(".tar.zst");
            reveal_strlit(".tar");
            reveal_strlit(".zip");
            reveal_strlit(".7z");
            assert(seq!['.'] + suffix_of(Format::TarGz) =~= ".tar.gz"@);
            assert(seq!['.'] + suffix_of(Format::TarZst) =~= ".tar.zst"@);
            assert(seq!['.'] + suffix_of(Format::Tar) =~= ".tar"@);
            assert(seq!['.'] + suffix_of(Format::Zip) =~= ".zip"@);
            assert(seq!['.'] + suffix_of(Format::SevenZip) =~= ".7z"@);
        }
        if ends_with(path, ".tar.gz") {
            Some(Format::TarGz)
        } else if ends_with(path, ".tar.zst") {
            Some(Format::TarZst)
        } else if ends_with(path, ".tar") {
            Some(Format::Tar)
        } else if ends_with(path, ".zip") {
            Some(Format::Zip)
        } else if ends_with(path, ".7z") {
            Some(Format::SevenZip)
        } else {
            None
        }
    }
}

/// Where an archive is unpacked to by default: its own path with the
/// archive suffix taken off.
pub fn archive_destination(path: &[char]) -> (out: Vec<char>)
    ensures
        out@ == archive_base(path@),
{
    match Format::from_path(path) {
        Some(f) => {
            let n = chars_of(f.suffix()).len();
            crate::text::copy_range(path, 0, path.len() - n - 1)
        },
        None => crate::text::copy_range(path, 0, path.len()),
    }
}

} // verus!

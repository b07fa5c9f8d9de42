//! Decisions of the directory walk: what to do with each entry, which files
//! are images, and the channel that carries what was found.
use vstd::prelude::*;
use vstd::string::*;
use std::sync::mpsc::{Receiver, Sender};
use crate::channel::{channel, send};
use crate::img::{base_name, file_extension, format_named, ImageFormat};
use crate::text::{chars_of, last_index};

verus! {

/// What a directory entry is, as its file type says (links not followed).
#[derive(Clone, Copy, Debug, PartialEq, Eq, Structural)]
pub enum EntryKind {
    Symlink,
    Directory,
    File,
    Other,
}

/// What the walk does with an entry.
#[derive(Clone, Copy, Debug, PartialEq, Eq, Structural)]
pub enum ScanAction {
    /// Leave it alone.
    Skip,
    /// Walk into it.
    Descend,
    /// Send its path on.
    Emit,
}

/// Symbolic links are never followed (which also rules out cycles),
/// directories are walked into, regular files are sent on.
pub open spec fn scan_action(kind: EntryKind) -> ScanAction {
    match kind {
        EntryKind::Symlink => ScanAction::Skip,
        EntryKind::Directory => ScanAction::Descend,
        EntryKind::File => ScanAction::Emit,
        EntryKind::Other => ScanAction::Skip,
    }
}

/// What the walk does with an entry of the given kind.
pub fn scan_step(kind: EntryKind) -> (r: ScanAction)
    ensures
        r == scan_action(kind),
{
    match kind {
        EntryKind::Symlink => ScanAction::Skip,
        EntryKind::Directory => ScanAction::Descend,
        EntryKind::File => ScanAction::Emit,
        EntryKind::Other => ScanAction::Skip,
    }
}

/// The image format that a path's extension names, if any.
pub open spec fn image_format(path: Seq<char>) -> Option<ImageFormat> {
    match file_extension(base_name(path)) {
        Some(e) => format_named(e),
        None => None,
    }
}

/// Walks a directory tree and sends the path of each regular file found.
pub struct DirsScanner {
    sender: Sender<String>,
}

impl DirsScanner {
    /// A scanner and the receiving end of the paths it will send.
    pub fn new() -> (r: (DirsScanner, Receiver<String>)) {
        let (sender, receiver) = channel();
        (DirsScanner { sender }, receiver)
    }

    /// Sends one found path; false when nobody receives any more.
    pub fn emit(&self, path: String) -> (r: bool) {
        send(&self.sender, path)
    }

    /// Whether the file name in `path` has an extension (a dot in it).
    pub fn has_extension(path: &str) -> (r: bool)
        ensures
            r == (file_extension(base_name(path@)) is Some),
    {
        let v = chars_of(path);
        let n = v.len();
        let lo = match last_index(&v, 0, n, '/') {
            Some(k) => k + 1,
            None => 0,
        };
        assert(v@.subrange(0, n as int) =~= v@);
        match last_index(&v, lo, n, '.') {
            Some(k) => k > lo,
            None => false,
        }
    }

    /// The image format of the file at `path`, by its extension; `None` for
    /// a file the archive does not take in.
    pub fn image_format_of(path: &str) -> (r: Option<ImageFormat>)
        ensures
            r == image_format(path@),
    {
        let v = chars_of(path);
        let n = v.len();
        let lo = match last_index(&v, 0, n, '/') {
            Some(k) => k + 1,
            None => 0,
        };
        assert(v@.subrange(0, n as int) =~= v@);
        let ghost base = v@.subrange(lo as int, n as int);
        assert(base == base_name(path@));
        match last_index(&v, lo, n, '.') {
            Some(k) if k > lo => {
                let ext = path.substring_char(k + 1, n);
                assert(ext@ =~= base.subrange(k + 1 - lo, base.len() as int));
                ImageFormat::parse(ext)
            },
            _ => None,
        }
    }
}

} // verus!

//! The transcript store: where the transcript of the day lies, and what one of its lines holds.

use vstd::prelude::*;

use crate::entries::{LineView, TranscriptLine};
use crate::paths;

verus! {

/// The transcript of the day, and the base directory above it.
pub struct TranscriptStore {
    basedir: String,
    file: String,
}

impl TranscriptStore {
    /// The base directory.
    pub closed spec fn base(self) -> Seq<char> {
        self.basedir@
    }

    /// The path of the transcript.
    pub closed spec fn path(self) -> Seq<char> {
        self.file@
    }

    /// The store of a transcript that lies in a directory of the base directory.
    pub fn new(file: String, index_file: String) -> (r: Result<TranscriptStore, String>)
        ensures
            match grandparent(file@) {
                Some(base) => r is Ok && r->Ok_0.base() == base && r->Ok_0.path() == file@,
                None => r is Err && r->Err_0@ == "chemin transcripts invalide"@,
            },
    {
        match paths::parent(file.as_str()) {
            None => Err("chemin transcripts invalide".to_string()),
            Some(directory) => match paths::parent(directory.as_str()) {
                None => Err("chemin transcripts invalide".to_string()),
                Some(basedir) => Ok(TranscriptStore { basedir, file }),
            },
        }
    }

    /// The base directory.
    pub fn basedir(&self) -> (r: &str)
        ensures
            r@ == self.base(),
    {
        self.basedir.as_str()
    }

    /// The path of the transcript.
    pub fn file(&self) -> (r: &str)
        ensures
            r@ == self.path(),
    {
        self.file.as_str()
    }

    /// The line that records who said what in a session.
    pub fn line(&self, ts: &str, session_id: &str, role: &str, content: &str) -> (r: TranscriptLine)
        ensures
            r@ == (LineView { ts: ts@, session_id: session_id@, role: role@, content: content@ }),
            r@ == said(ts@, session_id@, role@, content@),
    {
        TranscriptLine {
            ts: ts.to_string(),
            session_id: session_id.to_string(),
            role: role.to_string(),
            content: content.to_string(),
        }
    }
}

/// The line that records who said what in a session.
pub open spec fn said(
    ts: Seq<char>,
    session_id: Seq<char>,
    role: Seq<char>,
    content: Seq<char>,
) -> LineView {
    LineView { ts, session_id, role, content }
}

/// The directory above the directory of a file.
pub open spec fn grandparent(file: Seq<char>) -> Option<Seq<char>> {
    match paths::parent_of(file) {
        Some(directory) => paths::parent_of(directory),
        None => None,
    }
}

} // verus!

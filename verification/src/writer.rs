//! Writing a set of changes to disk, one file after the other.
//!
//! The writer decides what is read and written next; reading and writing is
//! done by its caller, who tells the writer how each went. The first failure
//! ends the work: what was written before it stays written, and nothing is
//! read or written after it.

use vstd::prelude::*;
use vstd::string::*;
use crate::changes::{apply_file_change, changed_text};
use crate::entities::FileChange;
use crate::error::{ErrorKind, QueryError};

verus! {

/// Where a writer stands.
#[derive(Debug, Clone, Copy, PartialEq, Eq, Structural)]
pub enum WriterState {
    /// The file with this number is to be read next.
    Reading(usize),
    /// The file with this number was read and is to be written.
    Writing(usize),
    /// All files are written, or a failure ended the work.
    Finished,
}

/// Applies the changes of a set to the files they name, in the order of the
/// set.
pub struct DiskWriter {
    changes: Vec<FileChange>,
    state: WriterState,
    written: usize,
}

/// The text of a failure to read or write `path`.
pub open spec fn failure_text(path: Seq<char>, detail: Seq<char>) -> Seq<char> {
    path + ": "@ + detail
}

impl DiskWriter {
    /// The changes that the writer applies.
    pub closed spec fn changes(&self) -> Seq<FileChange> {
        self.changes@
    }

    /// Where the writer stands.
    pub closed spec fn state(&self) -> WriterState {
        self.state
    }

    /// Number of files written so far.
    pub closed spec fn written(&self) -> int {
        self.written as int
    }

    /// The writer stands at a file of its set, and has written the files
    /// before it.
    pub closed spec fn wf(&self) -> bool {
        match self.state {
            WriterState::Reading(i) => i < self.changes@.len() && self.written == i,
            WriterState::Writing(i) => i < self.changes@.len() && self.written == i,
            WriterState::Finished => self.written <= self.changes@.len(),
        }
    }

    /// Where a writer stands that is to go on with file `i` of `count`.
    pub open spec fn at(i: int, count: int) -> WriterState {
        if i < count {
            WriterState::Reading(i as usize)
        } else {
            WriterState::Finished
        }
    }

    /// A writer for `changes`. With no changes there is nothing to read or
    /// write: the writer is finished from the start.
    pub fn new(changes: Vec<FileChange>) -> (writer: DiskWriter)
        ensures
            writer.wf(),
            writer.changes() == changes@,
            writer.written() == 0,
            writer.state() == Self::at(0, changes@.len() as int),
    {
        let state = if changes.len() > 0 {
            WriterState::Reading(0)
        } else {
            WriterState::Finished
        };
        DiskWriter { changes, state, written: 0 }
    }

    /// Number of files written so far.
    pub fn files_written(&self) -> (count: usize)
        requires
            self.wf(),
        ensures
            count == self.written(),
            count <= self.changes().len(),
    {
        self.written
    }

    /// The path of the file to read next, or `None` where the writer does
    /// not wait for a file to be read.
    pub fn next_read(&self) -> (path: Option<String>)
        requires
            self.wf(),
        ensures
            match self.state() {
                WriterState::Reading(i) => path == Some(self.changes()[i as int].file_path),
                _ => path is None,
            },
    {
        match self.state {
            WriterState::Reading(i) => Some(self.changes[i].file_path.clone()),
            _ => None,
        }
    }

    /// Takes what reading the awaited file gave: its text, or why it could
    /// not be read. Gives the new text to write to the same file. A file
    /// that could not be read is `IoError`, and edits that do not fit the
    /// text give their error; either ends the work.
    pub fn on_read(&mut self, content: Result<&str, String>) -> (to_write: Result<
        Vec<u8>,
        QueryError,
    >)
        requires
            old(self).wf(),
            old(self).state() is Reading,
        ensures
            final(self).wf(),
            final(self).changes() == old(self).changes(),
            final(self).written() == old(self).written(),
            old(self).state() matches WriterState::Reading(i) && match content {
                Err(detail) => to_write matches Err(QueryError::IoError(text)) && text@
                    == failure_text(old(self).changes()[i as int].file_path@, detail@) && final(self).state() is Finished,
                Ok(text) => match changed_text(
                    text.spec_bytes(),
                    old(self).changes()[i as int].edits@,
                ) {
                    Ok(new_text) => to_write matches Ok(bytes) && bytes@ == new_text && final(self).state() == WriterState::Writing(i),
                    Err(kind) => to_write matches Err(e) && e.kind() == kind && final(self).state() is Finished,
                },
            },
    {
        let i = match self.state {
            WriterState::Reading(i) => i,
            _ => 0,
        };
        match content {
            Err(detail) => {
                self.state = WriterState::Finished;
                Err(QueryError::IoError(failure(&self.changes[i].file_path, &detail)))
            },
            Ok(text) => match apply_file_change(text, &self.changes[i]) {
                Ok(bytes) => {
                    self.state = WriterState::Writing(i);
                    Ok(bytes)
                },
                Err(e) => {
                    self.state = WriterState::Finished;
                    Err(e)
                },
            },
        }
    }

    /// Takes how writing the awaited file went. After a file is written the
    /// writer goes on to the next, or is finished with the last; a file that
    /// could not be written is `IoError` and ends the work.
    pub fn on_written(&mut self, outcome: Result<(), String>) -> (done: Result<(), QueryError>)
        requires
            old(self).wf(),
            old(self).state() is Writing,
        ensures
            final(self).wf(),
            final(self).changes() == old(self).changes(),
            old(self).state() matches WriterState::Writing(i) && match outcome {
                Ok(()) => done is Ok && final(self).written() == old(self).written() + 1 && final(self).state() == Self::at(i + 1, old(self).changes().len() as int),
                Err(detail) => done matches Err(QueryError::IoError(text)) && text@
                    == failure_text(old(self).changes()[i as int].file_path@, detail@) && final(self).written() == old(self).written() && final(self).state() is Finished,
            },
    {
        let i = match self.state {
            WriterState::Writing(i) => i,
            _ => 0,
        };
        let count = self.changes.len();
        match outcome {
            Ok(()) => {
                assert(i < count);
                self.written = i + 1;
                self.state = if i + 1 < count {
                    WriterState::Reading(i + 1)
                } else {
                    WriterState::Finished
                };
                Ok(())
            },
            Err(detail) => {
                self.state = WriterState::Finished;
                Err(QueryError::IoError(failure(&self.changes[i].file_path, &detail)))
            },
        }
    }
}

/// The text of a failure to read or write `path`.
pub fn failure(path: &String, detail: &String) -> (text: String)
    ensures
        text@ == failure_text(path@, detail@),
{
    let mut text = path.clone();
    text.append(": ");
    text.append(detail.as_str());
    text
}

/// A writer without changes never asks for a file: writing an empty set of
/// changes leaves every file as it is.
pub proof fn lemma_empty_set_touches_nothing(writer: DiskWriter)
    requires
        writer.wf(),
        writer.changes().len() == 0,
    ensures
        writer.state() is Finished,
        writer.written() == 0,
{
}

/// A writer that is finished asks for no file, and a writer that stands at
/// a file has written exactly the files before it.
pub proof fn lemma_written_before(writer: DiskWriter)
    requires
        writer.wf(),
    ensures
        writer.state() matches WriterState::Reading(i) ==> writer.written() == i,
        writer.state() matches WriterState::Writing(i) ==> writer.written() == i,
        writer.written() <= writer.changes().len(),
{
}

} // verus!

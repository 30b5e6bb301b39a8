//! The files of the workspace: which path has which handle, and which
//! changes seen on disk the engine has not been told of yet.

use vstd::prelude::*;
use vstd::string::*;
use ra_ap_hir::ChangeWithProcMacros;
use ra_ap_ide::AnalysisHost;
use crate::engine::{
    change_file, change_files, change_new, held, host_apply_change, host_texts,
    lemma_text_after_short, short, text_after,
};
use crate::error::QueryError;

verus! {

/// Identifier of a file in the engine, bound to one path for the life of a
/// session.
#[derive(Debug, Clone, Copy, PartialEq, Eq, Structural)]
pub struct FileHandle(pub u32);

/// Largest number of files: the engine's file identifiers end at
/// `0x7fff_ffff`.
pub const MAX_FILES: u32 = 0x8000_0000;

/// A change that the engine is to be told of: the new text of a file, or
/// `None` for a file that is gone.
#[derive(Debug)]
pub struct FileUpdate {
    pub handle: FileHandle,
    pub content: Option<String>,
}

/// A change seen on disk.
struct QueuedChange {
    path: String,
    content: Option<String>,
}

/// The files of the workspace and the queue of changes to them.
///
/// Handles are given out in the order in which paths are first seen, from 0
/// on, and are never taken back.
pub struct FileWatcher {
    paths: Vec<String>,
    queue: Vec<QueuedChange>,
}

/// A queued change as contracts see it: the path, and the new text or
/// `None`.
pub type Change = (Seq<char>, Option<Seq<char>>);

/// The text of an optional string.
pub open spec fn text_of(content: Option<String>) -> Option<Seq<char>> {
    match content {
        Some(s) => Some(s@),
        None => None,
    }
}

/// A batch of updates as contracts see it.
pub open spec fn updates_view(updates: Seq<FileUpdate>) -> Seq<(int, Option<Seq<char>>)> {
    updates.map_values(|u: FileUpdate| (u.handle.0 as int, text_of(u.content)))
}

/// Position of `path` in `paths`.
pub open spec fn position_of(paths: Seq<Seq<char>>, path: Seq<char>) -> int {
    choose|i: int| 0 <= i < paths.len() && paths[i] == path
}

/// The engine held `before` and holds `after` once it was told of
/// `updates`: it holds every file that it held, each with the text that the
/// updates leave it with.
pub open spec fn flushed(
    before: Map<int, Seq<char>>,
    after: Map<int, Seq<char>>,
    updates: Seq<(int, Option<Seq<char>>)>,
) -> bool {
    forall|file: int|
        before.dom().contains(file) ==> (#[trigger] after.dom().contains(file)) && after[file]
            == text_after(before[file], file, updates)
}

/// The updates that a queue of changes amounts to, given the paths of the
/// files.
pub open spec fn resolved_updates(paths: Seq<Seq<char>>, queue: Seq<Change>) -> Seq<
    (int, Option<Seq<char>>),
> {
    queue.map_values(|c: Change| (position_of(paths, c.0), c.1))
}

impl FileWatcher {
    /// The path of each handle, in the order of the handles.
    pub closed spec fn paths(&self) -> Seq<Seq<char>> {
        self.paths@.map_values(|p: String| p@)
    }

    /// The changes that wait to be handed to the engine, oldest first.
    pub closed spec fn pending(&self) -> Seq<Change> {
        self.queue@.map_values(|c: QueuedChange| (c.path@, text_of(c.content)))
    }

    /// Every file of the workspace is one of the files of `texts`, with a
    /// text shorter than `u32::MAX` bytes.
    pub open spec fn held_in(&self, texts: Map<int, Seq<char>>) -> bool {
        forall|i: int| 0 <= i < self.paths().len() ==> #[trigger] held(texts, i)
    }

    /// No path has two handles, there are at most `MAX_FILES` files, and
    /// every queued text is shorter than `u32::MAX` bytes. `new` makes a
    /// watcher of which this holds, and every method keeps it.
    pub closed spec fn wf(&self) -> bool {
        &&& self.paths@.len() <= MAX_FILES
        &&& forall|i: int, j: int|
            0 <= i < j < self.paths@.len() ==> self.paths@[i]@ != self.paths@[j]@
        &&& forall|i: int| 0 <= i < self.queue@.len() ==> short(text_of((#[trigger] self.queue@[i]).content))
    }

    /// `path` is a file of the workspace.
    pub open spec fn knows(&self, path: Seq<char>) -> bool {
        self.paths().contains(path)
    }

    /// No two handles have the same path.
    pub proof fn lemma_paths_differ(&self, i: int, j: int)
        requires
            self.wf(),
            0 <= i < self.paths().len(),
            0 <= j < self.paths().len(),
            i != j,
        ensures
            self.paths()[i] != self.paths()[j],
    {
        if i < j {
            assert(self.paths@[i]@ != self.paths@[j]@);
        } else {
            assert(self.paths@[j]@ != self.paths@[i]@);
        }
    }

    /// A watcher without files.
    pub fn new() -> (watcher: FileWatcher)
        ensures
            watcher.wf(),
            watcher.paths().len() == 0,
            watcher.pending().len() == 0,
    {
        FileWatcher { paths: Vec::new(), queue: Vec::new() }
    }

    /// Number of files.
    pub fn file_count(&self) -> (count: usize)
        requires
            self.wf(),
        ensures
            count == self.paths().len(),
            count <= MAX_FILES,
    {
        self.paths.len()
    }

    /// Index of `path` among the paths, if it is there.
    fn find(&self, path: &String) -> (found: Option<usize>)
        requires
            self.wf(),
        ensures
            found is Some <==> self.knows(path@),
            found matches Some(i) ==> i < self.paths().len() && self.paths()[i as int] == path@
                && i == position_of(self.paths(), path@) && i < MAX_FILES,
    {
        let mut i: usize = 0;
        while i < self.paths.len()
            invariant
                self.wf(),
                i <= self.paths@.len(),
                forall|j: int| 0 <= j < i ==> self.paths()[j] != path@,
            decreases self.paths.len() - i,
        {
            if self.paths[i] == *path {
                proof {
                    assert(self.paths()[i as int] == path@);
                    let j = position_of(self.paths(), path@);
                    assert(self.paths()[j] == self.paths@[j]@);
                    assert(self.paths()[i as int] == self.paths@[i as int]@);
                }
                return Some(i);
            }
            i = i + 1;
        }
        None
    }

    /// The handle of `path`: the one it has, or a new one, which is the
    /// number of files seen before.
    pub fn get_or_create_handle(&mut self, path: &str) -> (handle: FileHandle)
        requires
            old(self).wf(),
            old(self).knows(path@) || old(self).paths().len() < MAX_FILES,
        ensures
            final(self).wf(),
            final(self).pending() == old(self).pending(),
            old(self).knows(path@) ==> final(self).paths() == old(self).paths(),
            !old(self).knows(path@) ==> final(self).paths() == old(self).paths().push(path@)
                && handle.0 == old(self).paths().len(),
            handle.0 < final(self).paths().len(),
            final(self).paths()[handle.0 as int] == path@,
    {
        let key = path.to_owned();
        match self.find(&key) {
            Some(i) => FileHandle(i as u32),
            None => {
                let n = self.paths.len();
                proof {
                    assert forall|j: int| 0 <= j < n implies self.paths@[j]@ != key@ by {
                        assert(self.paths()[j] == self.paths@[j]@);
                    }
                }
                self.paths.push(key);
                assert(self.paths() == old(self).paths().push(path@));
                FileHandle(n as u32)
            },
        }
    }

    /// The handle of `path`, or `UnknownFile` where the path is no file of
    /// the workspace.
    pub fn get_file_id(&self, path: &str) -> (handle: Result<FileHandle, QueryError>)
        requires
            self.wf(),
        ensures
            self.knows(path@) ==> (handle matches Ok(h) && h.0 < self.paths().len() && h.0
                < MAX_FILES && self.paths()[h.0 as int] == path@ && h.0 == position_of(
                self.paths(),
                path@,
            )),
            !self.knows(path@) ==> handle is Err && handle->Err_0 is UnknownFile,
    {
        let key = path.to_owned();
        match self.find(&key) {
            Some(i) => Ok(FileHandle(i as u32)),
            None => Err(QueryError::UnknownFile),
        }
    }

    /// The path of `handle`, or `None` where no file has this handle.
    pub fn file_path(&self, handle: FileHandle) -> (path: Option<String>)
        requires
            self.wf(),
        ensures
            path is Some <==> handle.0 < self.paths().len(),
            self.paths().len() <= MAX_FILES,
            path matches Some(p) ==> p@ == self.paths()[handle.0 as int] && self.knows(p@)
                && position_of(self.paths(), p@) == handle.0,
    {
        let i = handle.0 as usize;
        if i < self.paths.len() {
            let p = self.paths[i].clone();
            assert(self.paths()[i as int] == p@);
            Some(p)
        } else {
            None
        }
    }

    /// Notes that the file at `path` now holds `content`, or is gone where
    /// `content` is `None`. The engine learns of it at the next drain. The
    /// engine measures texts in 32 bits, so `content` must be shorter than
    /// `u32::MAX` bytes.
    pub fn queue_change(&mut self, path: &str, content: Option<String>)
        requires
            old(self).wf(),
            short(text_of(content)),
        ensures
            final(self).wf(),
            final(self).paths() == old(self).paths(),
            final(self).pending() == old(self).pending().push((path@, text_of(content))),
    {
        let change = QueuedChange { path: path.to_owned(), content };
        self.queue.push(change);
        assert(self.pending() == old(self).pending().push((path@, text_of(content))));
    }

    /// Number of changes that wait.
    pub fn pending_count(&self) -> (count: usize)
        ensures
            count == self.pending().len(),
    {
        self.queue.len()
    }

    /// Empties the queue and gives the updates it amounts to, oldest first.
    /// Where a queued path is no file of the workspace the result is
    /// `UnknownFile`; the queue is emptied all the same.
    pub fn drain(&mut self) -> (batch: Result<Vec<FileUpdate>, QueryError>)
        requires
            old(self).wf(),
        ensures
            final(self).wf(),
            final(self).paths() == old(self).paths(),
            final(self).pending().len() == 0,
            batch matches Ok(updates) ==> forall|i: int|
                0 <= i < updates@.len() ==> (#[trigger] updates@[i]).handle.0 < MAX_FILES
                    && updates@[i].handle.0 < old(self).paths().len() && short(
                    text_of(updates@[i].content),
                ),
            (forall|i: int|
                0 <= i < old(self).pending().len() ==> old(self).knows(
                    #[trigger] old(self).pending()[i].0,
                )) ==> (batch matches Ok(updates) && updates_view(updates@) == resolved_updates(
                old(self).paths(),
                old(self).pending(),
            )),
            (exists|i: int|
                0 <= i < old(self).pending().len() && !old(self).knows(
                    #[trigger] old(self).pending()[i].0,
                )) ==> batch is Err && batch->Err_0 is UnknownFile,
    {
        let ghost pending = self.pending();
        let ghost paths = self.paths();
        let mut updates: Vec<FileUpdate> = Vec::new();
        let mut i: usize = 0;
        while i < self.queue.len()
            invariant
                i <= self.queue@.len(),
                self.wf(),
                self.paths@ == old(self).paths@,
                self.queue@ == old(self).queue@,
                self.paths() == paths,
                self.pending() == pending,
                forall|j: int| 0 <= j < i ==> self.knows(#[trigger] pending[j].0),
                forall|j: int|
                    0 <= j < updates@.len() ==> (#[trigger] updates@[j]).handle.0 < MAX_FILES
                        && updates@[j].handle.0 < paths.len() && short(
                        text_of(updates@[j].content),
                    ),
                updates_view(updates@) == resolved_updates(paths, pending.take(i as int)),
            decreases self.queue.len() - i,
        {
            let found = self.find(&self.queue[i].path);
            assert(pending[i as int] == (self.queue@[i as int].path@, text_of(
                self.queue@[i as int].content,
            )));
            match found {
                None => {
                    assert(!old(self).knows(old(self).pending()[i as int].0));
                    self.queue = Vec::new();
                    return Err(QueryError::UnknownFile);
                },
                Some(h) => {
                    let content = match &self.queue[i].content {
                        Some(text) => Some(text.clone()),
                        None => None,
                    };
                    let ghost before = updates@;
                    updates.push(FileUpdate { handle: FileHandle(h as u32), content });
                    assert(updates_view(updates@) =~= updates_view(before).push(
                        (h as int, text_of(content)),
                    ));
                    assert(pending.take(i + 1) =~= pending.take(i as int).push(pending[i as int]));
                    assert(resolved_updates(paths, pending.take(i + 1)) =~= resolved_updates(
                        paths,
                        pending.take(i as int),
                    ).push((position_of(paths, pending[i as int].0), pending[i as int].1)));
                },
            }
            i = i + 1;
        }
        assert(pending.take(i as int) =~= pending);
        self.queue = Vec::new();
        assert(updates_view(updates@) == resolved_updates(old(self).paths(), old(self).pending()));
        Ok(updates)
    }

    /// Hands all queued changes to the engine in one batch and empties the
    /// queue: the engine then holds for each file the text of the last
    /// queued change to it, the empty text where the file is gone. Where a
    /// queued path is no file of the workspace nothing is handed over and
    /// the result is `UnknownFile`. With an empty queue the engine is not
    /// touched. The engine waits with a change until every snapshot of it
    /// has been dropped, so none may be out.
    pub fn drain_and_apply_changes(&mut self, host: &mut AnalysisHost) -> (applied: Result<
        (),
        QueryError,
    >)
        requires
            old(self).wf(),
            old(self).held_in(host_texts(*old(host))),
        ensures
            final(self).wf(),
            final(self).paths() == old(self).paths(),
            final(self).pending().len() == 0,
            final(self).held_in(host_texts(*final(host))),
            applied is Ok <==> forall|i: int|
                0 <= i < old(self).pending().len() ==> old(self).knows(
                    #[trigger] old(self).pending()[i].0,
                ),
            applied matches Err(e) ==> e is UnknownFile,
            applied is Err ==> *final(host) == *old(host),
            applied is Ok ==> flushed(
                host_texts(*old(host)),
                host_texts(*final(host)),
                resolved_updates(old(self).paths(), old(self).pending()),
            ),
    {
        match self.drain() {
            Err(e) => Err(QueryError::UnknownFile),
            Ok(updates) => {
                if updates.len() > 0 {
                    let change = batch_of(&updates);
                    proof {
                        assert forall|i: int| 0 <= i < change_files(change).len() implies host_texts(
                            *old(host),
                        ).dom().contains((#[trigger] change_files(change)[i]).0) by {
                            assert(updates@[i].handle.0 < old(self).paths().len());
                            assert(held(host_texts(*old(host)), updates@[i].handle.0 as int));
                        }
                    }
                    host_apply_change(host, change);
                    proof {
                        assert forall|i: int| 0 <= i < self.paths().len() implies #[trigger] held(
                            host_texts(*host),
                            i,
                        ) by {
                            assert(held(host_texts(*old(host)), i));
                            assert forall|k: int| 0 <= k < change_files(change).len() implies short(
                                (#[trigger] change_files(change)[k]).1,
                            ) by {
                                assert(short(text_of(updates@[k].content)));
                            }
                            lemma_text_after_short(
                                host_texts(*old(host))[i],
                                i,
                                change_files(change),
                            );
                        }
                    }
                } else {
                    assert(resolved_updates(old(self).paths(), old(self).pending()).len() == 0);
                }
                Ok(())
            },
        }
    }
}

/// The change that tells the engine of `updates`, in their order.
pub fn batch_of(updates: &Vec<FileUpdate>) -> (change: ChangeWithProcMacros)
    requires
        forall|i: int| 0 <= i < updates@.len() ==> (#[trigger] updates@[i]).handle.0 < MAX_FILES,
    ensures
        change_files(change) == updates_view(updates@),
{
    let mut change = change_new();
    let mut i: usize = 0;
    assert(updates_view(updates@.take(0)) =~= Seq::<(int, Option<Seq<char>>)>::empty());
    while i < updates.len()
        invariant
            i <= updates@.len(),
            forall|j: int|
                0 <= j < updates@.len() ==> (#[trigger] updates@[j]).handle.0 < MAX_FILES,
            change_files(change) == updates_view(updates@.take(i as int)),
        decreases updates.len() - i,
    {
        let content = match &updates[i].content {
            Some(text) => Some(text.clone()),
            None => None,
        };
        change_file(&mut change, updates[i].handle, content);
        proof {
            assert(updates@.take(i + 1) =~= updates@.take(i as int).push(updates@[i as int]));
            assert(updates_view(updates@.take(i + 1)) =~= updates_view(
                updates@.take(i as int),
            ).push((updates@[i as int].handle.0 as int, text_of(content))));
        }
        i = i + 1;
    }
    proof {
        assert(updates@.take(i as int) =~= updates@);
    }
    change
}

} // verus!

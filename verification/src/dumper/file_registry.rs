use vstd::prelude::*;

verus! {

/// The number of a file handle.
pub type HandleId = u64;

// === FileRegistry ===

#[derive(Debug)]
pub struct Entry {
    pub path: String,
    pub id: HandleId,
}

/// Files that are used by dumpers, possibly shared among multiple actors. Every
/// path is here at most once.
#[derive(Debug)]
pub struct FileRegistry {
    pub files: Vec<Entry>,
    pub next_id: HandleId,
}

/// The handle of the file.
pub open spec fn handle_of(files: Seq<Entry>, path: Seq<char>) -> Option<HandleId>
    decreases files.len(),
{
    if files.len() == 0 {
        None
    } else if files.last().path@ == path {
        Some(files.last().id)
    } else {
        handle_of(files.drop_last(), path)
    }
}

proof fn lemma_handle_of(files: Seq<Entry>, i: int)
    requires
        0 <= i < files.len(),
        forall|k: int| i < k < files.len() ==> (#[trigger] files[k]).path@ != files[i].path@,
    ensures
        handle_of(files, files[i].path@) == Some(files[i].id),
    decreases files.len(),
{
    if i < files.len() - 1 {
        assert(files.last() == files[files.len() - 1]);
        lemma_handle_of(files.drop_last(), i);
    }
}

proof fn lemma_no_handle(files: Seq<Entry>, path: Seq<char>)
    requires
        forall|k: int| 0 <= k < files.len() ==> (#[trigger] files[k]).path@ != path,
    ensures
        handle_of(files, path) is None,
    decreases files.len(),
{
    if files.len() > 0 {
        lemma_no_handle(files.drop_last(), path);
    }
}

impl FileRegistry {
    pub open spec fn wf(&self) -> bool {
        &&& forall|i: int, j: int|
            0 <= i < j < self.files.len() ==> (#[trigger] self.files[i]).path@ != (
            #[trigger] self.files[j]).path@
        &&& forall|i: int| 0 <= i < self.files.len() ==> (#[trigger] self.files[i]).id < self.next_id
    }

    pub fn new() -> (this: FileRegistry)
        ensures
            this.wf(),
            this.files.len() == 0,
            this.next_id == 0,
    {
        FileRegistry { files: Vec::new(), next_id: 0 }
    }

    /// Returns a handle to the file, possibly shared among multiple actors.
    pub fn acquire(&mut self, path: &str) -> (id: HandleId)
        requires
            old(self).wf(),
            old(self).next_id < u64::MAX,
        ensures
            final(self).wf(),
            match handle_of(old(self).files@, path@) {
                Some(existing) => id == existing && *final(self) == *old(self),
                None => {
                    &&& id == old(self).next_id
                    &&& final(self).next_id == old(self).next_id + 1
                    &&& final(self).files@.drop_last() == old(self).files@
                    &&& final(self).files@.last().path@ == path@
                    &&& final(self).files@.last().id == id
                    &&& final(self).files.len() == old(self).files.len() + 1
                },
            },
    {
        let owned: String = path.to_owned();
        let mut i: usize = 0;
        while i < self.files.len()
            invariant
                i <= self.files.len(),
                *self == *old(self),
                self.wf(),
                owned@ == path@,
                forall|k: int| 0 <= k < i ==> (#[trigger] self.files[k]).path@ != path@,
            decreases self.files.len() - i,
        {
            if self.files[i].path == owned {
                proof {
                    lemma_handle_of(self.files@, i as int);
                }
                return self.files[i].id;
            }
            i += 1;
        }
        proof {
            lemma_no_handle(self.files@, path@);
        }

        let id: u64 = self.next_id;
        self.next_id = id + 1;
        self.files.push(Entry { path: owned, id });
        assert(self.files@.drop_last() =~= old(self).files@);
        id
    }

    /// Forces reopening of files on the next write. Returns handles that must
    /// be reopened.
    pub fn schedule_reopen(&self) -> (ids: Vec<HandleId>)
        ensures
            ids@ == self.files@.map_values(|entry: Entry| entry.id),
    {
        let mut ids: Vec<u64> = Vec::new();
        let mut i: usize = 0;
        while i < self.files.len()
            invariant
                i <= self.files.len(),
                ids@ =~= self.files@.take(i as int).map_values(|entry: Entry| entry.id),
            decreases self.files.len() - i,
        {
            ids.push(self.files[i].id);
            i += 1;
        }
        assert(self.files@.take(i as int) =~= self.files@);
        ids
    }

    /// A copy of the handle is going to be dropped, `strong_count` is how many
    /// copies there are. The last one removes the file from the registry.
    pub fn on_drop(&mut self, path: &str, strong_count: usize)
        requires
            old(self).wf(),
        ensures
            final(self).wf(),
            final(self).next_id == old(self).next_id,
            strong_count > 1 ==> *final(self) == *old(self),
            strong_count <= 1 ==> {
                &&& handle_of(final(self).files@, path@) is None
                &&& forall|other: Seq<char>|
                    other != path@ ==> #[trigger] handle_of(final(self).files@, other) == handle_of(
                        old(self).files@,
                        other,
                    )
            },
    {
        if strong_count > 1 {
            return;
        }

        let owned: String = path.to_owned();
        let mut i: usize = 0;
        while i < self.files.len()
            invariant
                strong_count <= 1,
                i <= self.files.len(),
                *self == *old(self),
                self.wf(),
                owned@ == path@,
                forall|k: int| 0 <= k < i ==> (#[trigger] self.files[k]).path@ != path@,
            decreases self.files.len() - i,
        {
            if self.files[i].path == owned {
                let ghost before = self.files@;
                let _ = self.files.remove(i);
                proof {
                    let after = self.files@;
                    assert(after =~= before.remove(i as int));
                    assert forall|k: int| 0 <= k < after.len() implies (
                    #[trigger] after[k]).path@ != path@ && after[k].id < self.next_id by {
                        if k < i {
                            assert(after[k] == before[k]);
                        } else {
                            assert(after[k] == before[k + 1]);
                        }
                    }
                    lemma_no_handle(after, path@);
                    assert forall|a: int, b: int| 0 <= a < b < after.len() implies (
                    #[trigger] after[a]).path@ != (#[trigger] after[b]).path@ by {
                        let x = if a < i {
                            a
                        } else {
                            a + 1
                        };
                        let y = if b < i {
                            b
                        } else {
                            b + 1
                        };
                        assert(before[x].path@ != before[y].path@);
                    }
                    assert forall|other: Seq<char>| other != path@ implies #[trigger] handle_of(
                        after,
                        other,
                    ) == handle_of(before, other) by {
                        lemma_removed(before, i as int, other);
                    }
                }
                return ;
            }
            i += 1;
        }
        proof {
            lemma_no_handle(self.files@, path@);
        }
    }
}

proof fn lemma_removed(files: Seq<Entry>, i: int, path: Seq<char>)
    requires
        0 <= i < files.len(),
        files[i].path@ != path,
    ensures
        handle_of(files.remove(i), path) == handle_of(files, path),
    decreases files.len(),
{
    if i == files.len() - 1 {
        assert(files.remove(i) =~= files.drop_last());
    } else {
        assert(files.remove(i).drop_last() =~= files.drop_last().remove(i));
        assert(files.remove(i).last() == files.last());
        lemma_removed(files.drop_last(), i, path);
    }
}

// === FileHandle ===

/// What can go wrong with a file.
#[derive(Debug, Clone, Copy, PartialEq, Eq, Structural)]
pub enum Stage {
    Open,
    Write,
    Flush,
    Sync,
}

impl Stage {
    /// What is going wrong, it should be followed by the path.
    pub fn description(self) -> (text: &'static str)
        ensures
            text@ == (match self {
                Stage::Open => "cannot open"@,
                Stage::Write => "cannot write to"@,
                Stage::Flush => "cannot flush to"@,
                Stage::Sync => "cannot sync"@,
            }),
    {
        match self {
            Stage::Open => "cannot open",
            Stage::Write => "cannot write to",
            Stage::Flush => "cannot flush to",
            Stage::Sync => "cannot sync",
        }
    }
}

/// A file that is possibly opened.
#[derive(Debug)]
pub struct FileHandle<F> {
    pub path: String,
    pub file: Option<F>,
    /// Whether the file must be reopened on the next write.
    pub reopen: bool,
}

impl<F> FileHandle<F> {
    pub fn new(path: String) -> (this: FileHandle<F>)
        ensures
            this.path == path,
            this.file is None,
            !this.reopen,
    {
        FileHandle { path, file: None, reopen: false }
    }

    /// Forces reopening of the file on the next write.
    pub fn schedule_reopen(&mut self)
        ensures
            final(self).reopen,
            final(self).file == old(self).file,
            final(self).path == old(self).path,
    {
        self.reopen = true;
    }

    /// Starts writing. If `None` is returned, the file must be opened.
    ///
    /// Taking allows to force reopening on the next write in the case of errors.
    pub fn begin_write(&mut self) -> (file: Option<F>)
        ensures
            final(self).path == old(self).path,
            final(self).file is None,
            !final(self).reopen,
            file == (if old(self).reopen {
                None
            } else {
                old(self).file
            }),
    {
        let file = self.file.take();
        if self.reopen {
            self.reopen = false;
            None
        } else {
            file
        }
    }

    /// Starts synchronization. If `None` is returned, there is nothing to do.
    pub fn begin_sync(&mut self) -> (file: Option<F>)
        ensures
            final(self).path == old(self).path,
            final(self).file is None,
            final(self).reopen == old(self).reopen,
            file == old(self).file,
    {
        self.file.take()
    }

    /// Ends writing or synchronization. The file is kept only if it's ok.
    pub fn finish(&mut self, res: Result<F, Stage>) -> (err: Result<(), Stage>)
        requires
            old(self).file is None,
        ensures
            final(self).path == old(self).path,
            final(self).reopen == old(self).reopen,
            match res {
                Ok(file) => {
                    &&& final(self).file == Some(file)
                    &&& err is Ok
                },
                Err(stage) => {
                    &&& final(self).file is None
                    &&& err == Err::<(), Stage>(stage)
                },
            },
    {
        match res {
            Ok(file) => {
                self.file = Some(file);
                Ok(())
            },
            Err(stage) => Err(stage),
        }
    }
}

// === Laws ===

/// The same handle is returned until it's dropped.
pub proof fn handle_is_shared(before: Seq<Entry>, entry: Entry)
    ensures
        handle_of(before.push(entry), entry.path@) == Some(entry.id),
{
}

/// Actors that use the same path share a handle. A new path gets a handle that has
/// never been used.
pub proof fn path_has_one_handle(
    registry: &mut FileRegistry,
    after: &mut FileRegistry,
    path: &str,
    other: &str,
    id: HandleId,
    second: HandleId,
    k: int,
)
    requires
        old(registry).wf(),
        call_ensures(FileRegistry::acquire, (registry, path), id),
        *old(after) == *final(registry),
        call_ensures(FileRegistry::acquire, (after, other), second),
    ensures
        other@ == path@ ==> second == id && *final(after) == *old(after),
        0 <= k < old(registry).files@.len() && old(registry).files@[k].path@ == path@ ==> id
            == old(registry).files@[k].id && *final(registry) == *old(registry),
        (forall|i: int|
            0 <= i < old(registry).files@.len() ==> (#[trigger] old(registry).files@[i]).path@
                != path@) ==> {
            &&& id == old(registry).next_id
            &&& final(registry).next_id == id + 1
            &&& final(registry).files@.drop_last() == old(registry).files@
            &&& final(registry).files@.last().path@ == path@
            &&& final(registry).files@.last().id == id
            &&& other@ != path@ ==> second != id
        },
{
    let files = old(registry).files@;
    if 0 <= k < files.len() && files[k].path@ == path@ {
        assert forall|i: int| k < i < files.len() implies (#[trigger] files[i]).path@
            != files[k].path@ by {
            assert(old(registry).files[k].path@ != old(registry).files[i].path@);
        }
        lemma_handle_of(files, k);
    }
    lemma_known(files, path@);
    if forall|i: int| 0 <= i < files.len() ==> (#[trigger] files[i]).path@ != path@ {
        lemma_no_handle(files, path@);
        lemma_known(files, other@);
        if other@ != path@ && handle_of(files, other@) is Some {
            let i = choose|i: int|
                0 <= i < files.len() && (#[trigger] files[i]).path@ == other@ && handle_of(
                    files,
                    other@,
                ) == Some(files[i].id);
            assert(old(registry).files[i].id < old(registry).next_id);
        }
    }
}

proof fn lemma_known(files: Seq<Entry>, path: Seq<char>)
    ensures
        handle_of(files, path) is Some ==> exists|i: int|
            0 <= i < files.len() && (#[trigger] files[i]).path@ == path && handle_of(files, path)
                == Some(files[i].id),
    decreases files.len(),
{
    if files.len() > 0 {
        let rest = files.drop_last();
        lemma_known(rest, path);
        assert(files.last() == files[files.len() - 1]);
        if files.last().path@ != path && handle_of(rest, path) is Some {
            let i = choose|i: int|
                0 <= i < rest.len() && (#[trigger] rest[i]).path@ == path && handle_of(rest, path)
                    == Some(rest[i].id);
            assert(files[i] == rest[i]);
        }
    }
}

/// Only the last copy of a handle removes the file, so the next use of its path gets
/// another handle. Other files stay.
pub proof fn last_copy_removes_file(
    registry: &mut FileRegistry,
    after: &mut FileRegistry,
    untouched: &mut FileRegistry,
    path: &str,
    other: &str,
    strong_count: usize,
    id: HandleId,
    before: HandleId,
)
    requires
        old(registry).wf(),
        call_ensures(FileRegistry::on_drop, (registry, path, strong_count), ()),
        *old(after) == *final(registry),
        call_ensures(FileRegistry::acquire, (after, other), id),
        *old(untouched) == *old(registry),
        call_ensures(FileRegistry::acquire, (untouched, other), before),
    ensures
        strong_count > 1 ==> *final(registry) == *old(registry) && id == before,
        strong_count <= 1 && other@ == path@ ==> id == old(registry).next_id,
        strong_count <= 1 && other@ != path@ ==> id == before,
{
    if strong_count <= 1 && other@ != path@ {
        lemma_dropped((registry, path, strong_count), other@);
    }
}

proof fn lemma_dropped(args: (&mut FileRegistry, &str, usize), other: Seq<char>)
    requires
        call_ensures(FileRegistry::on_drop, args, ()),
        args.2 <= 1,
        other != args.1@,
    ensures
        handle_of(final(args.0).files@, other) == handle_of(old(args.0).files@, other),
{
}

/// All files are reopened, and there are no files at first.
pub proof fn all_files_are_reopened(registry: FileRegistry, ids: Vec<HandleId>, fresh: FileRegistry)
    requires
        call_ensures(FileRegistry::schedule_reopen, (&registry,), ids),
        call_ensures(FileRegistry::new, (), fresh),
    ensures
        ids@.len() == registry.files@.len(),
        forall|i: int| 0 <= i < ids@.len() ==> #[trigger] ids@[i] == registry.files@[i].id,
        fresh.files@.len() == 0,
{
}

/// The file that has been written successfully is used for the next write, unless it
/// must be reopened.
pub proof fn file_is_kept_if_ok<F>(
    handle: &mut FileHandle<F>,
    reopened: &mut FileHandle<F>,
    writing: &mut FileHandle<F>,
    syncing: &mut FileHandle<F>,
    forced: &mut FileHandle<F>,
    res: Result<F, Stage>,
    err: Result<(), Stage>,
    a: Option<F>,
    b: Option<F>,
    c: Option<F>,
)
    requires
        old(handle).file is None,
        !old(handle).reopen,
        call_ensures(FileHandle::<F>::finish, (handle, res), err),
        *old(writing) == *final(handle),
        call_ensures(FileHandle::<F>::begin_write, (writing,), a),
        *old(syncing) == *final(handle),
        call_ensures(FileHandle::<F>::begin_sync, (syncing,), b),
        *old(reopened) == *final(handle),
        call_ensures(FileHandle::<F>::schedule_reopen, (reopened,), ()),
        *old(forced) == *final(reopened),
        call_ensures(FileHandle::<F>::begin_write, (forced,), c),
    ensures
        res is Ok ==> err is Ok && a == Some(res->Ok_0) && b == Some(res->Ok_0),
        res is Err ==> err == Err::<(), Stage>(res->Err_0) && a is None && b is None,
        c is None,
        !final(forced).reopen,
        final(writing).file is None && final(syncing).file is None && final(forced).file is None,
        final(handle).path == old(handle).path && final(writing).path == old(handle).path
            && final(syncing).path == old(handle).path && final(forced).path == old(handle).path,
{
}

/// A new handle must be opened first.
pub proof fn new_handle_is_not_opened<F>(
    path: String,
    handle: &mut FileHandle<F>,
    file: Option<F>,
)
    requires
        call_ensures(FileHandle::<F>::new, (path,), *old(handle)),
        call_ensures(FileHandle::<F>::begin_write, (handle,), file),
    ensures
        file is None,
        final(handle).path == path,
{
}

/// Failures at different stages are described differently.
pub proof fn stages_are_described(
    open: &str,
    write: &str,
    flush: &str,
    sync: &str,
)
    requires
        call_ensures(Stage::description, (Stage::Open,), open),
        call_ensures(Stage::description, (Stage::Write,), write),
        call_ensures(Stage::description, (Stage::Flush,), flush),
        call_ensures(Stage::description, (Stage::Sync,), sync),
    ensures
        open@ == "cannot open"@,
        write@ == "cannot write to"@,
        flush@ == "cannot flush to"@,
        sync@ == "cannot sync"@,
{
}

} // verus!

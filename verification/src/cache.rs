//! The cache of credentials, volume and audio files: where files go, which file
//! is read, and what is done when a file is moved or deleted. The files
//! themselves are read and written elsewhere.
use crate::cache_path::{removed_key, CachePath, PendingDeletes};
use crate::errors::ErrorKind;
use crate::ids::FileId;
use crate::size_limiter::SizeLimiter;
use crate::text;
use vstd::prelude::*;

verus! {

/// The name of the list of due deletions.
pub const PENDING_DELETE_FILE: &'static str = ".pending_delete";

/// Why the cache cannot hold a file.
#[derive(Debug, Clone, Copy, PartialEq, Eq, Structural)]
pub enum CacheError {
    Path,
}

impl CacheError {
    /// The message of the error.
    pub fn message(&self) -> (message: &'static str)
        ensures
            message@ == "audio cache location is not configured"@,
    {
        "audio cache location is not configured"
    }

    /// The kind of the error.
    pub fn kind(&self) -> (kind: ErrorKind)
        ensures
            kind == ErrorKind::FailedPrecondition,
    {
        ErrorKind::FailedPrecondition
    }
}

/// The time of access that is taken for a file.
pub open spec fn known_time(
    accessed: Option<i128>,
    modified: Option<i128>,
    created: Option<i128>,
    now: i128,
) -> i128 {
    match accessed {
        Some(t) => t,
        None => match modified {
            Some(t) => t,
            None => match created {
                Some(t) => t,
                None => now,
            },
        },
    }
}

/// The time of access that is taken for a file: the first that is known of its
/// times of access, modification and creation, and else the current time.
pub fn access_time(
    accessed: Option<i128>,
    modified: Option<i128>,
    created: Option<i128>,
    now: i128,
) -> (time: i128)
    ensures
        time == known_time(accessed, modified, created, now),
{
    match accessed {
        Some(t) => t,
        None => match modified {
            Some(t) => t,
            None => match created {
                Some(t) => t,
                None => now,
            },
        },
    }
}

/// What an entry of a directory is.
#[derive(Debug, Clone, Copy, PartialEq, Eq, Structural)]
pub enum EntryKind {
    Directory,
    Symlink,
    File,
    Other,
    /// The kind could not be read.
    Unreadable,
}

/// What became of a deletion that was due.
#[derive(Debug, Clone, Copy, PartialEq, Eq, Structural)]
pub enum RetryOutcome {
    /// The file was not there any more.
    Gone,
    Deleted,
    Failed,
}

/// The volatile audio files, whose sizes are limited.
pub struct FsSizeLimiter {
    pub limiter: SizeLimiter,
    pub volatile_root: CachePath,
    pub pending_delete_file: CachePath,
}

impl FsSizeLimiter {
    /// Whether the limiter is consistent, and the paths are what their texts say.
    pub open spec fn wf(self) -> bool {
        &&& self.limiter.wf()
        &&& self.volatile_root.wf()
        &&& self.pending_delete_file.wf()
    }

    /// A limiter that knows no file yet.
    pub fn new(path: &CachePath, limit: u64) -> (this: FsSizeLimiter)
        requires
            path.wf(),
        ensures
            this.wf(),
            this.limiter.sizes() == Map::<Seq<char>, u64>::empty(),
            this.limiter.accessed() == Map::<Seq<char>, i128>::empty(),
            this.limiter.limit() == limit,
            this.limiter.paths() == Map::<Seq<char>, CachePath>::empty(),
            crate::size_limiter::is_same_path(this.volatile_root, *path),
            this.pending_delete_file.keys() == path.joined_keys(PENDING_DELETE_FILE@),
            this.pending_delete_file.text@ == path.joined_text(PENDING_DELETE_FILE@),
    {
        proof {
            reveal_strlit(".pending_delete");
            crate::path_reading::lemma_long_name(PENDING_DELETE_FILE@);
        }
        FsSizeLimiter {
            limiter: SizeLimiter::new(limit),
            volatile_root: path.copy(),
            pending_delete_file: path.join(PENDING_DELETE_FILE),
        }
    }

    /// Takes notice of an entry of a directory of the cache: files are added
    /// with their size and time of access, if these could be read. Tells whether
    /// the entry is to be searched in turn. The list of due deletions is passed
    /// over.
    pub fn init_entry(
        &mut self,
        path: &CachePath,
        kind: EntryKind,
        metadata: Option<(i128, u64)>,
    ) -> (descend: bool)
        requires
            old(self).wf(),
            metadata matches Some(m) ==> old(self).limiter.used() + m.1 <= u64::MAX,
        ensures
            final(self).wf(),
            final(self).volatile_root == old(self).volatile_root,
            final(self).pending_delete_file == old(self).pending_delete_file,
            final(self).limiter.limit() == old(self).limiter.limit(),
            ({
                let skipped = path.keys() == old(self).pending_delete_file.keys();
                let added = !skipped && kind == EntryKind::File && metadata is Some;
                &&& descend == (!skipped && (kind == EntryKind::Directory || kind
                    == EntryKind::Symlink))
                &&& added ==> final(self).limiter.sizes() == old(self).limiter.sizes().insert(
                    path.key(),
                    metadata->Some_0.1,
                ) && final(self).limiter.accessed() == old(self).limiter.accessed().insert(
                    path.key(),
                    metadata->Some_0.0,
                ) && crate::size_limiter::keeps_path(
                    old(self).limiter,
                    final(self).limiter,
                    *path,
                )
                &&& !added ==> final(self).limiter == old(self).limiter
            }),
    {
        if path.same(&self.pending_delete_file) {
            return false;
        }
        match kind {
            EntryKind::Directory | EntryKind::Symlink => true,
            EntryKind::File => {
                if let Some((time, size)) = metadata {
                    self.limiter.add(path, size, time);
                }
                false
            },
            _ => false,
        }
    }

    /// The path of a file inside the volatile cache, as it stands on the list of
    /// due deletions.
    pub open spec fn relative_keys(self, file: CachePath) -> Seq<crate::path_reading::PartKey> {
        file.keys().skip(self.volatile_root.keys().len() as int)
    }

    /// How the path of a file inside the volatile cache is written.
    pub open spec fn relative_text(self, file: CachePath) -> Seq<char> {
        file.text_from(self.volatile_root.keys().len() as int)
    }

    /// Puts the deletion of a file of the volatile cache on the list.
    pub fn enqueue_pending_delete(&self, pending: &mut PendingDeletes, file: &CachePath)
        requires
            file.wf(),
            old(pending).wf(),
        ensures
            final(pending).wf(),
            final(pending).paths() == if file.lies_in(self.volatile_root) {
                old(pending).paths().insert(self.relative_keys(*file))
            } else {
                old(pending).paths()
            },
            !file.lies_in(self.volatile_root) ==> *final(pending) == *old(pending),
            file.lies_in(self.volatile_root) ==> crate::cache_path::put_on(
                *old(pending),
                *final(pending),
                self.relative_keys(*file),
                self.relative_text(*file),
            ),
    {
        if let Some(relative) = file.strip_prefix(&self.volatile_root) {
            pending.insert(relative);
        }
    }

    /// Takes the deletion of a file of the volatile cache off the list.
    pub fn remove_pending_delete(&self, pending: &mut PendingDeletes, file: &CachePath)
        requires
            file.wf(),
            old(pending).wf(),
        ensures
            final(pending).wf(),
            final(pending).paths() == if file.lies_in(self.volatile_root) {
                old(pending).paths().remove(self.relative_keys(*file))
            } else {
                old(pending).paths()
            },
            !file.lies_in(self.volatile_root) ==> *final(pending) == *old(pending),
            file.lies_in(self.volatile_root) ==> crate::cache_path::taken_off(
                *old(pending),
                *final(pending),
                self.relative_keys(*file),
            ),
    {
        if let Some(relative) = file.strip_prefix(&self.volatile_root) {
            pending.remove(&relative);
        }
    }

    /// Goes on after a due deletion was tried again. What is gone or deleted
    /// leaves the list. The result is the identifier of the file if it was
    /// deleted, for whoever keeps something with it.
    pub fn retried(
        &self,
        pending: &mut PendingDeletes,
        file: &CachePath,
        outcome: RetryOutcome,
    ) -> (notify: Option<Vec<u8>>)
        requires
            file.wf(),
            old(pending).wf(),
        ensures
            final(pending).wf(),
            final(pending).paths() == if outcome != RetryOutcome::Failed && file.lies_in(
                self.volatile_root,
            ) {
                old(pending).paths().remove(self.relative_keys(*file))
            } else {
                old(pending).paths()
            },
            outcome == RetryOutcome::Failed || !file.lies_in(self.volatile_root) ==> *final(pending)
                == *old(pending),
            outcome != RetryOutcome::Failed && file.lies_in(self.volatile_root)
                ==> crate::cache_path::taken_off(
                *old(pending),
                *final(pending),
                self.relative_keys(*file),
            ),
            notify is Some <==> outcome == RetryOutcome::Deleted && spells_a_key(*file),
            notify matches Some(bytes) ==> bytes@ == spelled_key(*file),
    {
        match outcome {
            RetryOutcome::Gone => {
                self.remove_pending_delete(pending, file);
                None
            },
            RetryOutcome::Deleted => {
                self.remove_pending_delete(pending, file);
                removed_key(file)
            },
            RetryOutcome::Failed => None,
        }
    }

    /// Goes on after a file that makes the cache too large was deleted, or could
    /// not be: then its deletion is due. The result is the identifier of the
    /// file if it was deleted.
    pub fn pruned(&self, pending: &mut PendingDeletes, file: &CachePath, deleted: bool) -> (notify:
        Option<Vec<u8>>)
        requires
            file.wf(),
            old(pending).wf(),
        ensures
            final(pending).wf(),
            final(pending).paths() == if !file.lies_in(self.volatile_root) {
                old(pending).paths()
            } else if deleted {
                old(pending).paths().remove(self.relative_keys(*file))
            } else {
                old(pending).paths().insert(self.relative_keys(*file))
            },
            !file.lies_in(self.volatile_root) ==> *final(pending) == *old(pending),
            file.lies_in(self.volatile_root) && deleted ==> crate::cache_path::taken_off(
                *old(pending),
                *final(pending),
                self.relative_keys(*file),
            ),
            file.lies_in(self.volatile_root) && !deleted ==> crate::cache_path::put_on(
                *old(pending),
                *final(pending),
                self.relative_keys(*file),
                self.relative_text(*file),
            ),
            notify is Some <==> deleted && spells_a_key(*file),
            notify matches Some(bytes) ==> bytes@ == spelled_key(*file),
    {
        if deleted {
            self.remove_pending_delete(pending, file);
            removed_key(file)
        } else {
            self.enqueue_pending_delete(pending, file);
            None
        }
    }

    /// Does what follows after a file was opened, written, moved or deleted.
    /// `size` is the size of the file, and `now` the current time. Tells whether
    /// the cache is to be pruned next.
    pub fn settle(
        &mut self,
        pending: &mut PendingDeletes,
        task: LimiterTask,
        file: &CachePath,
        size: u64,
        now: i128,
    ) -> (prune: bool)
        requires
            old(self).wf(),
            old(pending).wf(),
            file.wf(),
            adds_file(task) ==> old(self).limiter.used() + size <= u64::MAX,
        ensures
            final(self).wf(),
            final(pending).wf(),
            final(self).volatile_root == old(self).volatile_root,
            final(self).pending_delete_file == old(self).pending_delete_file,
            final(self).limiter.limit() == old(self).limiter.limit(),
            prune == adds_file(task),
            final(self).limiter.sizes() == settled_sizes(
                task,
                old(self).limiter.sizes(),
                file.key(),
                size,
            ),
            final(self).limiter.accessed() == settled_times(
                task,
                old(self).limiter.sizes(),
                old(self).limiter.accessed(),
                file.key(),
                now,
            ),
            adds_file(task) ==> crate::size_limiter::keeps_path(
                old(self).limiter,
                final(self).limiter,
                *file,
            ),
            !adds_file(task) ==> final(self).limiter.paths() == if forgets_file(task) {
                old(self).limiter.paths().remove(file.key())
            } else {
                old(self).limiter.paths()
            },
            !changes_list(task) || !file.lies_in(old(self).volatile_root) ==> *final(pending)
                == *old(pending),
            changes_list(task) && file.lies_in(old(self).volatile_root) ==> if task
                == LimiterTask::Retry {
                crate::cache_path::put_on(
                    *old(pending),
                    *final(pending),
                    old(self).relative_keys(*file),
                    old(self).relative_text(*file),
                )
            } else {
                crate::cache_path::taken_off(
                    *old(pending),
                    *final(pending),
                    old(self).relative_keys(*file),
                )
            },
    {
        match task {
            LimiterTask::Nothing => false,
            LimiterTask::Forget => {
                self.limiter.remove(file);
                self.remove_pending_delete(pending, file);
                false
            },
            LimiterTask::Retry => {
                self.limiter.remove(file);
                self.enqueue_pending_delete(pending, file);
                false
            },
            LimiterTask::Measure => {
                self.limiter.add(file, size, now);
                true
            },
            LimiterTask::AddWritten => {
                self.remove_pending_delete(pending, file);
                self.limiter.add(file, size, now);
                true
            },
            LimiterTask::Touch => {
                self.limiter.update(file, now);
                false
            },
        }
    }
}

/// Whether a file is added to the limiter.
pub open spec fn adds_file(task: LimiterTask) -> bool {
    task == LimiterTask::Measure || task == LimiterTask::AddWritten
}

/// Whether the limiter forgets a file.
pub open spec fn forgets_file(task: LimiterTask) -> bool {
    task == LimiterTask::Forget || task == LimiterTask::Retry
}

/// Whether the list of due deletions changes.
pub open spec fn changes_list(task: LimiterTask) -> bool {
    task == LimiterTask::Forget || task == LimiterTask::Retry || task == LimiterTask::AddWritten
}

/// The sizes that are known after a task was done for a file.
pub open spec fn settled_sizes(
    task: LimiterTask,
    sizes: Map<Seq<char>, u64>,
    key: Seq<char>,
    size: u64,
) -> Map<Seq<char>, u64> {
    if adds_file(task) {
        sizes.insert(key, size)
    } else if forgets_file(task) {
        sizes.remove(key)
    } else {
        sizes
    }
}

/// The times of access that are known after a task was done for a file.
pub open spec fn settled_times(
    task: LimiterTask,
    sizes: Map<Seq<char>, u64>,
    times: Map<Seq<char>, i128>,
    key: Seq<char>,
    now: i128,
) -> Map<Seq<char>, i128> {
    if adds_file(task) || (task == LimiterTask::Touch && sizes.contains_key(key)) {
        times.insert(key, now)
    } else if forgets_file(task) {
        times.remove(key)
    } else {
        times
    }
}

impl LimiterTask {
    /// Whether the list of due deletions changes.
    pub fn needs_list(&self) -> (needed: bool)
        ensures
            needed == changes_list(*self),
    {
        match self {
            LimiterTask::Forget | LimiterTask::Retry | LimiterTask::AddWritten => true,
            _ => false,
        }
    }
}

/// The error for a file that is to be moved and is not there. `shown` is its
/// path as errors show it.
pub fn missing_file(shown: &str) -> (error: (ErrorKind, String))
    ensures
        error.0 == ErrorKind::NotFound,
        error.1@ == "cache file not found: "@ + shown@,
{
    (ErrorKind::NotFound, text::concat("cache file not found: ", shown))
}

/// What is to be done next to make the cache small enough.
#[derive(Debug, Clone, Copy, PartialEq, Eq, Structural)]
pub enum PruneCall {
    /// Try the deletions that are due once more.
    RetryDue,
    /// Delete the file that was given up.
    Delete,
    /// Try the deletions that are due once more, at the end.
    RetryAgain,
}

/// A round of deletions that make the cache small enough.
#[derive(Debug)]
pub struct Pruning<E> {
    pub call: PruneCall,
    /// The file that was given up.
    pub file: Option<CachePath>,
    /// The error of the last deletion that failed.
    pub last_error: Option<E>,
}

/// How a round of deletions goes on.
#[derive(Debug)]
pub enum PruneStep<E> {
    Call,
    Finished(Result<(), E>),
}

/// Whether a round and the limiter are what a call makes of them. `result` is what
/// became of a deletion. Files are given up until the limit is kept, and the round
/// comes to the error of the last deletion that failed.
pub open spec fn is_prune_step<E>(
    before: Pruning<E>,
    limiter: SizeLimiter,
    result: Result<(), E>,
    after: Pruning<E>,
    next: SizeLimiter,
    step: PruneStep<E>,
) -> bool {
    &&& next.limit() == limiter.limit()
    &&& before.call == PruneCall::RetryAgain ==> {
        &&& step == match before.last_error {
            Some(error) => PruneStep::<E>::Finished(Err(error)),
            None => PruneStep::<E>::Finished(Ok(())),
        }
        &&& next == limiter
    }
    &&& before.call != PruneCall::RetryAgain ==> {
        &&& step is Call
        &&& after.last_error == match result {
            Err(error) if before.call == PruneCall::Delete => Some(error),
            _ => before.last_error,
        }
        &&& if limiter.used() > limiter.limit() {
            &&& after.call == PruneCall::Delete
            &&& after.file matches Some(file) && crate::size_limiter::gave_up(limiter, next, file)
        } else {
            &&& after.call == PruneCall::RetryAgain
            &&& after.file is None
            &&& crate::size_limiter::same_files(limiter, next)
        }
    }
}

impl<E> Pruning<E> {
    /// A round in which nothing was done yet.
    pub fn new() -> (pruning: Pruning<E>)
        ensures
            pruning.call == PruneCall::RetryDue,
            pruning.file is None,
            pruning.last_error is None,
    {
        Pruning { call: PruneCall::RetryDue, file: None, last_error: None }
    }

    /// Goes on after a call. `result` is what became of a deletion. Files are
    /// given up until the limit is kept, and the round comes to the error of the
    /// last deletion that failed.
    pub fn advance(&mut self, limiter: &mut SizeLimiter, result: Result<(), E>) -> (step: PruneStep<
        E,
    >)
        requires
            old(limiter).wf(),
        ensures
            final(limiter).wf(),
            is_prune_step(*old(self), *old(limiter), result, *final(self), *final(limiter), step),
    {
        if self.call == PruneCall::RetryAgain {
            return match self.last_error.take() {
                Some(error) => PruneStep::Finished(Err(error)),
                None => PruneStep::Finished(Ok(())),
            };
        }
        if self.call == PruneCall::Delete {
            if let Err(error) = result {
                self.last_error = Some(error);
            }
        }
        match limiter.pop() {
            Some(file) => {
                self.file = Some(file);
                self.call = PruneCall::Delete;
            },
            None => {
                self.file = None;
                self.call = PruneCall::RetryAgain;
            },
        }
        PruneStep::Call
    }
}

/// Whether the path of a file spells an identifier.
pub open spec fn spells_a_key(file: CachePath) -> bool {
    &&& crate::cache_path::key_text(file.keys()) is Some
    &&& crate::cache_path::is_pairs(crate::cache_path::key_text(file.keys())->Some_0)
}

/// The identifier that the path of a file spells.
pub open spec fn spelled_key(file: CachePath) -> Seq<u8> {
    crate::cache_path::pair_bytes(crate::cache_path::key_text(file.keys())->Some_0)
}

/// Where the cache keeps what it keeps.
pub struct Cache {
    pub credentials_location: Option<CachePath>,
    pub volume_location: Option<CachePath>,
    pub audio_location: Option<CachePath>,
    pub persisted_audio_location: Option<CachePath>,
    /// Whether the sizes of the volatile files are limited.
    pub limited: bool,
}

/// A file that changes its place.
#[derive(Debug)]
pub struct FileMove {
    pub from: CachePath,
    pub to: CachePath,
    /// The directory that the file goes to.
    pub directory: CachePath,
}

/// What is to be done with the limiter and the list of due deletions after a
/// file was moved or deleted.
#[derive(Debug, Clone, Copy, PartialEq, Eq, Structural)]
pub enum LimiterTask {
    Nothing,
    /// Forget the file, and take its deletion off the list.
    Forget,
    /// Forget the file, and put its deletion on the list.
    Retry,
    /// Read the size of the file, add it, and prune.
    Measure,
    /// Take the deletion of the file off the list, add it with the size that
    /// was written, and prune.
    AddWritten,
    /// Set the access time of the file.
    Touch,
}

/// What became of the deletion of a file.
#[derive(Debug)]
pub enum Removal {
    /// The file is gone, or will be.
    Done { task: LimiterTask, notify: Option<Vec<u8>> },
    /// The error of the deletion is reported.
    Failed,
}

/// The keys of the path under which `root` holds a file.
pub open spec fn file_keys(root: CachePath, file: FileId) -> Seq<crate::path_reading::PartKey> {
    let name = crate::encoding::lower_hex(file.0@);
    root.joined_keys(name.take(2)).push((4, name.skip(2)))
}

/// How the path under which `root` holds a file is written.
pub open spec fn file_text(root: CachePath, file: FileId) -> Seq<char> {
    crate::path_reading::joined_text(
        directory_text(root, file),
        root.prefix,
        root.style,
        crate::encoding::lower_hex(file.0@).skip(2),
    )
}

/// How the directory under which `root` holds a file is written.
pub open spec fn directory_text(root: CachePath, file: FileId) -> Seq<char> {
    root.joined_text(crate::encoding::lower_hex(file.0@).take(2))
}

/// Whether a path is the one under which `root` holds a file.
pub open spec fn is_file_path(path: CachePath, root: CachePath, file: FileId) -> bool {
    &&& path.wf()
    &&& path.style == root.style
    &&& path.keys() == file_keys(root, file)
    &&& path.text@ == file_text(root, file)
}

/// Whether a path is the directory under which `root` holds a file.
pub open spec fn is_directory_path(path: CachePath, root: CachePath, file: FileId) -> bool {
    &&& path.wf()
    &&& path.style == root.style
    &&& path.keys() == file_keys(root, file).drop_last()
    &&& path.text@ == directory_text(root, file)
}

/// Hexadecimal digits are a name.
proof fn lemma_hex_name(bytes: Seq<u8>, from: int, to: int)
    requires
        0 <= from < to <= 2 * bytes.len(),
    ensures
        crate::path_reading::is_name(crate::encoding::lower_hex(bytes).subrange(from, to)),
{
    let text = crate::encoding::lower_hex(bytes);
    let name = text.subrange(from, to);
    assert forall|k: int| 0 <= k < name.len() implies #[trigger] name[k] != '/' && name[k] != '\\'
        && name[k] != ':' && name[k] != '.' by {
        assert(name[k] == text[from + k]);
    }
    assert(name[0] != '.');
    assert(seq!['.'][0] == '.');
    assert(seq!['.', '.'][0] == '.');
}

/// The path under which `root` holds a file, and the directory of that path:
/// the first two digits of the identifier are the directory, the others are
/// the name.
fn file_in(root: &CachePath, file: FileId) -> (paths: (CachePath, CachePath))
    requires
        root.wf(),
    ensures
        is_file_path(paths.0, *root, file),
        is_directory_path(paths.1, *root, file),
{
    let name = file.to_base16();
    let chars = text::to_chars(name.as_str());
    let directory_name = text::from_chars(&chars, 0, 2);
    let file_name = text::from_chars(&chars, 2, chars.len());
    assert(directory_name@ =~= name@.take(2));
    assert(file_name@ =~= name@.skip(2));
    proof {
        lemma_hex_name(file.0@, 0, 2);
        lemma_hex_name(file.0@, 2, 40);
    }
    let directory = root.join(directory_name.as_str());
    let path = directory.join(file_name.as_str());
    proof {
        lemma_joined_is_longer(*root, name@.take(2));
    }
    assert(path.keys().drop_last() =~= directory.keys());
    (path, directory)
}

/// A path that was continued is no bare prefix.
proof fn lemma_joined_is_longer(path: CachePath, name: Seq<char>)
    requires
        path.wf(),
        name.len() > 0,
    ensures
        !crate::path_reading::is_bare_verbatim(path.joined_text(name), path.prefix),
{
}

/// Whether an optional path is what its text says.
pub open spec fn optional_wf(path: Option<CachePath>) -> bool {
    path matches Some(p) ==> p.wf()
}

impl Cache {
    /// A cache in the given directories. A limit on sizes has an effect only
    /// where there is a directory for volatile files.
    pub fn new(
        credentials_path: Option<CachePath>,
        volume_path: Option<CachePath>,
        audio_path: Option<CachePath>,
        persisted_audio_path: Option<CachePath>,
        has_size_limit: bool,
    ) -> (cache: Cache)
        requires
            optional_wf(credentials_path),
            optional_wf(volume_path),
            optional_wf(audio_path),
            optional_wf(persisted_audio_path),
        ensures
            cache.wf(),
            cache.credentials_location is Some <==> credentials_path is Some,
            cache.credentials_location matches Some(path) ==> {
                let root = credentials_path->Some_0;
                &&& path.keys() == root.joined_keys("credentials.json"@)
                &&& path.text@ == root.joined_text("credentials.json"@)
            },
            cache.volume_location is Some <==> volume_path is Some,
            cache.volume_location matches Some(path) ==> {
                let root = volume_path->Some_0;
                &&& path.keys() == root.joined_keys("volume"@)
                &&& path.text@ == root.joined_text("volume"@)
            },
            cache.audio_location == audio_path,
            cache.persisted_audio_location == persisted_audio_path,
            cache.limited == (audio_path is Some && has_size_limit),
    {
        proof {
            reveal_strlit("credentials.json");
            reveal_strlit("volume");
            crate::path_reading::lemma_long_name("credentials.json"@);
            crate::path_reading::lemma_long_name("volume"@);
        }
        let credentials_location = match &credentials_path {
            Some(path) => Some(path.join("credentials.json")),
            None => None,
        };
        let volume_location = match &volume_path {
            Some(path) => Some(path.join("volume")),
            None => None,
        };
        let limited = audio_path.is_some() && has_size_limit;
        Cache {
            credentials_location,
            volume_location,
            audio_location: audio_path,
            persisted_audio_location: persisted_audio_path,
            limited,
        }
    }

    /// Whether the paths are what their texts say.
    pub open spec fn wf(self) -> bool {
        &&& optional_wf(self.credentials_location)
        &&& optional_wf(self.volume_location)
        &&& optional_wf(self.audio_location)
        &&& optional_wf(self.persisted_audio_location)
    }

    /// Whether a path is that of a volatile file.
    pub open spec fn is_volatile(self, path: CachePath) -> bool {
        self.audio_location matches Some(root) && path.lies_in(root)
    }

    /// Whether a path is that of a volatile file.
    fn is_volatile_path(&self, path: &CachePath) -> (volatile: bool)
        ensures
            volatile == self.is_volatile(*path),
    {
        match &self.audio_location {
            Some(root) => path.starts_with(root),
            None => false,
        }
    }

    /// Where a volatile file is.
    pub fn volatile_file_path(&self, file: FileId) -> (path: Option<CachePath>)
        requires
            self.wf(),
        ensures
            path is Some <==> self.audio_location is Some,
            path matches Some(p) ==> is_file_path(p, self.audio_location->Some_0, file),
    {
        match &self.audio_location {
            Some(root) => Some(file_in(root, file).0),
            None => None,
        }
    }

    /// Where a persisted file is.
    pub fn persisted_file_path(&self, file: FileId) -> (path: Option<CachePath>)
        requires
            self.wf(),
        ensures
            path is Some <==> self.persisted_audio_location is Some,
            path matches Some(p) ==> is_file_path(p, self.persisted_audio_location->Some_0, file),
    {
        match &self.persisted_audio_location {
            Some(root) => Some(file_in(root, file).0),
            None => None,
        }
    }

    /// Which directory the path of a file is taken from, given where the file
    /// exists: a persisted file comes before a volatile one, and where there is
    /// none the persisted place comes before the volatile one.
    pub open spec fn chosen_root(self, persisted_exists: bool, volatile_exists: bool) -> Option<
        CachePath,
    > {
        if self.persisted_audio_location is Some && persisted_exists {
            self.persisted_audio_location
        } else if self.audio_location is Some && volatile_exists {
            self.audio_location
        } else if self.persisted_audio_location is Some {
            self.persisted_audio_location
        } else {
            self.audio_location
        }
    }

    /// Where a file is, or would be.
    pub fn file_path(&self, file: FileId, persisted_exists: bool, volatile_exists: bool) -> (path:
        Option<CachePath>)
        requires
            self.wf(),
        ensures
            path is Some <==> self.chosen_root(persisted_exists, volatile_exists) is Some,
            path matches Some(p) ==> is_file_path(
                p,
                self.chosen_root(persisted_exists, volatile_exists)->Some_0,
                file,
            ),
            self.persisted_audio_location is Some && persisted_exists ==> (path matches Some(p)
                && is_file_path(p, self.persisted_audio_location->Some_0, file)),
            self.audio_location is Some && volatile_exists && !(self.persisted_audio_location is Some
                && persisted_exists) ==> (path matches Some(p) && is_file_path(
                p,
                self.audio_location->Some_0,
                file,
            )),
    {
        if persisted_exists {
            if let Some(path) = self.persisted_file_path(file) {
                return Some(path);
            }
        }
        if volatile_exists {
            if let Some(path) = self.volatile_file_path(file) {
                return Some(path);
            }
        }
        match self.persisted_file_path(file) {
            Some(path) => Some(path),
            None => self.volatile_file_path(file),
        }
    }

    /// What to do about a file that was opened.
    pub open spec fn opened_task(self, path: CachePath) -> LimiterTask {
        if self.limited && self.is_volatile(path) {
            LimiterTask::Touch
        } else {
            LimiterTask::Nothing
        }
    }

    /// What to do about a volatile file that was moved away or came back.
    pub open spec fn moved_task(self, persisted: bool) -> LimiterTask {
        if !self.limited {
            LimiterTask::Nothing
        } else if persisted {
            LimiterTask::Forget
        } else {
            LimiterTask::Measure
        }
    }

    /// What to do about a volatile file that was written.
    pub open spec fn saved_task(self) -> LimiterTask {
        if self.limited {
            LimiterTask::AddWritten
        } else {
            LimiterTask::Nothing
        }
    }

    /// What to do about a file that was deleted, or could not be.
    pub open spec fn removed_task(self, path: CachePath, deleted: bool) -> LimiterTask {
        if !self.is_volatile(path) || !self.limited {
            LimiterTask::Nothing
        } else if deleted {
            LimiterTask::Forget
        } else {
            LimiterTask::Retry
        }
    }

    /// Whether a file goes by a plan from the volatile directory to the
    /// persisted one, or back.
    pub open spec fn is_move(self, plan: FileMove, file: FileId, persisted: bool) -> bool {
        let volatile = self.audio_location->Some_0;
        let stable = self.persisted_audio_location->Some_0;
        let (source, target) = if persisted {
            (volatile, stable)
        } else {
            (stable, volatile)
        };
        &&& is_file_path(plan.from, source, file)
        &&& is_file_path(plan.to, target, file)
        &&& is_directory_path(plan.directory, target, file)
    }

    /// What to do about a file that was opened.
    pub fn opened(&self, path: &CachePath) -> (task: LimiterTask)
        ensures
            task == self.opened_task(*path),
    {
        if self.limited && self.is_volatile_path(path) {
            LimiterTask::Touch
        } else {
            LimiterTask::Nothing
        }
    }

    /// How a file is moved between the volatile and the persisted directory.
    pub fn set_persisted(&self, file: FileId, persisted: bool) -> (result: Result<
        FileMove,
        CacheError,
    >)
        requires
            self.wf(),
        ensures
            result is Ok <==> self.audio_location is Some && self.persisted_audio_location is Some,
            result matches Err(error) ==> error == CacheError::Path,
            result matches Ok(plan) ==> self.is_move(plan, file, persisted),
    {
        match (&self.audio_location, &self.persisted_audio_location) {
            (Some(volatile), Some(stable)) => {
                let (source, target) = if persisted {
                    (volatile, stable)
                } else {
                    (stable, volatile)
                };
                let from = file_in(source, file).0;
                let (to, directory) = file_in(target, file);
                Ok(FileMove { from, to, directory })
            },
            _ => Err(CacheError::Path),
        }
    }

    /// What to do about a volatile file that was moved away or came back.
    pub fn moved(&self, persisted: bool) -> (task: LimiterTask)
        ensures
            task == self.moved_task(persisted),
    {
        if !self.limited {
            LimiterTask::Nothing
        } else if persisted {
            LimiterTask::Forget
        } else {
            LimiterTask::Measure
        }
    }

    /// Where a file is to be written, and the directory of that path, and what
    /// to do once it is.
    pub fn save_file(&self, file: FileId) -> (result: Result<
        (CachePath, CachePath, LimiterTask),
        CacheError,
    >)
        requires
            self.wf(),
        ensures
            result is Ok <==> self.audio_location is Some,
            result matches Err(error) ==> error == CacheError::Path,
            result matches Ok((path, directory, task)) ==> {
                let root = self.audio_location->Some_0;
                &&& is_file_path(path, root, file)
                &&& is_directory_path(directory, root, file)
                &&& task == self.saved_task()
            },
    {
        match &self.audio_location {
            Some(root) => {
                let (path, directory) = file_in(root, file);
                let task = if self.limited {
                    LimiterTask::AddWritten
                } else {
                    LimiterTask::Nothing
                };
                Ok((path, directory, task))
            },
            None => Err(CacheError::Path),
        }
    }

    /// Which directory a file is deleted from, given where it exists.
    pub open spec fn removed_root(self, persisted_exists: bool, volatile_exists: bool) -> Option<
        CachePath,
    > {
        if self.persisted_audio_location is Some && persisted_exists {
            self.persisted_audio_location
        } else if self.audio_location is Some && volatile_exists {
            self.audio_location
        } else {
            None
        }
    }

    /// Which file is deleted, given where it exists: the persisted one before the
    /// volatile one.
    pub fn remove_file(&self, file: FileId, persisted_exists: bool, volatile_exists: bool) -> (
        result: Result<CachePath, CacheError>)
        requires
            self.wf(),
        ensures
            result is Ok <==> self.removed_root(persisted_exists, volatile_exists) is Some,
            result matches Err(error) ==> error == CacheError::Path,
            result matches Ok(path) ==> is_file_path(
                path,
                self.removed_root(persisted_exists, volatile_exists)->Some_0,
                file,
            ),
    {
        if persisted_exists {
            if let Some(path) = self.persisted_file_path(file) {
                return Ok(path);
            }
        }
        if volatile_exists {
            if let Some(path) = self.volatile_file_path(file) {
                return Ok(path);
            }
        }
        Err(CacheError::Path)
    }

    /// Whether a removal is what follows the deletion of a file.
    pub open spec fn is_removal(
        self,
        file: FileId,
        path: CachePath,
        deleted: bool,
        removal: Removal,
    ) -> bool {
        match removal {
            Removal::Failed => !deleted && !self.is_volatile(path),
            Removal::Done { task, notify } => {
                &&& deleted || self.is_volatile(path)
                &&& task == self.removed_task(path, deleted)
                &&& notify is Some <==> deleted
                &&& notify matches Some(bytes) ==> bytes@ == file.0@
            },
        }
    }

    /// What follows the deletion of a file. A volatile file that cannot be
    /// deleted counts as deleted: its deletion is tried again later.
    pub fn removed(&self, file: FileId, path: &CachePath, deleted: bool) -> (removal: Removal)
        ensures
            self.is_removal(file, *path, deleted, removal),
    {
        let volatile = self.is_volatile_path(path);
        if !deleted {
            if !volatile {
                return Removal::Failed;
            }
            let task = if self.limited {
                LimiterTask::Retry
            } else {
                LimiterTask::Nothing
            };
            return Removal::Done { task, notify: None };
        }
        let name = file.to_base16();
        proof {
            crate::cache_path::law_name_spells_the_file(file);
        }
        let notify = crate::cache_path::key_bytes(name.as_str());
        let task = if self.limited && volatile {
            LimiterTask::Forget
        } else {
            LimiterTask::Nothing
        };
        Removal::Done { task, notify }
    }
}

/// The volume that was stored as a text; nothing if the text is no volume.
pub fn parse_volume(content: &str) -> (volume: Option<u16>)
    ensures
        volume is Some <==> text::unsigned_number(content@, 65_535) is Some,
        volume matches Some(value) ==> value as nat == text::unsigned_number(
            content@,
            65_535,
        )->Some_0,
{
    match text::parse_unsigned(content, 65_535) {
        Some(value) => Some(value as u16),
        None => None,
    }
}

/// The text that stores a volume.
pub fn volume_text(volume: u16) -> (content: String)
    ensures
        content@ == text::decimal(volume as nat),
{
    text::to_decimal(volume as u64)
}

/// A volume that was stored reads back.
pub proof fn law_volume_round_trip(volume: u16)
    ensures
        text::unsigned_number(text::decimal(volume as nat), 65_535) == Some(volume as nat),
{
    text::law_decimal_round_trip(volume as nat, 65_535);
}

/// A file of the cache spells its identifier, wherever its directory lies: what
/// is handed on when a file is pruned is the identifier of the file.
pub proof fn law_pruned_file_is_named(root: CachePath, file: FileId)
    ensures
        ({
            let key = crate::cache_path::key_text(file_keys(root, file));
            &&& key == Some(crate::encoding::lower_hex(file.0@))
            &&& crate::cache_path::is_pairs(key->Some_0)
            &&& crate::cache_path::pair_bytes(key->Some_0) == file.0@
        }),
{
    let name = crate::encoding::lower_hex(file.0@);
    let keys = file_keys(root, file);
    assert(keys.drop_last() =~= root.joined_keys(name.take(2)));
    assert(name.take(2) + name.skip(2) =~= name);
    crate::cache_path::law_name_spells_the_file(file);
}

/// A file that was moved to where files are kept is not given up any more when
/// the cache is pruned: the limiter forgets it, however its path was written, and
/// gives up only files that it knows.
pub proof fn law_a_kept_file_is_not_given_up(
    before: FsSizeLimiter,
    after: FsSizeLimiter,
    kept: CachePath,
    pruned: SizeLimiter,
    given_up: CachePath,
)
    requires
        after.limiter.sizes() == before.limiter.sizes().remove(kept.key()),
        crate::size_limiter::gave_up(after.limiter, pruned, given_up),
    ensures
        given_up.key() != kept.key(),
        given_up.style == kept.style ==> given_up.keys() != kept.keys(),
{
}

/// A round of deletions ends, and leaves the cache within its limit: as long as
/// the limit is exceeded there is a file to give up, and with each there is one
/// less.
pub proof fn law_pruning_ends_within_the_limit(
    before: SizeLimiter,
    after: SizeLimiter,
    file: CachePath,
)
    requires
        before.wf(),
        crate::size_limiter::gave_up(before, after, file),
    ensures
        after.sizes().dom().finite(),
        after.sizes().dom().len() == before.sizes().dom().len() - 1,
        after.used() == before.used() - before.sizes()[file.key()],
        after.sizes().dom().len() == 0 ==> after.used() <= after.limit(),
{
    crate::size_limiter::law_each_file_is_known_in_full(before);
    crate::size_limiter::law_popping_makes_progress(before.sizes(), file.key());
}

/// The files of a cache lie in the directory that they were put in, so that a
/// volatile file is known as one.
pub proof fn law_files_lie_in_their_root(root: CachePath, file: FileId)
    ensures
        root.keys().is_prefix_of(file_keys(root, file)),
        file_keys(root, file).len() == root.keys().len() + (if crate::path_reading::is_bare_verbatim(
            root.text@,
            root.prefix,
        ) {
            3int
        } else {
            2int
        }),
{
    assert(root.keys() =~= file_keys(root, file).take(root.keys().len() as int));
}

/// A file that exists in a directory of the cache is found there. Where it
/// exists among the persisted files it is taken from these, whether or not it
/// exists among the volatile ones too. Where it exists only among the volatile
/// ones it is taken from those. A file that exists nowhere would be among the
/// persisted ones where there is a place for these.
pub proof fn law_an_existing_file_is_found(
    cache: Cache,
    file: FileId,
    found: CachePath,
    persisted_exists: bool,
    volatile_exists: bool,
)
    requires
        cache.chosen_root(persisted_exists, volatile_exists) matches Some(root) && is_file_path(
            found,
            root,
            file,
        ),
    ensures
        cache.persisted_audio_location matches Some(root) ==> persisted_exists ==> found.keys()
            == file_keys(root, file) && found.text@ == file_text(root, file),
        cache.audio_location matches Some(root) ==> volatile_exists && (!persisted_exists
            || cache.persisted_audio_location is None) ==> found.keys() == file_keys(root, file)
            && found.text@ == file_text(root, file),
        !persisted_exists && !volatile_exists ==> match cache.persisted_audio_location {
            Some(root) => found.keys() == file_keys(root, file),
            None => cache.audio_location matches Some(root) && found.keys() == file_keys(
                root,
                file,
            ),
        },
{
}

/// There is a path for a file wherever a directory is configured.
pub proof fn law_a_configured_cache_has_a_place(
    cache: Cache,
    persisted_exists: bool,
    volatile_exists: bool,
)
    ensures
        cache.chosen_root(persisted_exists, volatile_exists) is Some
            <==> cache.persisted_audio_location is Some || cache.audio_location is Some,
{
}

/// A file is found where it was moved to: after it was moved to the persisted
/// files, where it exists and among the volatile ones no more, its path is the
/// target of the move, and after it was moved back as well. The one move starts
/// where the other ends.
pub proof fn law_a_moved_file_is_found_at_its_target(
    cache: Cache,
    file: FileId,
    plan: FileMove,
    back: FileMove,
    found: CachePath,
    persisted: bool,
)
    requires
        cache.audio_location is Some,
        cache.persisted_audio_location is Some,
        cache.is_move(plan, file, persisted),
        cache.is_move(back, file, !persisted),
        cache.chosen_root(persisted, !persisted) matches Some(root) && is_file_path(
            found,
            root,
            file,
        ),
    ensures
        found.keys() == plan.to.keys(),
        found.text@ == plan.to.text@,
        found.style == plan.to.style,
        plan.to.keys() == back.from.keys() && plan.to.text@ == back.from.text@,
        plan.from.keys() == back.to.keys() && plan.from.text@ == back.to.text@,
        plan.directory.keys() == plan.to.keys().drop_last(),
        persisted ==> plan.to.keys() == file_keys(cache.persisted_audio_location->Some_0, file)
            && plan.from.keys() == file_keys(cache.audio_location->Some_0, file),
        !persisted ==> plan.to.keys() == file_keys(cache.audio_location->Some_0, file)
            && plan.from.keys() == file_keys(cache.persisted_audio_location->Some_0, file),
{
}

/// The limiter knows the volatile files that there are, and no others. A file
/// that was written or came back is known with its size and the current time,
/// and the cache is pruned next. A file that was opened keeps its size and gets
/// the current time. A file that was moved away, deleted, or could not be deleted
/// is known no more. Without a limit, and for files that are not volatile,
/// nothing changes. Other files stay as they are.
pub proof fn law_the_limiter_knows_the_volatile_files(
    cache: Cache,
    path: CachePath,
    deleted: bool,
    sizes: Map<Seq<char>, u64>,
    times: Map<Seq<char>, i128>,
    size: u64,
    now: i128,
)
    ensures
        ({
            let key = path.key();
            let saved = cache.saved_task();
            let away = cache.moved_task(true);
            let back = cache.moved_task(false);
            let opened = cache.opened_task(path);
            let removed = cache.removed_task(path, deleted);
            &&& cache.limited ==> {
                &&& adds_file(saved) && adds_file(back)
                &&& settled_sizes(saved, sizes, key, size).contains_pair(key, size)
                &&& settled_times(saved, sizes, times, key, now).contains_pair(key, now)
                &&& settled_sizes(back, sizes, key, size).contains_pair(key, size)
                &&& settled_times(back, sizes, times, key, now).contains_pair(key, now)
                &&& !settled_sizes(away, sizes, key, size).contains_key(key)
                &&& !settled_times(away, sizes, times, key, now).contains_key(key)
            }
            &&& cache.limited && cache.is_volatile(path) ==> {
                &&& settled_sizes(opened, sizes, key, size) == sizes
                &&& sizes.contains_key(key) ==> settled_times(
                    opened,
                    sizes,
                    times,
                    key,
                    now,
                ).contains_pair(key, now)
                &&& !settled_sizes(removed, sizes, key, size).contains_key(key)
                &&& !settled_times(removed, sizes, times, key, now).contains_key(key)
                &&& changes_list(removed)
                &&& removed == LimiterTask::Retry <==> !deleted
            }
            &&& !cache.limited || !cache.is_volatile(path) ==> {
                &&& settled_sizes(opened, sizes, key, size) == sizes
                &&& settled_times(opened, sizes, times, key, now) == times
                &&& settled_sizes(removed, sizes, key, size) == sizes
                &&& settled_times(removed, sizes, times, key, now) == times
                &&& !changes_list(opened) && !changes_list(removed)
            }
            &&& !cache.limited ==> {
                &&& settled_sizes(saved, sizes, key, size) == sizes
                &&& settled_sizes(away, sizes, key, size) == sizes
                &&& settled_sizes(back, sizes, key, size) == sizes
                &&& !adds_file(saved) && !adds_file(back)
                &&& !changes_list(saved) && !changes_list(away) && !changes_list(back)
            }
            &&& changes_list(saved) == cache.limited && changes_list(away) == cache.limited
            &&& !changes_list(back) && saved != LimiterTask::Retry && away != LimiterTask::Retry
        }),
        forall|task: LimiterTask, other: Seq<char>|
            other != path.key() ==> {
                &&& (#[trigger] settled_sizes(task, sizes, path.key(), size)).contains_key(other)
                    == #[trigger] sizes.contains_key(other)
                &&& settled_sizes(task, sizes, path.key(), size)[other] == sizes[other]
                &&& settled_times(task, sizes, times, path.key(), now).contains_key(other)
                    == times.contains_key(other)
                &&& settled_times(task, sizes, times, path.key(), now)[other] == times[other]
            },
{
}

/// A path is that of a volatile file exactly if there is a place for these and
/// the path begins with it.
pub proof fn law_volatile_files_lie_in_the_volatile_directory(cache: Cache, path: CachePath)
    ensures
        cache.audio_location is None ==> !cache.is_volatile(path),
        cache.audio_location matches Some(root) ==> path.style == root.style ==> (
        cache.is_volatile(path) <==> root.keys().is_prefix_of(path.keys())),
{
}

/// The last two parts of the path of a file are the first two digits of its
/// identifier and the other thirty-eight, so that no two files share a path and
/// no directory holds more than a part of them.
pub proof fn law_files_are_spread_over_directories(root: CachePath, file: FileId, other: FileId)
    ensures
        ({
            let keys = file_keys(root, file);
            let n = keys.len() as int;
            &&& n >= 2
            &&& keys[n - 1].1.len() == 38
            &&& keys[n - 2].1.len() == 2
            &&& keys[n - 2].1 + keys[n - 1].1 == crate::encoding::lower_hex(file.0@)
            &&& file_keys(root, other) == keys ==> other.0@ == file.0@
        }),
{
    let name = crate::encoding::lower_hex(file.0@);
    assert(name.take(2) + name.skip(2) =~= name);
    law_pruned_file_is_named(root, file);
    law_pruned_file_is_named(root, other);
}

/// A round of deletions, the limiter, and where the round stands.
pub struct PruneState<E> {
    pub pruning: Pruning<E>,
    pub limiter: SizeLimiter,
    pub step: PruneStep<E>,
}

/// Whether result number `i` leads from one of the states to the next.
pub open spec fn is_pruning<E>(
    states: Seq<PruneState<E>>,
    results: Seq<Result<(), E>>,
    i: int,
) -> bool {
    &&& states[i].step is Call
    &&& is_prune_step(
        states[i].pruning,
        states[i].limiter,
        results[i],
        states[i + 1].pruning,
        states[i + 1].limiter,
        states[i + 1].step,
    )
}

/// The error of the last deletion that failed before state number `n`.
pub open spec fn last_failure<E>(
    states: Seq<PruneState<E>>,
    results: Seq<Result<(), E>>,
    n: int,
) -> Option<E>
    decreases n,
{
    if n <= 0 {
        None
    } else if states[n - 1].pruning.call is Delete && results[n - 1] is Err {
        Some(results[n - 1]->Err_0)
    } else {
        last_failure(states, results, n - 1)
    }
}

proof fn lemma_pruning<E>(
    states: Seq<PruneState<E>>,
    results: Seq<Result<(), E>>,
    n: int,
)
    requires
        states.len() == results.len() + 1,
        states[0].pruning.call is RetryDue,
        states[0].pruning.last_error is None,
        forall|i: int| 0 <= i < results.len() ==> #[trigger] is_pruning(states, results, i),
        0 <= n < states.len(),
        states[n].step is Call,
    ensures
        states[n].pruning.last_error == last_failure(states, results, n),
        states[n].limiter.limit() == states[0].limiter.limit(),
        states[n].pruning.call is RetryAgain ==> states[n].limiter.used()
            <= states[0].limiter.limit(),
    decreases n,
{
    if n > 0 {
        assert(is_pruning(states, results, n - 1));
        lemma_pruning(states, results, n - 1);
    }
}

/// A round of deletions ends with the cache within its limit. It comes to the
/// error of the last deletion that failed, and to none exactly if none failed.
pub proof fn law_a_round_of_deletions_keeps_the_limit<E>(
    states: Seq<PruneState<E>>,
    results: Seq<Result<(), E>>,
    outcome: Result<(), E>,
)
    requires
        states.len() == results.len() + 1,
        states[0].pruning.call is RetryDue,
        states[0].pruning.last_error is None,
        states[0].step is Call,
        forall|i: int| 0 <= i < results.len() ==> #[trigger] is_pruning(states, results, i),
        states.last().step == PruneStep::Finished(outcome),
    ensures
        states.last().limiter.used() <= states[0].limiter.limit(),
        outcome matches Err(error) ==> last_failure(states, results, results.len() as int) == Some(
            error,
        ),
        outcome is Ok ==> last_failure(states, results, results.len() as int) is None,
        forall|i: int|
            0 <= i < results.len() && states[i].limiter.used() > states[0].limiter.limit()
                && !(states[i].pruning.call is RetryAgain) ==> (#[trigger] states[i + 1]).pruning.call
                is Delete,
{
    let last = results.len() - 1;
    assert(is_pruning(states, results, last));
    lemma_pruning(states, results, last);
    assert forall|i: int|
        0 <= i < results.len() && states[i].limiter.used() > states[0].limiter.limit() && !(
        states[i].pruning.call is RetryAgain) implies (#[trigger] states[i + 1]).pruning.call
        is Delete by {
        assert(is_pruning(states, results, i));
        lemma_pruning(states, results, i);
    }
}

/// The time of access of a file is the one that is known best: the access itself,
/// else the modification, else the creation, and the current time only where none
/// is known.
pub proof fn law_the_best_known_time_is_taken(
    accessed: Option<i128>,
    modified: Option<i128>,
    created: Option<i128>,
    now: i128,
)
    ensures
        accessed is Some ==> Some(known_time(accessed, modified, created, now)) == accessed,
        accessed is None && modified is Some ==> Some(known_time(accessed, modified, created, now))
            == modified,
        accessed is None && modified is None && created is Some ==> Some(
            known_time(accessed, modified, created, now),
        ) == created,
        accessed is None && modified is None && created is None ==> known_time(
            accessed,
            modified,
            created,
            now,
        ) == now,
{
}

/// What is deleted of a file is what would be read of it, and there is something
/// to delete exactly where the file exists in a directory of the cache. A deletion
/// is reported as failed only of a file that is not volatile, and whoever keeps
/// something with a file learns of it exactly if the file was deleted, by the
/// identifier of that file.
pub proof fn law_what_is_found_is_deleted(
    cache: Cache,
    persisted_exists: bool,
    volatile_exists: bool,
    file: FileId,
    path: CachePath,
    deleted: bool,
    removal: Removal,
)
    requires
        cache.is_removal(file, path, deleted, removal),
    ensures
        cache.removed_root(persisted_exists, volatile_exists) is Some
            <==> cache.persisted_audio_location is Some && persisted_exists
            || cache.audio_location is Some && volatile_exists,
        cache.removed_root(persisted_exists, volatile_exists) is Some ==> cache.removed_root(
            persisted_exists,
            volatile_exists,
        ) == cache.chosen_root(persisted_exists, volatile_exists),
        cache.persisted_audio_location is Some && persisted_exists ==> cache.removed_root(
            persisted_exists,
            volatile_exists,
        ) == cache.persisted_audio_location,
        removal is Failed <==> !deleted && !cache.is_volatile(path),
        deleted ==> (removal matches Removal::Done { task, notify } && notify is Some
            && notify->Some_0@ == file.0@),
        removal matches Removal::Done { task, notify } ==> {
            &&& !deleted ==> notify is None
            &&& cache.limited && cache.is_volatile(path) ==> forgets_file(task) && changes_list(
                task,
            )
            &&& !(cache.limited && cache.is_volatile(path)) ==> task is Nothing
            &&& task is Retry ==> !deleted
        },
{
}

/// A path on the list of due deletions leads to its file: put behind the root of
/// the cache, it is the path of the file. Two files share one only if they are
/// the same, and what is written down reads as the parts that are meant.
pub proof fn law_a_listed_path_leads_to_its_file(
    limiter: FsSizeLimiter,
    file: CachePath,
    other: CachePath,
)
    requires
        file.wf(),
        file.lies_in(limiter.volatile_root),
        other.lies_in(limiter.volatile_root),
    ensures
        limiter.volatile_root.keys() + limiter.relative_keys(file) == file.keys(),
        limiter.relative_keys(file) == limiter.relative_keys(other) <==> file.keys()
            == other.keys(),
        !crate::path_reading::is_verbatim(file.prefix) && crate::path_reading::head_len(
            file.text@,
            file.prefix,
            file.style,
        ) <= limiter.volatile_root.keys().len() ==> {
            let read = crate::path_reading::read_spans(
                limiter.relative_text(file),
                None,
                file.style,
            );
            &&& read.len() == limiter.relative_keys(file).len()
            &&& forall|i: int|
                0 <= i < read.len() ==> (#[trigger] read[i]).key == limiter.relative_keys(file)[i]
        },
{
    let root = limiter.volatile_root.keys();
    let n = root.len() as int;
    assert(root + limiter.relative_keys(file) =~= file.keys());
    assert(root + limiter.relative_keys(other) =~= other.keys());
    if !crate::path_reading::is_verbatim(file.prefix) && crate::path_reading::head_len(
        file.text@,
        file.prefix,
        file.style,
    ) <= n {
        crate::path_reading::lemma_text_from(file.text@, file.prefix, file.style, n);
    }
}

} // verus!

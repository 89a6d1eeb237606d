//! A record of files, their sizes and when each was last used, that can name
//! the file to give up while the sum of the sizes is above a limit.
use crate::cache_path::CachePath;
use priority_queue::PriorityQueue;
use std::cmp::Reverse;
use vstd::hash_map::StringHashMap;
use vstd::prelude::*;

verus! {

/// The queue of the crate `priority_queue`.
#[verifier::external_type_specification]
#[verifier::external_body]
#[verifier::reject_recursive_types(I)]
#[verifier::reject_recursive_types(P)]
#[verifier::reject_recursive_types(H)]
pub struct ExPriorityQueue<I, P, H>(PriorityQueue<I, P, H>);

/// `std::cmp::Reverse`, which turns an order around.
#[verifier::external_type_specification]
#[verifier::external_body]
#[verifier::reject_recursive_types(T)]
pub struct ExReverse<T>(Reverse<T>);

/// Files by access time: the file that was accessed first has the greatest
/// priority.
pub type FileQueue = PriorityQueue<String, Reverse<i128>>;

/// The files in a queue, each with its access time.
pub uninterp spec fn queue_contents(queue: FileQueue) -> Map<Seq<char>, i128>;

/// `PriorityQueue::new` makes a queue without items.
#[verifier::external_body]
fn queue_new() -> (queue: FileQueue)
    ensures
        queue_contents(queue).dom() == Set::<Seq<char>>::empty(),
{
    PriorityQueue::new()
}

/// `PriorityQueue::push` inserts an item with its priority, and replaces the
/// priority of an item that is already there.
#[verifier::external_body]
fn queue_push(queue: &mut FileQueue, file: String, accessed: i128)
    ensures
        queue_contents(*final(queue)) == queue_contents(*old(queue)).insert(file@, accessed),
{
    queue.push(file, Reverse(accessed));
}

/// `PriorityQueue::pop` removes and returns an item of greatest priority, or
/// returns nothing if the queue has no items. Which one leaves among items of
/// equal priority is left open.
#[verifier::external_body]
fn queue_pop(queue: &mut FileQueue) -> (file: Option<String>)
    ensures
        file is None <==> queue_contents(*old(queue)).dom() == Set::<Seq<char>>::empty(),
        file is None ==> queue_contents(*final(queue)) == queue_contents(*old(queue)),
        file matches Some(f) ==> {
            &&& queue_contents(*old(queue)).contains_key(f@)
            &&& queue_contents(*final(queue)) == queue_contents(*old(queue)).remove(f@)
            &&& forall|other: Seq<char>| #[trigger]
                queue_contents(*old(queue)).contains_key(other) ==> queue_contents(*old(queue))[f@]
                    <= queue_contents(*old(queue))[other]
        },
{
    queue.pop().map(|entry| entry.0)
}

/// `PriorityQueue::change_priority` gives an item that is in the queue a new
/// priority, and tells whether the item is there.
#[verifier::external_body]
fn queue_change_priority(queue: &mut FileQueue, file: &str, accessed: i128) -> (known: bool)
    ensures
        known == queue_contents(*old(queue)).contains_key(file@),
        queue_contents(*final(queue)) == if known {
            queue_contents(*old(queue)).insert(file@, accessed)
        } else {
            queue_contents(*old(queue))
        },
{
    queue.change_priority(file, Reverse(accessed)).is_some()
}

/// `PriorityQueue::remove` takes an item out of the queue, and tells whether
/// the item was there.
#[verifier::external_body]
fn queue_remove(queue: &mut FileQueue, file: &str) -> (known: bool)
    ensures
        known == queue_contents(*old(queue)).contains_key(file@),
        queue_contents(*final(queue)) == queue_contents(*old(queue)).remove(file@),
{
    queue.remove(file).is_some()
}

/// The sum of the sizes in `sizes`.
pub open spec fn total_size(sizes: Map<Seq<char>, u64>) -> nat
    decreases sizes.dom().len(),
{
    if sizes.dom().finite() && sizes.dom().len() > 0 {
        let file = sizes.dom().choose();
        sizes[file] as nat + total_size(sizes.remove(file))
    } else {
        0
    }
}

proof fn lemma_total_remove(sizes: Map<Seq<char>, u64>, file: Seq<char>)
    requires
        sizes.dom().finite(),
        sizes.contains_key(file),
    ensures
        total_size(sizes) == sizes[file] as nat + total_size(sizes.remove(file)),
    decreases sizes.dom().len(),
{
    let first = sizes.dom().choose();
    if first != file {
        let rest = sizes.remove(first);
        lemma_total_remove(rest, file);
        assert(rest.remove(file) =~= sizes.remove(file).remove(first));
        assert(sizes.remove(file).dom().len() > 0);
        lemma_total_remove(sizes.remove(file), first);
    }
}

proof fn lemma_total_insert(sizes: Map<Seq<char>, u64>, file: Seq<char>, size: u64)
    requires
        sizes.dom().finite(),
    ensures
        total_size(sizes.insert(file, size)) == size + total_size(sizes.remove(file)),
{
    lemma_total_remove(sizes.insert(file, size), file);
    assert(sizes.insert(file, size).remove(file) =~= sizes.remove(file));
}

/// The files that a limiter knows. Each is known by the parts of its path, and
/// keeps the path under which it was added first.
pub struct SizeLimiter {
    queue: FileQueue,
    sizes: StringHashMap<u64>,
    paths: StringHashMap<CachePath>,
    size_limit: u64,
    in_use: u64,
}

impl SizeLimiter {
    /// The size of each known file, by the text that its path is known by.
    pub closed spec fn sizes(&self) -> Map<Seq<char>, u64> {
        self.sizes@
    }

    /// The last access of each known file.
    pub closed spec fn accessed(&self) -> Map<Seq<char>, i128> {
        queue_contents(self.queue)
    }

    /// The path of each known file.
    pub closed spec fn paths(&self) -> Map<Seq<char>, CachePath> {
        self.paths@
    }

    /// The limit that the limiter was made with.
    pub closed spec fn limit(&self) -> u64 {
        self.size_limit
    }

    /// The queue and the sizes speak of the same files, and the sum of the
    /// sizes is kept.
    pub closed spec fn wf(&self) -> bool {
        &&& self.sizes@.dom().finite()
        &&& self.sizes@.dom() == queue_contents(self.queue).dom()
        &&& self.sizes@.dom() == self.paths@.dom()
        &&& forall|key: Seq<char>|
            self.paths@.contains_key(key) ==> (#[trigger] self.paths@[key]).key() == key
        &&& self.in_use as nat == total_size(self.sizes@)
    }

    /// The sum of the sizes of the known files.
    pub open spec fn used(&self) -> nat {
        total_size(self.sizes())
    }

    /// The sum of the sizes of the known files.
    pub fn in_use(&self) -> (bytes: u64)
        requires
            self.wf(),
        ensures
            bytes == self.used(),
    {
        self.in_use
    }

    /// A limiter that knows no file.
    pub fn new(limit: u64) -> (limiter: SizeLimiter)
        ensures
            limiter.wf(),
            limiter.sizes() == Map::<Seq<char>, u64>::empty(),
            limiter.accessed() == Map::<Seq<char>, i128>::empty(),
            limiter.paths() == Map::<Seq<char>, CachePath>::empty(),
            limiter.limit() == limit,
    {
        let limiter = SizeLimiter {
            queue: queue_new(),
            sizes: StringHashMap::new(),
            paths: StringHashMap::new(),
            size_limit: limit,
            in_use: 0,
        };
        assert(limiter.accessed() =~= Map::<Seq<char>, i128>::empty());
        limiter
    }

    /// Adds a file, or replaces what is known of it. A file that is known keeps
    /// its path.
    pub fn add(&mut self, file: &CachePath, size: u64, accessed: i128)
        requires
            old(self).wf(),
            old(self).used() + size <= u64::MAX,
        ensures
            final(self).wf(),
            final(self).sizes() == old(self).sizes().insert(file.key(), size),
            final(self).accessed() == old(self).accessed().insert(file.key(), accessed),
            keeps_path(*old(self), *final(self), *file),
            final(self).limit() == old(self).limit(),
    {
        let ghost before = self.sizes@;
        let ghost key = file.key();
        proof {
            lemma_total_insert(before, key, size);
            if before.contains_key(key) {
                lemma_total_remove(before, key);
            } else {
                assert(before.remove(key) =~= before);
            }
        }
        let name = file.key_string();
        // The old size leaves after the new one has entered, so that the sum
        // never falls below zero.
        self.in_use = self.in_use + size;
        queue_push(&mut self.queue, name.clone(), accessed);
        let known: Option<u64> = match self.sizes.get(name.as_str()) {
            Some(old_size) => Some(*old_size),
            None => None,
        };
        self.sizes.insert(name.clone(), size);
        match known {
            Some(old_size) => {
                self.in_use = self.in_use - old_size;
                assert(before.insert(key, size).dom() =~= before.dom());
            },
            None => {
                self.paths.insert(name, file.copy());
            },
        }
        assert(self.sizes@.dom() =~= queue_contents(self.queue).dom());
        assert(self.sizes@.dom() =~= self.paths@.dom());
    }

    /// Whether the files together are larger than the limit.
    pub fn exceeds_limit(&self) -> (exceeds: bool)
        requires
            self.wf(),
        ensures
            exceeds == (self.used() > self.limit()),
    {
        self.in_use > self.size_limit
    }

    /// While the limit is exceeded, forgets a file that was accessed before all
    /// others and returns its path. The caller deletes the file itself.
    pub fn pop(&mut self) -> (file: Option<CachePath>)
        requires
            old(self).wf(),
        ensures
            final(self).wf(),
            final(self).limit() == old(self).limit(),
            file is Some <==> old(self).used() > old(self).limit(),
            file is None ==> same_files(*old(self), *final(self)),
            file matches Some(f) ==> gave_up(*old(self), *final(self), f),
    {
        if !self.exceeds_limit() {
            return None;
        }
        let ghost before = *self;
        let next = match queue_pop(&mut self.queue) {
            Some(next) => next,
            None => {
                assert(before.sizes@.dom().len() == 0);
                return None;
            },
        };
        proof {
            lemma_total_remove(self.sizes@, next@);
            assert forall|other: Seq<char>| #[trigger]
                before.sizes().contains_key(other) implies before.accessed()[next@]
                <= before.accessed()[other] by {
                assert(queue_contents(before.queue).contains_key(other));
            }
        }
        if let Some(size) = self.sizes.get(next.as_str()) {
            self.in_use = self.in_use - *size;
        }
        self.sizes.remove(next.as_str());
        let file = match self.paths.get(next.as_str()) {
            Some(path) => path.copy(),
            None => {
                assert(false);
                return None;
            },
        };
        self.paths.remove(next.as_str());
        assert(self.sizes@.dom() =~= queue_contents(self.queue).dom());
        assert(self.sizes@.dom() =~= self.paths@.dom());
        Some(file)
    }

    /// Sets the access time of a known file. Tells whether the file is known.
    pub fn update(&mut self, file: &CachePath, access_time: i128) -> (known: bool)
        requires
            old(self).wf(),
        ensures
            final(self).wf(),
            known == old(self).sizes().contains_key(file.key()),
            final(self).sizes() == old(self).sizes(),
            final(self).accessed() == if known {
                old(self).accessed().insert(file.key(), access_time)
            } else {
                old(self).accessed()
            },
            final(self).paths() == old(self).paths(),
            final(self).limit() == old(self).limit(),
    {
        let known = queue_change_priority(
            &mut self.queue,
            file.key_string().as_str(),
            access_time,
        );
        assert(self.sizes@.dom() =~= queue_contents(self.queue).dom());
        assert(known == old(self).sizes@.dom().contains(file.key()));
        known
    }

    /// Forgets a file. Tells whether it was known.
    pub fn remove(&mut self, file: &CachePath) -> (known: bool)
        requires
            old(self).wf(),
        ensures
            final(self).wf(),
            known == old(self).sizes().contains_key(file.key()),
            final(self).sizes() == old(self).sizes().remove(file.key()),
            final(self).accessed() == old(self).accessed().remove(file.key()),
            final(self).paths() == old(self).paths().remove(file.key()),
            final(self).limit() == old(self).limit(),
    {
        let ghost key = file.key();
        let name = file.key_string();
        let known = queue_remove(&mut self.queue, name.as_str());
        assert(known == self.sizes@.dom().contains(key));
        if !known {
            assert(self.sizes@.remove(key) =~= self.sizes@);
            assert(self.paths@.remove(key) =~= self.paths@);
            return false;
        }
        proof {
            lemma_total_remove(self.sizes@, key);
        }
        if let Some(size) = self.sizes.get(name.as_str()) {
            self.in_use = self.in_use - *size;
        }
        self.sizes.remove(name.as_str());
        self.paths.remove(name.as_str());
        assert(self.sizes@.dom() =~= queue_contents(self.queue).dom());
        assert(self.sizes@.dom() =~= self.paths@.dom());
        true
    }
}

/// Whether a file that was added keeps its path, if it was known, and else has
/// the one that it was added with; the paths of the others stay.
pub open spec fn keeps_path(before: SizeLimiter, after: SizeLimiter, file: CachePath) -> bool {
    let key = file.key();
    if before.sizes().contains_key(key) {
        after.paths() == before.paths()
    } else {
        &&& after.paths() == before.paths().insert(key, after.paths()[key])
        &&& is_same_path(after.paths()[key], file)
    }
}

/// Whether a path is another one, written in the same way.
pub open spec fn is_same_path(a: CachePath, b: CachePath) -> bool {
    &&& a.text@ == b.text@
    &&& a.prefix == b.prefix
    &&& a.style == b.style
    &&& a.spans() == b.spans()
}

/// Whether nothing changed of the files that a limiter knows.
pub open spec fn same_files(before: SizeLimiter, after: SizeLimiter) -> bool {
    &&& after.sizes() == before.sizes()
    &&& after.accessed() == before.accessed()
    &&& after.paths() == before.paths()
}

/// Whether a limiter forgot a file that was accessed before all others, and
/// nothing else. The path is the one that the file had.
pub open spec fn gave_up(before: SizeLimiter, after: SizeLimiter, file: CachePath) -> bool {
    let key = file.key();
    &&& before.sizes().contains_key(key)
    &&& is_same_path(file, before.paths()[key])
    &&& after.sizes() == before.sizes().remove(key)
    &&& after.accessed() == before.accessed().remove(key)
    &&& after.paths() == before.paths().remove(key)
    &&& forall|other: Seq<char>| #[trigger]
        before.sizes().contains_key(other) ==> before.accessed()[key] <= before.accessed()[other]
}

/// A limiter knows finitely many files, and of each the size, the last access and
/// the path.
pub proof fn law_each_file_is_known_in_full(limiter: SizeLimiter)
    requires
        limiter.wf(),
    ensures
        limiter.sizes().dom().finite(),
        limiter.accessed().dom() == limiter.sizes().dom(),
        limiter.paths().dom() == limiter.sizes().dom(),
        forall|key: Seq<char>|
            limiter.paths().contains_key(key) ==> (#[trigger] limiter.paths()[key]).key() == key,
{
}

/// A file is known once, however its path is written: two paths stand for one
/// file of a limiter if and only if they are the same path.
pub proof fn law_a_file_is_known_once(limiter: SizeLimiter, a: CachePath, b: CachePath, size: u64)
    requires
        limiter.wf(),
        a.wf(),
        b.wf(),
        a.style == b.style,
    ensures
        a.keys() == b.keys() ==> limiter.sizes().insert(a.key(), size).insert(b.key(), size)
            == limiter.sizes().insert(a.key(), size),
        a.keys() != b.keys() ==> limiter.sizes().insert(a.key(), size).remove(b.key())
            == limiter.sizes().remove(b.key()).insert(a.key(), size),
{
    crate::cache_path::law_a_path_is_known_by_its_parts(a, b);
    let sizes = limiter.sizes();
    if a.keys() == b.keys() {
        assert(sizes.insert(a.key(), size).insert(b.key(), size) =~= sizes.insert(a.key(), size));
    } else {
        assert(sizes.insert(a.key(), size).remove(b.key()) =~= sizes.remove(b.key()).insert(
            a.key(),
            size,
        ));
    }
}

/// Popping ends, and ends within the limit: each file that is popped takes its
/// size off the sum and leaves one file less, and without files the sum is zero.
pub proof fn law_popping_makes_progress(sizes: Map<Seq<char>, u64>, file: Seq<char>)
    requires
        sizes.dom().finite(),
        sizes.contains_key(file),
    ensures
        total_size(sizes.remove(file)) == total_size(sizes) - sizes[file],
        sizes.remove(file).dom().finite(),
        sizes.remove(file).dom().len() == sizes.dom().len() - 1,
        total_size(Map::<Seq<char>, u64>::empty()) == 0,
{
    lemma_total_remove(sizes, file);
    assert(sizes.remove(file).dom() =~= sizes.dom().remove(file));
}

/// The sum follows what is added: a new file adds its size, and a file that is
/// known adds the difference to the size that was known.
pub proof fn law_the_sum_follows_the_files(sizes: Map<Seq<char>, u64>, file: Seq<char>, size: u64)
    requires
        sizes.dom().finite(),
    ensures
        !sizes.contains_key(file) ==> total_size(sizes.insert(file, size)) == total_size(sizes)
            + size,
        sizes.contains_key(file) ==> total_size(sizes.insert(file, size)) + sizes[file]
            == total_size(sizes) + size,
        total_size(Map::<Seq<char>, u64>::empty()) == 0,
{
    lemma_total_insert(sizes, file, size);
    if sizes.contains_key(file) {
        lemma_total_remove(sizes, file);
    } else {
        assert(sizes.remove(file) =~= sizes);
    }
}

/// The file that is given up is one that was not used for the longest time: none
/// of those that stay was used before it. It is known no more, and all others are
/// known as before.
pub proof fn law_the_file_used_longest_ago_is_given_up(
    before: SizeLimiter,
    after: SizeLimiter,
    file: CachePath,
    other: Seq<char>,
)
    requires
        gave_up(before, after, file),
        before.sizes().contains_key(other),
        other != file.key(),
    ensures
        before.accessed()[file.key()] <= before.accessed()[other],
        !after.sizes().contains_key(file.key()),
        !after.paths().contains_key(file.key()) && !after.accessed().contains_key(file.key()),
        after.sizes().contains_key(other) && after.sizes()[other] == before.sizes()[other],
        after.accessed()[other] == before.accessed()[other],
        after.paths()[other] == before.paths()[other],
        file.text@ == before.paths()[file.key()].text@,
{
}

/// A file keeps the path that it was added with first, and the paths of other
/// files stay as they are.
pub proof fn law_a_file_keeps_its_path(
    before: SizeLimiter,
    after: SizeLimiter,
    file: CachePath,
    other: Seq<char>,
)
    requires
        keeps_path(before, after, file),
    ensures
        before.sizes().contains_key(file.key()) ==> after.paths() == before.paths(),
        !before.sizes().contains_key(file.key()) ==> after.paths().contains_key(file.key())
            && after.paths()[file.key()].text@ == file.text@,
        other != file.key() ==> after.paths().contains_key(other) == before.paths().contains_key(
            other,
        ) && after.paths()[other] == before.paths()[other],
{
    if !before.sizes().contains_key(file.key()) {
        assert(before.paths().insert(file.key(), after.paths()[file.key()]).contains_key(
            file.key(),
        ));
    }
}

/// The space in use follows the files: it is what a new file takes more, and
/// nothing where no file is known. Where nothing is given up, every file is known
/// as before, and the space in use is the same.
pub proof fn law_the_space_in_use_follows_the_files(
    before: SizeLimiter,
    after: SizeLimiter,
    file: Seq<char>,
    size: u64,
)
    requires
        before.wf(),
    ensures
        before.sizes() == Map::<Seq<char>, u64>::empty() ==> before.used() == 0,
        !before.sizes().contains_key(file) && after.sizes() == before.sizes().insert(file, size)
            ==> after.used() == before.used() + size,
        before.sizes().contains_key(file) && after.sizes() == before.sizes().remove(file)
            ==> after.used() + before.sizes()[file] == before.used(),
        same_files(before, after) ==> {
            &&& after.used() == before.used()
            &&& after.sizes().contains_key(file) == before.sizes().contains_key(file)
            &&& after.sizes()[file] == before.sizes()[file]
            &&& after.accessed()[file] == before.accessed()[file]
            &&& after.paths()[file] == before.paths()[file]
        },
{
    law_each_file_is_known_in_full(before);
    law_the_sum_follows_the_files(before.sizes(), file, size);
    if before.sizes().contains_key(file) {
        law_popping_makes_progress(before.sizes(), file);
    }
}

/// A path that is written in the same way has the same parts.
pub proof fn law_a_path_written_the_same_has_the_same_parts(a: CachePath, b: CachePath)
    requires
        is_same_path(a, b),
    ensures
        a.keys() == b.keys(),
        a.key() == b.key(),
        a.text@ == b.text@,
        a.style == b.style,
{
}

} // verus!

//! What a library of assets keeps in memory while files are imported: the tickets of the
//! imports, the perceptual hashes, and the digests of this session.

use std::collections::{HashMap, HashSet, VecDeque};

#[allow(unused_imports)]
use vstd::math::{max, min};
use vstd::prelude::*;

use crate::domain::AssetKind;
use crate::phash::hamming_distance;
#[allow(unused_imports)]
use crate::phash::ones;

verus! {

/// The category of assets for which none was given.
pub const INBOX_CATEGORY: &'static str = "待分类";

/// How many imports a library takes at a time, unless it is opened otherwise.
pub const OPEN_CAPACITY: usize = 16;

/// Up to this distance two pictures are reported as similar. Similar pictures are
/// imported all the same.
pub const SIMILAR_DISTANCE_THRESHOLD: u32 = 12;

/// Why an operation on the library failed.
#[derive(Debug, Clone, PartialEq, Eq)]
pub enum LibraryError {
    Store(String),
    Io(String),
    Image(String),
    /// The row of a ticket was not confirmed in time.
    MetaTimeout(String),
    /// A directory could not be moved to or from the trash.
    Trash { uuid: String, reason: String },
}

impl LibraryError {
    pub open spec fn spec_message(self) -> Seq<char> {
        match self {
            LibraryError::Store(e) => "存储错误: "@ + e@,
            LibraryError::Io(e) => "IO 错误: "@ + e@,
            LibraryError::Image(e) => "图像解码错误: "@ + e@,
            LibraryError::MetaTimeout(uuid) => "元数据落库等待超时（票 "@ + uuid@ + "）"@,
            LibraryError::Trash { uuid, reason } => "回收站操作失败（"@ + uuid@ + "）: "@ + reason@,
        }
    }

    /// The error in words.
    pub fn message(&self) -> (r: String)
        ensures
            r@ == self.spec_message(),
            match *self {
                LibraryError::Store(e) => r@ == "存储错误: "@ + e@,
                LibraryError::Io(e) => r@ == "IO 错误: "@ + e@,
                LibraryError::Image(e) => r@ == "图像解码错误: "@ + e@,
                LibraryError::MetaTimeout(uuid) => r@ == "元数据落库等待超时（票 "@ + uuid@ + "）"@,
                LibraryError::Trash { uuid, reason } => r@ == "回收站操作失败（"@ + uuid@ + "）: "@
                    + reason@,
            },
    {
        match self {
            LibraryError::Store(e) => "存储错误: ".to_owned().concat(e.as_str()),
            LibraryError::Io(e) => "IO 错误: ".to_owned().concat(e.as_str()),
            LibraryError::Image(e) => "图像解码错误: ".to_owned().concat(e.as_str()),
            LibraryError::MetaTimeout(uuid) => "元数据落库等待超时（票 ".to_owned().concat(
                uuid.as_str(),
            ).concat("）"),
            LibraryError::Trash { uuid, reason } => "回收站操作失败（".to_owned().concat(
                uuid.as_str(),
            ).concat("）: ").concat(reason.as_str()),
        }
    }
}

/// What a media job works on.
#[derive(Debug, Clone, Copy, PartialEq, Eq, Structural)]
pub enum MediaKind {
    Image,
    Video,
    Text,
}

/// Work to do on a file that has been imported.
#[derive(Debug, Clone, PartialEq, Eq)]
pub struct MediaJob {
    pub uuid: String,
    /// The file in the library.
    pub source: String,
    pub kind: MediaKind,
}

/// Takes jobs for imported files.
pub trait MediaDispatcher {
    fn dispatch(&mut self, job: MediaJob);
}

/// A dispatcher that keeps the jobs.
pub struct RecordingDispatcher {
    jobs: Vec<MediaJob>,
}

pub open spec fn media_kind(kind: AssetKind) -> Option<MediaKind> {
    match kind {
        AssetKind::Image => Some(MediaKind::Image),
        AssetKind::Video => Some(MediaKind::Video),
        AssetKind::Text => Some(MediaKind::Text),
        AssetKind::Other => None,
    }
}

/// The kind of job for an asset; there is none for `Other`.
pub fn to_media_kind(kind: AssetKind) -> (r: Option<MediaKind>)
    ensures
        r == media_kind(kind),
        kind == AssetKind::Image <==> r == Some(MediaKind::Image),
        kind == AssetKind::Video <==> r == Some(MediaKind::Video),
        kind == AssetKind::Text <==> r == Some(MediaKind::Text),
        kind == AssetKind::Other <==> r is None,
{
    match kind {
        AssetKind::Image => Some(MediaKind::Image),
        AssetKind::Video => Some(MediaKind::Video),
        AssetKind::Text => Some(MediaKind::Text),
        AssetKind::Other => None,
    }
}

impl MediaJob {
    /// A job with the same contents.
    pub fn copy(&self) -> (r: MediaJob)
        ensures
            r == *self,
    {
        MediaJob { uuid: self.uuid.clone(), source: self.source.clone(), kind: self.kind }
    }
}

impl RecordingDispatcher {
    /// The jobs so far.
    pub closed spec fn recorded(&self) -> Seq<MediaJob> {
        self.jobs@
    }

    pub fn new() -> (r: RecordingDispatcher)
        ensures
            r.recorded() == Seq::<MediaJob>::empty(),
    {
        RecordingDispatcher { jobs: Vec::new() }
    }

    /// The jobs so far, in order.
    pub fn jobs(&self) -> (r: Vec<MediaJob>)
        ensures
            r@ == self.recorded(),
    {
        let mut out: Vec<MediaJob> = Vec::new();
        let mut i: usize = 0;
        while i < self.jobs.len()
            invariant
                i <= self.jobs@.len(),
                out@ == self.jobs@.take(i as int),
            decreases self.jobs@.len() - i,
        {
            out.push(self.jobs[i].copy());
            i = i + 1;
        }
        assert(self.jobs@.take(self.jobs@.len() as int) =~= self.jobs@);
        out
    }
}

impl Default for RecordingDispatcher {
    fn default() -> (r: RecordingDispatcher)
        ensures
            r.recorded() == Seq::<MediaJob>::empty(),
    {
        RecordingDispatcher::new()
    }
}

impl MediaDispatcher for RecordingDispatcher {
    fn dispatch(&mut self, job: MediaJob)
        ensures
            final(self).recorded() == old(self).recorded().push(job),
    {
        self.jobs.push(job);
    }
}

/// A file to import.
#[derive(Debug, Clone, PartialEq, Eq)]
pub struct ImportRequest {
    pub source: String,
    pub category: Option<String>,
    pub tags: Vec<String>,
}

/// An import that was accepted.
#[derive(Debug, Clone, PartialEq, Eq)]
pub struct ImportTicket {
    pub id: u64,
    pub uuid: String,
}

/// An asset that a new one resembles.
#[derive(Debug, Clone, PartialEq, Eq)]
pub struct SimilarityHit {
    pub existing_uuid: String,
    pub distance: u32,
}

/// What became of an import.
#[derive(Debug, Clone, PartialEq, Eq)]
pub enum EnqueueOutcome {
    /// The file is in the library. A similarity is a remark, no obstacle.
    Ticket { ticket: ImportTicket, similarity: Option<SimilarityHit> },
    /// The library holds the same bytes already.
    Duplicate { existing_uuid: String },
    /// The file cannot be imported; nothing of it is in the library.
    Unsupported { reason: String },
    /// Too many imports are under way.
    Backpressure,
}

/// How far an import has come.
#[derive(Debug, Clone, PartialEq, Eq)]
pub enum CopyState {
    Pending,
    Copying { copied: u64, total: u64 },
    Done,
    Failed(String),
}

/// Whether an import may take what the machine has.
#[derive(Debug, Clone, Copy, PartialEq, Eq, Structural)]
pub enum ImportMode {
    Fast,
    Background,
}

/// The settings of a library.
#[derive(Debug, Clone, Copy, PartialEq, Eq, Structural)]
pub struct LibraryConfig {
    /// How many imports may be under way at once.
    pub capacity: usize,
    /// How many rows are written in one transaction at most.
    pub meta_batch: usize,
    /// Whether the perceptual hashes are held in memory.
    pub memory_phash_index: bool,
}

impl LibraryConfig {
    /// For an import that the user waits for.
    pub fn fast() -> (r: LibraryConfig)
        ensures
            r == (LibraryConfig { capacity: 64, meta_batch: 256, memory_phash_index: true }),
    {
        LibraryConfig { capacity: 64, meta_batch: 256, memory_phash_index: true }
    }

    /// For an import on the side.
    pub fn background() -> (r: LibraryConfig)
        ensures
            r == (LibraryConfig { capacity: 16, meta_batch: 64, memory_phash_index: true }),
    {
        LibraryConfig { capacity: 16, meta_batch: 64, memory_phash_index: true }
    }

    pub fn for_mode(mode: ImportMode) -> (r: LibraryConfig)
        ensures
            match mode {
                ImportMode::Fast => r == (LibraryConfig {
                    capacity: 64,
                    meta_batch: 256,
                    memory_phash_index: true,
                }),
                ImportMode::Background => r == (LibraryConfig {
                    capacity: 16,
                    meta_batch: 64,
                    memory_phash_index: true,
                }),
            },
    {
        match mode {
            ImportMode::Fast => Self::fast(),
            ImportMode::Background => Self::background(),
        }
    }

    /// The settings of a library that is opened with a capacity alone.
    pub fn with_capacity(capacity: usize) -> (r: LibraryConfig)
        ensures
            r == (LibraryConfig { capacity, meta_batch: 128, memory_phash_index: true }),
    {
        LibraryConfig { capacity, meta_batch: 128, memory_phash_index: true }
    }

    /// Whether rows are written at once, without the queue.
    pub fn writes_directly(&self) -> (r: bool)
        ensures
            r == (self.meta_batch == usize::MAX),
    {
        self.meta_batch == usize::MAX
    }

    /// How many rows the writer takes in one go: at least one, and all there are where
    /// the setting is zero.
    pub fn batch_limit(&self) -> (r: usize)
        ensures
            r == if self.meta_batch == 0 {
                usize::MAX
            } else {
                self.meta_batch
            },
    {
        if self.meta_batch == 0 {
            usize::MAX
        } else {
            self.meta_batch
        }
    }
}

impl CopyState {
    /// The import is over.
    pub open spec fn terminal(self) -> bool {
        self is Done || self is Failed
    }

    pub fn is_terminal(&self) -> (r: bool)
        ensures
            r == self.terminal(),
            r == (*self is Done || *self is Failed),
    {
        match self {
            CopyState::Done => true,
            CopyState::Failed(_) => true,
            _ => false,
        }
    }

    /// A state with the same contents.
    pub fn copy(&self) -> (r: CopyState)
        ensures
            r == *self,
    {
        match self {
            CopyState::Pending => CopyState::Pending,
            CopyState::Copying { copied, total } => CopyState::Copying {
                copied: *copied,
                total: *total,
            },
            CopyState::Done => CopyState::Done,
            CopyState::Failed(reason) => CopyState::Failed(reason.clone()),
        }
    }
}

/// A row of the import `id` was written.
pub open spec fn row_written(tickets: Seq<u64>, refusals: Seq<Option<String>>, id: u64) -> bool {
    exists|i: int|
        0 <= i < tickets.len() && #[trigger] tickets[i] == id && refusals[i] is None
}

/// Why the row of the import `id` was refused: the last reason, where there are several.
pub open spec fn refusal(tickets: Seq<u64>, refusals: Seq<Option<String>>, id: u64) -> Option<
    Seq<char>,
>
    decreases tickets.len(),
{
    if tickets.len() == 0 {
        None
    } else if tickets.last() == id && refusals.last() is Some {
        Some(refusals.last()->0@)
    } else {
        refusal(tickets.drop_last(), refusals.drop_last(), id)
    }
}

/// The imports under way, and how each import stands.
pub struct Ledger {
    capacity: usize,
    states: HashMap<u64, CopyState>,
    open: HashSet<u64>,
    meta_ready: HashSet<u64>,
    next_ticket: u64,
}

impl Ledger {
    /// The imports that have begun and not ended.
    pub closed spec fn open(&self) -> Set<u64> {
        self.open@
    }

    /// How each import stands.
    pub closed spec fn states(&self) -> Map<u64, CopyState> {
        self.states@
    }

    /// The imports whose rows are in the store.
    pub closed spec fn ready(&self) -> Set<u64> {
        self.meta_ready@
    }

    /// The number of the next ticket.
    pub closed spec fn next(&self) -> u64 {
        self.next_ticket
    }

    pub closed spec fn limit(&self) -> usize {
        self.capacity
    }

    /// Every import has a number below the next, and an import is done only when its row
    /// is in the store.
    pub closed spec fn wf(&self) -> bool {
        &&& self.open@.finite()
        &&& forall|id: u64| #[trigger] self.open@.contains(id) ==> id < self.next_ticket
        &&& forall|id: u64| #[trigger]
            self.states@.contains_key(id) ==> id < self.next_ticket
        &&& forall|id: u64| #[trigger]
            self.states@.contains_key(id) && self.states@[id] is Done
                ==> self.meta_ready@.contains(id)
    }

    /// Everything but the state of `id` is as before.
    pub open spec fn only_state(&self, id: u64, state: CopyState, after: &Ledger) -> bool {
        &&& after.states() == self.states().insert(id, state)
        &&& after.ready() == self.ready()
        &&& after.next() == self.next()
        &&& after.limit() == self.limit()
    }

    pub fn new(capacity: usize) -> (r: Ledger)
        ensures
            r.wf(),
            r.limit() == capacity,
            r.open() == Set::<u64>::empty(),
            r.ready() == Set::<u64>::empty(),
            r.states() == Map::<u64, CopyState>::empty(),
            r.next() == 1,
    {
        Ledger {
            capacity,
            states: HashMap::new(),
            open: HashSet::new(),
            meta_ready: HashSet::new(),
            next_ticket: 1,
        }
    }

    /// How many imports may be under way at once.
    pub fn capacity(&self) -> (r: usize)
        ensures
            r == self.limit(),
    {
        self.capacity
    }

    /// The number of the next ticket.
    pub fn next_ticket(&self) -> (r: u64)
        ensures
            r == self.next(),
    {
        self.next_ticket
    }

    /// Whether another import has to wait.
    pub fn saturated(&self) -> (r: bool)
        requires
            self.wf(),
        ensures
            r == (self.open().len() >= self.limit()),
    {
        broadcast use vstd::std_specs::hash::group_hash_axioms;

        self.open.len() >= self.capacity
    }

    /// Opens an import and gives it a number.
    pub fn begin(&mut self) -> (id: u64)
        requires
            old(self).wf(),
            old(self).next() < u64::MAX,
        ensures
            final(self).wf(),
            id == old(self).next(),
            !old(self).open().contains(id),
            final(self).next() == id + 1,
            final(self).open() == old(self).open().insert(id),
            final(self).states() == old(self).states().insert(id, CopyState::Pending),
            final(self).ready() == old(self).ready(),
            final(self).limit() == old(self).limit(),
    {
        broadcast use vstd::std_specs::hash::group_hash_axioms;

        let id: u64 = self.next_ticket;
        self.next_ticket = id + 1;
        self.states.insert(id, CopyState::Pending);
        self.open.insert(id);
        id
    }

    /// Notes how much of an open import has been copied.
    pub fn progress(&mut self, id: u64, copied: u64, total: u64)
        requires
            old(self).wf(),
            old(self).open().contains(id),
        ensures
            final(self).wf(),
            final(self).open() == old(self).open(),
            old(self).only_state(id, CopyState::Copying { copied, total }, final(self)),
            final(self).states() == old(self).states().insert(
                id,
                CopyState::Copying { copied, total },
            ),
            final(self).ready() == old(self).ready(),
            final(self).next() == old(self).next(),
            final(self).limit() == old(self).limit(),
    {
        broadcast use vstd::std_specs::hash::group_hash_axioms;

        self.states.insert(id, CopyState::Copying { copied, total });
    }

    /// Ends an open import.
    pub fn finish(&mut self, id: u64, state: CopyState)
        requires
            old(self).wf(),
            old(self).open().contains(id),
            state is Done ==> old(self).ready().contains(id),
        ensures
            final(self).wf(),
            final(self).open() == old(self).open().remove(id),
            old(self).only_state(id, state, final(self)),
            final(self).states() == old(self).states().insert(id, state),
            final(self).ready() == old(self).ready(),
            final(self).next() == old(self).next(),
            final(self).limit() == old(self).limit(),
    {
        broadcast use vstd::std_specs::hash::group_hash_axioms;

        self.states.insert(id, state);
        self.open.remove(&id);
    }

    /// Notes that the rows of some imports are in the store.
    pub fn rows_written(&mut self, tickets: &Vec<u64>)
        requires
            old(self).wf(),
        ensures
            final(self).wf(),
            final(self).open() == old(self).open(),
            final(self).states() == old(self).states(),
            final(self).next() == old(self).next(),
            final(self).limit() == old(self).limit(),
            forall|id: u64| #[trigger]
                final(self).ready().contains(id) <==> old(self).ready().contains(id)
                    || tickets@.contains(id),
    {
        broadcast use vstd::std_specs::hash::group_hash_axioms;

        let mut i: usize = 0;
        while i < tickets.len()
            invariant
                i <= tickets@.len(),
                self.wf(),
                self.open@ == old(self).open@,
                self.states@ == old(self).states@,
                self.next_ticket == old(self).next_ticket,
                self.capacity == old(self).capacity,
                forall|id: u64| #[trigger]
                    self.meta_ready@.contains(id) <==> old(self).meta_ready@.contains(id)
                        || tickets@.take(i as int).contains(id),
            decreases tickets@.len() - i,
        {
            broadcast use vstd::std_specs::hash::group_hash_axioms;

            let id: u64 = tickets[i];
            self.meta_ready.insert(id);
            proof {
                let seen = tickets@.take(i as int);
                let next = tickets@.take(i + 1);
                assert(next =~= seen.push(id));
                assert forall|k: u64| #[trigger] next.contains(k) <==> seen.contains(k) || k
                    == id by {
                    assert(next[i as int] == id);
                    if seen.contains(k) {
                        let p = choose|p: int| 0 <= p < seen.len() && seen[p] == k;
                        assert(next[p] == k);
                    }
                }
            }
            i = i + 1;
        }
        assert(tickets@.take(tickets@.len() as int) =~= tickets@);
    }

    /// Notes that the row of an import was refused. The import stays open: whoever waits
    /// for the row ends it.
    pub fn row_refused(&mut self, id: u64, reason: &str)
        requires
            old(self).wf(),
            id < old(self).next(),
        ensures
            final(self).wf(),
            final(self).open() == old(self).open(),
            final(self).states().dom() == old(self).states().dom().insert(id),
            final(self).states()[id] matches CopyState::Failed(text) && text@
                == "元数据落库失败："@ + reason@,
            forall|k: u64|
                k != id && old(self).states().contains_key(k) ==> #[trigger] final(self).states()[k]
                    == old(self).states()[k],
            final(self).ready() == old(self).ready(),
            final(self).next() == old(self).next(),
            final(self).limit() == old(self).limit(),
    {
        broadcast use vstd::std_specs::hash::group_hash_axioms;

        let text = "元数据落库失败：".to_owned().concat(reason);
        self.states.insert(id, CopyState::Failed(text));
    }

    /// Ends a batch whose rows were written one by one, since the batch as a whole was
    /// refused. `refusals` says for each row why it was refused, or that it was not: one
    /// bad row does not hold up the others.
    pub fn rows_settled(&mut self, tickets: &Vec<u64>, refusals: &Vec<Option<String>>)
        requires
            old(self).wf(),
            tickets@.len() == refusals@.len(),
            forall|i: int| 0 <= i < tickets@.len() ==> #[trigger] tickets@[i] < old(self).next(),
        ensures
            final(self).wf(),
            final(self).open() == old(self).open(),
            final(self).next() == old(self).next(),
            final(self).limit() == old(self).limit(),
            forall|id: u64| #[trigger]
                final(self).ready().contains(id) <==> old(self).ready().contains(id)
                    || row_written(tickets@, refusals@, id),
            forall|id: u64| #[trigger]
                final(self).states().contains_key(id) <==> old(self).states().contains_key(id)
                    || refusal(tickets@, refusals@, id) is Some,
            forall|id: u64| #[trigger]
                final(self).states().contains_key(id) ==> match refusal(tickets@, refusals@, id) {
                    Some(reason) => final(self).states()[id] matches CopyState::Failed(text)
                        && text@ == "元数据落库失败："@ + reason,
                    None => final(self).states()[id] == old(self).states()[id],
                },
    {
        broadcast use vstd::std_specs::hash::group_hash_axioms;

        let mut i: usize = 0;
        while i < tickets.len()
            invariant
                i <= tickets@.len(),
                tickets@.len() == refusals@.len(),
                forall|k: int| 0 <= k < tickets@.len()
                    ==> #[trigger] tickets@[k] < self.next_ticket,
                self.wf(),
                self.open@ == old(self).open@,
                self.next_ticket == old(self).next_ticket,
                self.capacity == old(self).capacity,
                forall|id: u64| #[trigger]
                    self.meta_ready@.contains(id) <==> old(self).meta_ready@.contains(id)
                        || row_written(tickets@.take(i as int), refusals@.take(i as int), id),
                forall|id: u64| #[trigger]
                    self.states@.contains_key(id) <==> old(self).states@.contains_key(id)
                        || refusal(tickets@.take(i as int), refusals@.take(i as int), id) is Some,
                forall|id: u64| #[trigger]
                    self.states@.contains_key(id) ==> match refusal(
                        tickets@.take(i as int),
                        refusals@.take(i as int),
                        id,
                    ) {
                        Some(reason) => self.states@[id] matches CopyState::Failed(text) && text@
                            == "元数据落库失败："@ + reason,
                        None => self.states@[id] == old(self).states@[id],
                    },
            decreases tickets@.len() - i,
        {
            broadcast use vstd::std_specs::hash::group_hash_axioms;

            let id: u64 = tickets[i];
            let ghost seen = tickets@.take(i as int);
            let ghost seen_refusals = refusals@.take(i as int);
            match &refusals[i] {
                None => {
                    self.meta_ready.insert(id);
                },
                Some(reason) => {
                    let text = "元数据落库失败：".to_owned().concat(reason.as_str());
                    self.states.insert(id, CopyState::Failed(text));
                },
            }
            proof {
                let next = tickets@.take(i + 1);
                let next_refusals = refusals@.take(i + 1);
                assert(next =~= seen.push(id));
                assert(next_refusals =~= seen_refusals.push(refusals@[i as int]));
                assert(next.drop_last() =~= seen);
                assert(next_refusals.drop_last() =~= seen_refusals);
                assert forall|k: u64| #[trigger]
                    row_written(next, next_refusals, k) <==> row_written(seen, seen_refusals, k)
                        || (k == id && refusals@[i as int] is None) by {
                    if row_written(seen, seen_refusals, k) {
                        let p = choose|p: int|
                            0 <= p < seen.len() && #[trigger] seen[p] == k && seen_refusals[p]
                                is None;
                        assert(next[p] == k);
                    }
                    assert(next[i as int] == id);
                }
            }
            i = i + 1;
        }
        assert(tickets@.take(tickets@.len() as int) =~= tickets@);
        assert(refusals@.take(refusals@.len() as int) =~= refusals@);
    }

    /// Whether the row of an import is in the store.
    pub fn is_ready(&self, id: u64) -> (r: bool)
        ensures
            r == self.ready().contains(id),
    {
        broadcast use vstd::std_specs::hash::group_hash_axioms;

        self.meta_ready.contains(&id)
    }

    /// How an import stands.
    pub fn state_of(&self, ticket: &ImportTicket) -> (r: Option<CopyState>)
        ensures
            match r {
                Some(state) => self.states().contains_key(ticket.id) && state
                    == self.states()[ticket.id],
                None => !self.states().contains_key(ticket.id),
            },
    {
        broadcast use vstd::std_specs::hash::group_hash_axioms;

        match self.states.get(&ticket.id) {
            Some(state) => Some(state.copy()),
            None => None,
        }
    }

    /// How an import ended, where it has.
    pub fn terminal_state(&self, ticket: &ImportTicket) -> (r: Option<CopyState>)
        ensures
            match r {
                Some(state) => self.states().contains_key(ticket.id) && state
                    == self.states()[ticket.id] && state.terminal(),
                None => self.states().contains_key(ticket.id)
                    ==> !self.states()[ticket.id].terminal(),
            },
            r is Some <==> self.states().contains_key(ticket.id)
                && (self.states()[ticket.id] is Done
                || self.states()[ticket.id] is Failed),
    {
        match self.state_of(ticket) {
            Some(state) => if state.is_terminal() {
                Some(state)
            } else {
                None
            },
            None => None,
        }
    }
}

/// An import that begins and ends leaves as many under way as before.
pub proof fn ending_an_import_frees_its_place(
    start: &Ledger,
    begun: &Ledger,
    ended: &Ledger,
    id: u64,
)
    requires
        start.wf(),
        id == start.next(),
        !start.open().contains(id),
        begun.open() == start.open().insert(id),
        ended.open() == begun.open().remove(id),
    ensures
        ended.open() == start.open(),
        ended.open().len() == start.open().len(),
{
    assert(ended.open() =~= start.open());
}

/// An import that is done has its row in the store.
pub proof fn done_imports_have_rows(ledger: &Ledger, id: u64)
    requires
        ledger.wf(),
        ledger.states().contains_key(id),
        ledger.states()[id] is Done,
    ensures
        ledger.ready().contains(id),
{
}

/// The progress to report of a file that is copied piece by piece: never more than all
/// of it, though the file may have grown meanwhile.
pub fn piecewise_progress(copied: u64, total: u64) -> (r: u64)
    ensures
        r == min(copied as int, total as int),
{
    if copied < total {
        copied
    } else {
        total
    }
}

/// The progress to report of a text, which is written at once.
pub fn text_progress(total: u64, written: u64) -> (r: u64)
    ensures
        r == max(total as int, written as int),
{
    if total < written {
        written
    } else {
        total
    }
}

/// Takes the next rows to write off the queue: up to `limit`, and at least one where
/// there is one.
pub fn next_batch<T>(queue: &mut VecDeque<T>, limit: usize) -> (batch: Vec<T>)
    ensures
        batch@.len() == min(old(queue)@.len() as int, max(limit as int, 1)),
        batch@ + final(queue)@ == old(queue)@,
{
    let limit: usize = if limit == 0 {
        1
    } else {
        limit
    };
    let mut batch: Vec<T> = Vec::new();
    let ghost all = queue@;
    while batch.len() < limit && queue.len() > 0
        invariant
            batch@ + queue@ == all,
            batch@.len() <= limit,
        decreases queue@.len(),
    {
        let ghost was = batch@;
        let ghost rest = queue@;
        let item = queue.pop_front();
        if let Some(item) = item {
            batch.push(item);
        }
        proof {
            assert(batch@ + queue@ =~= was + rest);
        }
    }
    batch
}

/// The perceptual hashes of the library, in memory.
pub struct PHashIndex {
    hashes: Vec<u64>,
    /// The assets of hashes that came in this session.
    session_uuids: HashMap<u64, String>,
}

/// `hit` is the nearest of `hashes` within the threshold, the first of several.
pub open spec fn nearest(
    hashes: Seq<u64>,
    incoming: u64,
    threshold: u32,
    hit: Option<(u64, u32)>,
) -> bool {
    match hit {
        Some((hash, distance)) => {
            &&& distance == ones(incoming ^ hash)
            &&& distance <= threshold
            &&& exists|i: int|
                0 <= i < hashes.len() && #[trigger] hashes[i] == hash && (forall|k: int|
                    0 <= k < hashes.len() ==> {
                        &&& ones(incoming ^ #[trigger] hashes[k]) >= distance
                        &&& k < i ==> ones(incoming ^ hashes[k]) > distance
                    })
        },
        None => forall|k: int|
            0 <= k < hashes.len() ==> ones(incoming ^ #[trigger] hashes[k]) > threshold,
    }
}

impl PHashIndex {
    /// The hashes, in the order they are scanned.
    pub closed spec fn hashes(&self) -> Seq<u64> {
        self.hashes@
    }

    /// The asset that a hash came from in this session.
    pub closed spec fn session(&self) -> Map<u64, String> {
        self.session_uuids@
    }

    pub fn new() -> (r: PHashIndex)
        ensures
            r.hashes() == Seq::<u64>::empty(),
            r.session() == Map::<u64, String>::empty(),
    {
        PHashIndex { hashes: Vec::new(), session_uuids: HashMap::new() }
    }

    /// Takes in a hash from the store, where it has eight bytes.
    pub fn load(&mut self, stored: &[u8])
        ensures
            final(self).session() == old(self).session(),
            final(self).hashes() == if stored@.len() == 8 {
                old(self).hashes().push(crate::phash::big_endian(stored@) as u64)
            } else {
                old(self).hashes()
            },
    {
        if let Some(hash) = crate::phash::hash_of_be(stored) {
            self.hashes.push(hash);
        }
    }

    /// The nearest hash within the threshold, with its distance.
    pub fn nearest_within(&self, incoming: u64, threshold: u32) -> (r: Option<(u64, u32)>)
        ensures
            nearest(self.hashes(), incoming, threshold, r),
            r matches Some((hash, distance)) ==> {
                &&& self.hashes().contains(hash)
                &&& distance == ones(incoming ^ hash)
                &&& distance <= threshold
                &&& forall|k: int|
                    0 <= k < self.hashes().len() ==> distance <= ones(
                        incoming ^ #[trigger] self.hashes()[k],
                    )
            },
            r matches Some((hash, distance)) ==> forall|k: int|
                0 <= k < self.hashes().len() && #[trigger] self.hashes()[k] != hash && ones(
                    incoming ^ self.hashes()[k],
                ) == distance ==> exists|i: int|
                    0 <= i < k && #[trigger] self.hashes()[i] == hash,
            r is None ==> forall|k: int|
                0 <= k < self.hashes().len() ==> threshold < ones(
                    incoming ^ #[trigger] self.hashes()[k],
                ),
    {
        let mut best: Option<(u64, u32)> = None;
        let ghost mut at: int = 0;
        let mut i: usize = 0;
        while i < self.hashes.len()
            invariant
                i <= self.hashes@.len(),
                match best {
                    Some((hash, distance)) => {
                        &&& distance == ones(incoming ^ hash)
                        &&& distance <= threshold
                        &&& 0 <= at < i
                        &&& self.hashes@[at] == hash
                        &&& forall|k: int|
                            0 <= k < i ==> {
                                &&& ones(incoming ^ #[trigger] self.hashes@[k]) >= distance
                                &&& k < at ==> ones(incoming ^ self.hashes@[k]) > distance
                            }
                    },
                    None => forall|k: int|
                        0 <= k < i ==> ones(incoming ^ #[trigger] self.hashes@[k]) > threshold,
                },
            decreases self.hashes@.len() - i,
        {
            let hash: u64 = self.hashes[i];
            let distance: u32 = hamming_distance(incoming, hash);
            let better = match best {
                Some((_, so_far)) => distance < so_far,
                None => distance <= threshold,
            };
            if better {
                best = Some((hash, distance));
                proof {
                    at = i as int;
                }
                if distance == 0 {
                    return best;
                }
            }
            i = i + 1;
        }
        best
    }

    /// The asset that a hash came from in this session.
    pub fn session_uuid(&self, hash: u64) -> (r: Option<String>)
        ensures
            match r {
                Some(uuid) => self.session().contains_key(hash) && uuid@ == self.session()[hash]@,
                None => !self.session().contains_key(hash),
            },
    {
        broadcast use vstd::std_specs::hash::group_hash_axioms;

        match self.session_uuids.get(&hash) {
            Some(uuid) => Some(uuid.clone()),
            None => None,
        }
    }

    /// Adds the hash of a new asset.
    pub fn add(&mut self, hash: u64, uuid: &str)
        ensures
            final(self).hashes() == old(self).hashes().push(hash),
            final(self).session().dom() == old(self).session().dom().insert(hash),
            final(self).session()[hash]@ == uuid@,
            forall|k: u64|
                k != hash && old(self).session().contains_key(k)
                    ==> #[trigger] final(self).session()[k] == old(self).session()[k],
    {
        broadcast use vstd::std_specs::hash::group_hash_axioms;

        self.hashes.push(hash);
        self.session_uuids.insert(hash, uuid.to_owned());
    }

    /// Where a hash first stands.
    fn position(&self, hash: u64) -> (r: Option<usize>)
        ensures
            match r {
                Some(i) => first_at(self.hashes@, hash, i as int),
                None => !self.hashes@.contains(hash),
            },
    {
        let mut i: usize = 0;
        while i < self.hashes.len()
            invariant
                i <= self.hashes@.len(),
                forall|k: int| 0 <= k < i ==> self.hashes@[k] != hash,
            decreases self.hashes@.len() - i,
        {
            if self.hashes[i] == hash {
                return Some(i);
            }
            i = i + 1;
        }
        None
    }

    /// Takes the first occurrence of a hash out, and the last hash takes its place; the
    /// session forgets it too.
    pub fn remove_hash(&mut self, hash: u64)
        ensures
            final(self).session() == old(self).session().remove(hash),
            !old(self).hashes().contains(hash) ==> final(self).hashes() == old(self).hashes(),
            forall|at: int| #[trigger]
                first_at(old(self).hashes(), hash, at) ==> final(self).hashes()
                    == old(self).hashes().update(at, old(self).hashes().last()).drop_last(),
            final(self).hashes().to_multiset() == old(self).hashes().to_multiset().remove(hash),
    {
        broadcast use vstd::std_specs::hash::group_hash_axioms;

        match self.position(hash) {
            Some(i) => {
                proof {
                    swap_removal(self.hashes@, i as int);
                    assert(self.hashes@.contains(hash));
                    assert forall|at: int| #[trigger]
                        first_at(self.hashes@, hash, at) implies at == i by {
                        assert(first_at(self.hashes@, hash, i as int));
                    }
                }
                self.hashes.swap_remove(i);
            },
            None => {
                proof {
                    broadcast use vstd::seq_lib::group_to_multiset_ensures;

                    assert(self.hashes@.to_multiset().remove(hash)
                        =~= self.hashes@.to_multiset());
                }
            },
        }
        self.session_uuids.remove(&hash);
    }

    /// Takes the hash of a restored asset back in, unless it is there.
    pub fn remember(&mut self, hash: u64, uuid: &str)
        ensures
            old(self).hashes().contains(hash) ==> final(self).hashes() == old(self).hashes()
                && final(self).session() == old(self).session(),
            !old(self).hashes().contains(hash) ==> {
                &&& final(self).hashes() == old(self).hashes().push(hash)
                &&& final(self).session().dom() == old(self).session().dom().insert(hash)
                &&& final(self).session()[hash]@ == uuid@
                &&& forall|k: u64|
                    k != hash && old(self).session().contains_key(k)
                        ==> #[trigger] final(self).session()[k] == old(self).session()[k]
            },
    {
        if self.position(hash).is_some() {
            return;
        }
        self.add(hash, uuid);
    }
}

/// `hash` stands at `at`, and nowhere before.
pub open spec fn first_at(hashes: Seq<u64>, hash: u64, at: int) -> bool {
    &&& 0 <= at < hashes.len()
    &&& hashes[at] == hash
    &&& forall|k: int| 0 <= k < at ==> hashes[k] != hash
}

/// The hash of an asset that is held, or held again after a restore, is found: the asset
/// is recognised when its picture comes again.
pub proof fn held_hashes_are_found(
    hashes: Seq<u64>,
    hash: u64,
    threshold: u32,
    hit: Option<(u64, u32)>,
)
    requires
        hashes.contains(hash),
        nearest(hashes, hash, threshold, hit),
    ensures
        hit == Some((hash, 0u32)),
{
    let k = choose|k: int| 0 <= k < hashes.len() && hashes[k] == hash;
    crate::phash::distance_zero_is_equality(hash, hash);
    assert(ones(hash ^ hashes[k]) == 0);
    if let Some((found, distance)) = hit {
        crate::phash::distance_zero_is_equality(hash, found);
    }
}

/// A hash that was held once and taken out, since its asset was deleted, is found no
/// more: it stands in the way of no import.
pub proof fn forgotten_hashes_are_not_found(
    before: Seq<u64>,
    after: Seq<u64>,
    hash: u64,
    threshold: u32,
    hit: Option<(u64, u32)>,
)
    requires
        before.to_multiset().count(hash) == 1,
        after.to_multiset() == before.to_multiset().remove(hash),
        nearest(after, hash, threshold, hit),
    ensures
        !after.contains(hash),
        hit matches Some((found, _)) ==> found != hash,
{
    broadcast use vstd::seq_lib::group_to_multiset_ensures;

    assert(after.to_multiset().count(hash) == 0);
    if after.contains(hash) {
        assert(after.to_multiset().count(hash) > 0);
    }
}

/// `swap_remove` takes out the item at `i` and nothing else.
proof fn swap_removal(list: Seq<u64>, i: int)
    requires
        0 <= i < list.len(),
    ensures
        list.update(i, list.last()).drop_last().to_multiset() == list.to_multiset().remove(list[i]),
{
    broadcast use vstd::seq_lib::group_to_multiset_ensures;

    let last = list.last();
    let moved = list.update(i, last);
    assert(list =~= list.drop_last().push(last));
    assert(list.to_multiset() =~= list.drop_last().to_multiset().insert(last));
    if i == list.len() - 1 {
        assert(moved.drop_last() =~= list.drop_last());
        assert(list.to_multiset().remove(list[i]) =~= list.drop_last().to_multiset());
    } else {
        assert(moved.drop_last() =~= list.drop_last().update(i, last));
        assert(list.drop_last().update(i, last).to_multiset() =~= list.drop_last().to_multiset()
            .insert(last).remove(list[i]));
    }
}

/// Assets without a category lie in the inbox, a library takes 16 imports at a time unless it
/// is told otherwise, and pictures count as similar up to a distance of 12.
pub proof fn bounds_of_a_library()
    ensures
        INBOX_CATEGORY@ == "待分类"@,
        OPEN_CAPACITY == 16,
        SIMILAR_DISTANCE_THRESHOLD == 12,
{
}

/// Of several refusals of one row the last one tells why; without a refusal there is none;
/// and a row is written exactly where some attempt was not refused.
pub proof fn the_last_refusal_counts(
    tickets: Seq<u64>,
    refusals: Seq<Option<String>>,
    id: u64,
    at: int,
)
    requires
        tickets.len() == refusals.len(),
    ensures
        0 <= at < tickets.len() && tickets[at] == id && refusals[at] is Some && (forall|k: int|
            at < k < tickets.len() ==> #[trigger] tickets[k] != id || refusals[k] is None)
            ==> refusal(tickets, refusals, id) == Some(refusals[at]->0@),
        (forall|k: int| 0 <= k < tickets.len() ==> #[trigger] tickets[k] != id
            || refusals[k] is None)
            <==> refusal(tickets, refusals, id) is None,
        row_written(tickets, refusals, id) <==> exists|k: int|
            0 <= k < tickets.len() && #[trigger] tickets[k] == id && refusals[k] is None,
    decreases tickets.len(),
{
    if tickets.len() > 0 {
        let fewer = tickets.drop_last();
        let fewer_refusals = refusals.drop_last();
        the_last_refusal_counts(fewer, fewer_refusals, id, at);
        let last = tickets.len() - 1;
        assert(tickets[last] == tickets.last());
        assert forall|k: int| 0 <= k < fewer.len() implies #[trigger] fewer[k] == tickets[k]
            && fewer_refusals[k] == refusals[k] by {}
        if tickets.last() == id && refusals.last() is Some {
            assert(tickets[last] == id);
        } else {
            if forall|k: int|
                0 <= k < tickets.len() ==> #[trigger] tickets[k] != id || refusals[k] is None {
                assert forall|k: int| 0 <= k < fewer.len() implies #[trigger] fewer[k] != id
                    || fewer_refusals[k] is None by {
                    assert(tickets[k] != id || refusals[k] is None);
                }
            }
            if forall|k: int|
                0 <= k < fewer.len() ==> #[trigger] fewer[k] != id || fewer_refusals[k] is None {
                assert forall|k: int| 0 <= k < tickets.len() implies #[trigger] tickets[k] != id
                    || refusals[k] is None by {
                    if k < fewer.len() {
                        assert(fewer[k] != id || fewer_refusals[k] is None);
                    }
                }
            }
        }
    }
}

/// A wider threshold finds the same hash, or one where there was none.
pub proof fn wider_thresholds_find_no_less(
    hashes: Seq<u64>,
    incoming: u64,
    narrow: u32,
    wide: u32,
    near: Option<(u64, u32)>,
    hit: Option<(u64, u32)>,
)
    requires
        narrow <= wide,
        nearest(hashes, incoming, narrow, near),
        nearest(hashes, incoming, wide, hit),
    ensures
        near is Some ==> hit == near,
        hit matches Some((hash, distance)) ==> (near is Some <==> distance <= narrow),
{
    if let Some((hash, distance)) = near {
        let i = choose|i: int|
            0 <= i < hashes.len() && #[trigger] hashes[i] == hash && (forall|k: int|
                0 <= k < hashes.len() ==> {
                    &&& ones(incoming ^ #[trigger] hashes[k]) >= distance
                    &&& k < i ==> ones(incoming ^ hashes[k]) > distance
                });
        assert(ones(incoming ^ hashes[i]) == distance);
        if let Some((other, d)) = hit {
            let j = choose|j: int|
                0 <= j < hashes.len() && #[trigger] hashes[j] == other && (forall|k: int|
                    0 <= k < hashes.len() ==> {
                        &&& ones(incoming ^ #[trigger] hashes[k]) >= d
                        &&& k < j ==> ones(incoming ^ hashes[k]) > d
                    });
            assert(ones(incoming ^ hashes[j]) == d);
            assert(i == j);
        }
    }
}

} // verus!

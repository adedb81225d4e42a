//! The course of an import.
//!
//! An import alternates between decisions, made here, and work on files and the store,
//! done by the caller. Each step takes what the work brought and says what comes next.
//!
//! A file goes through four gates: is there room for another import; is the text small
//! enough; does the library hold the same bytes already; can the picture be decoded. The
//! perceptual hash is no gate: a similar picture is imported with a remark. Then the
//! bytes are copied, and only when they are in place is the row written.

use std::collections::HashMap;

#[allow(unused_imports)]
use vstd::math::{max, min};
use vstd::prelude::*;

use crate::digest::{new_uuid, sha256_bytes};
#[allow(unused_imports)]
use crate::digest::{sha256, uuid_shaped};
#[allow(unused_imports)]
use crate::digits::decimal;
use crate::digits::decimal_chars;
use crate::domain::AssetKind;
#[allow(unused_imports)]
use crate::library::{media_kind, nearest};
use crate::library::{
    to_media_kind, CopyState, EnqueueOutcome, ImportRequest, ImportTicket, Ledger, LibraryError,
    MediaJob, MediaKind, PHashIndex, SimilarityHit, INBOX_CATEGORY, SIMILAR_DISTANCE_THRESHOLD,
};
use crate::media::{kind_of, normalize_text_to_utf8};
#[allow(unused_imports)]
use crate::media::{normalized, path_kind};
use crate::paths::{extension, file_name};
#[allow(unused_imports)]
use crate::paths::{path_extension, path_file_name, text_of, told};
#[allow(unused_imports)]
use crate::phash::{big_endian, ones};
use crate::phash::{be_of_hash, hamming_distance};
#[allow(unused_imports)]
use crate::text::lowercased;
use crate::text::{string_of, to_lowercase};

verus! {

/// The size of a text above which it is not imported.
pub const TEXT_IMPORT_MAX_BYTES: u64 = 8388608;

struct SessionEntry {
    digest: Vec<u8>,
    uuid: String,
}

/// The digests of the contents that were imported in this session, with their assets.
pub struct ContentSession {
    /// By the number that the first eight bytes of the digest stand for; within one
    /// entry of the map the newest stands first.
    buckets: HashMap<u64, Vec<SessionEntry>>,
}

spec fn first_match(entries: Seq<SessionEntry>, digest: Seq<u8>) -> Option<Seq<char>>
    decreases entries.len(),
{
    if entries.len() == 0 {
        None
    } else if entries[0].digest@ == digest {
        Some(entries[0].uuid@)
    } else {
        first_match(entries.drop_first(), digest)
    }
}

spec fn bucket_key(digest: Seq<u8>) -> u64 {
    if digest.len() < 8 {
        0
    } else {
        big_endian(digest.take(8)) as u64
    }
}

fn bucket_of(digest: &Vec<u8>) -> (r: u64)
    ensures
        r == bucket_key(digest@),
{
    if digest.len() < 8 {
        return 0;
    }
    let (head, _) = digest.as_slice().split_at(8);
    assert(head@ =~= digest@.take(8));
    match crate::phash::hash_of_be(head) {
        Some(key) => key,
        None => 0,
    }
}

fn same_bytes(a: &Vec<u8>, b: &Vec<u8>) -> (r: bool)
    ensures
        r == (a@ == b@),
{
    if a.len() != b.len() {
        return false;
    }
    let mut i: usize = 0;
    while i < a.len()
        invariant
            a@.len() == b@.len(),
            i <= a@.len(),
            forall|k: int| 0 <= k < i ==> a@[k] == b@[k],
        decreases a@.len() - i,
    {
        if a[i] != b[i] {
            return false;
        }
        i = i + 1;
    }
    assert(a@ =~= b@);
    true
}

fn copy_bytes(bytes: &Vec<u8>) -> (r: Vec<u8>)
    ensures
        r@ == bytes@,
{
    let mut out: Vec<u8> = Vec::new();
    out.extend_from_slice(bytes.as_slice());
    assert(out@ =~= bytes@);
    out
}

impl ContentSession {
    /// The asset with this digest that came in this session.
    pub closed spec fn uuid_of(&self, digest: Seq<u8>) -> Option<Seq<char>> {
        let key = bucket_key(digest);
        if self.buckets@.contains_key(key) {
            first_match(self.buckets@[key]@, digest)
        } else {
            None
        }
    }

    pub fn new() -> (r: ContentSession)
        ensures
            forall|digest: Seq<u8>| #[trigger] r.uuid_of(digest) is None,
    {
        ContentSession { buckets: HashMap::new() }
    }

    pub fn lookup(&self, digest: &Vec<u8>) -> (r: Option<String>)
        ensures
            text_of(r) == self.uuid_of(digest@),
    {
        broadcast use vstd::std_specs::hash::group_hash_axioms;

        let key: u64 = bucket_of(digest);
        match self.buckets.get(&key) {
            None => None,
            Some(entries) => {
                let mut i: usize = 0;
                assert(entries@.skip(0) =~= entries@);
                while i < entries.len()
                    invariant
                        i <= entries@.len(),
                        self.uuid_of(digest@) == first_match(entries@.skip(i as int), digest@),
                    decreases entries@.len() - i,
                {
                    if same_bytes(&entries[i].digest, digest) {
                        return Some(entries[i].uuid.clone());
                    }
                    assert(entries@.skip(i as int).drop_first() =~= entries@.skip(i + 1));
                    i = i + 1;
                }
                None
            },
        }
    }

    pub fn register(&mut self, digest: &Vec<u8>, uuid: &str)
        ensures
            forall|other: Seq<u8>| #[trigger]
                final(self).uuid_of(other) == if other == digest@ {
                    Some(uuid@)
                } else {
                    old(self).uuid_of(other)
                },
    {
        broadcast use vstd::std_specs::hash::group_hash_axioms;

        let key: u64 = bucket_of(digest);
        let ghost was = self.buckets@;
        let entry = SessionEntry { digest: copy_bytes(digest), uuid: uuid.to_owned() };
        let mut entries: Vec<SessionEntry> = match self.buckets.remove(&key) {
            Some(entries) => entries,
            None => Vec::new(),
        };
        let ghost before = entries@;
        entries.insert(0, entry);
        proof {
            assert(entries@.drop_first() =~= before);
            assert(entries@[0] == entry);
        }
        let ghost after = entries@;
        self.buckets.insert(key, entries);
        proof {
            assert forall|other: Seq<u8>| #[trigger]
                self.uuid_of(other) == if other == digest@ {
                    Some(uuid@)
                } else {
                    old(self).uuid_of(other)
                } by {
                if bucket_key(other) == key {
                    assert(self.buckets@[key]@ == after);
                    if !was.contains_key(key) {
                        assert(first_match(before, other) is None);
                    }
                }
            }
        }
    }
}

/// What the caller does next, or how it ended.
pub enum Phase {
    /// Measure the source.
    Sizing,
    /// Read the source, which is a text.
    Reading,
    /// Hash the source.
    Hashing,
    /// Ask the store whether it holds this asset and has not put it in the trash.
    CheckingSession { uuid: String },
    /// Ask the store for an asset with the digest.
    QueryingStore,
    /// Decode the source and hash what it shows.
    Decoding,
    /// Ask the store which assets have this hash.
    Resolving { hash: u64, distance: u32 },
    /// Read all hashes from the store.
    Scanning { incoming: u64 },
    /// The file goes into the library.
    Accepted,
    /// It does not.
    Finished { outcome: EnqueueOutcome },
}

/// An import up to the decision whether the file goes into the library.
pub struct ImportRun {
    pub request: ImportRequest,
    pub kind: AssetKind,
    /// The size of what goes into the library.
    pub size: u64,
    /// The text that goes into the library, where the source is one.
    pub text: Option<Vec<u8>>,
    pub digest: Vec<u8>,
    pub phash: Option<u64>,
    pub similarity: Option<SimilarityHit>,
    pub phase: Phase,
}

/// A perceptual hash in the store.
pub struct StoredHash {
    pub uuid: String,
    pub hash: u64,
}

impl ImportRun {
    /// All but the phase is as in `before`.
    pub open spec fn continues(self, before: ImportRun) -> bool {
        &&& self.request == before.request
        &&& self.kind == before.kind
        &&& self.size == before.size
        &&& self.text == before.text
        &&& self.digest == before.digest
        &&& self.phash == before.phash
        &&& self.similarity == before.similarity
    }

    /// Begins an import, where there is room for it.
    pub fn start(request: ImportRequest, ledger: &Ledger) -> (r: ImportRun)
        requires
            ledger.wf(),
        ensures
            r.request == request,
            r.text is None,
            r.phash is None,
            r.similarity is None,
            ledger.open().len() >= ledger.limit() ==> r.phase == (Phase::Finished {
                outcome: EnqueueOutcome::Backpressure,
            }),
            ledger.open().len() < ledger.limit() ==> {
                &&& r.phase is Sizing
                &&& told(request.source@) ==> exists|windows: bool|
                    r.kind == match #[trigger] path_kind(request.source@, windows) {
                        Some(kind) => kind,
                        None => AssetKind::Other,
                    }
            },
    {
        if ledger.saturated() {
            return ImportRun {
                request,
                kind: AssetKind::Other,
                size: 0,
                text: None,
                digest: Vec::new(),
                phash: None,
                similarity: None,
                phase: Phase::Finished { outcome: EnqueueOutcome::Backpressure },
            };
        }
        let kind = kind_of(request.source.as_str());
        ImportRun {
            request,
            kind,
            size: 0,
            text: None,
            digest: Vec::new(),
            phash: None,
            similarity: None,
            phase: Phase::Sizing,
        }
    }

    /// The source was measured. A text that is too large goes no further.
    pub fn sized(self, len: u64) -> (r: ImportRun)
        requires
            self.phase is Sizing,
        ensures
            self.kind == AssetKind::Text && len > TEXT_IMPORT_MAX_BYTES ==> {
                &&& r.continues(self)
                &&& r.phase matches Phase::Finished {
                    outcome: EnqueueOutcome::Unsupported { reason },
                } && reason@ == "文本素材超过 8MB，暂不支持导入"@
            },
            self.kind == AssetKind::Text && len <= TEXT_IMPORT_MAX_BYTES ==> r.continues(self)
                && r.phase is Reading,
            self.kind != AssetKind::Text ==> r.continues((ImportRun { size: len, ..self }))
                && r.phase is Hashing,
    {
        if self.kind == AssetKind::Text {
            if len > TEXT_IMPORT_MAX_BYTES {
                let reason = "文本素材超过 8MB，暂不支持导入".to_owned();
                return ImportRun {
                    phase: Phase::Finished { outcome: EnqueueOutcome::Unsupported { reason } },
                    ..self
                };
            }
            return ImportRun { phase: Phase::Reading, ..self };
        }
        ImportRun { size: len, phase: Phase::Hashing, ..self }
    }

    /// What comes after the digest is known.
    pub open spec fn after_digest(session: &ContentSession, digest: Seq<u8>, phase: Phase) -> bool {
        match session.uuid_of(digest) {
            Some(uuid) => phase matches Phase::CheckingSession { uuid: found } && found@ == uuid,
            None => phase is QueryingStore,
        }
    }

    fn look_up(digest: &Vec<u8>, session: &ContentSession) -> (phase: Phase)
        ensures
            ImportRun::after_digest(session, digest@, phase),
    {
        match session.lookup(digest) {
            Some(uuid) => Phase::CheckingSession { uuid },
            None => Phase::QueryingStore,
        }
    }

    /// The text was read. What counts from here on is its UTF-8 form.
    pub fn text_read(self, bytes: &Vec<u8>, session: &ContentSession) -> (r: ImportRun)
        requires
            self.phase is Reading,
            bytes@.len() <= usize::MAX / 16,
        ensures
            r.request == self.request,
            r.kind == self.kind,
            r.phash == self.phash,
            r.similarity == self.similarity,
            r.text matches Some(text) && text@ == normalized(bytes@),
            r.size == normalized(bytes@).len(),
            r.digest@ == sha256(normalized(bytes@)),
            ImportRun::after_digest(session, r.digest@, r.phase),
    {
        let form = normalize_text_to_utf8(bytes.as_slice());
        let mut text: Vec<u8> = Vec::new();
        text.extend_from_slice(form.as_ref());
        assert(text@ =~= normalized(bytes@));
        let digest = sha256_bytes(text.as_slice());
        let phase = ImportRun::look_up(&digest, session);
        ImportRun { size: text.len() as u64, text: Some(text), digest, phase, ..self }
    }

    /// The source was hashed.
    pub fn hashed(self, digest: Vec<u8>, session: &ContentSession) -> (r: ImportRun)
        requires
            self.phase is Hashing,
        ensures
            r.continues((ImportRun { digest, ..self })),
            ImportRun::after_digest(session, digest@, r.phase),
    {
        let phase = ImportRun::look_up(&digest, session);
        ImportRun { digest, phase, ..self }
    }

    /// Whether the asset of this session with the same digest is still live.
    pub fn session_checked(self, alive: bool) -> (r: ImportRun)
        requires
            self.phase is CheckingSession,
        ensures
            r.continues(self),
            alive ==> r.phase == (Phase::Finished {
                outcome: EnqueueOutcome::Duplicate {
                    existing_uuid: self.phase->CheckingSession_uuid,
                },
            }),
            !alive ==> r.phase is QueryingStore,
    {
        let ImportRun { request, kind, size, text, digest, phash, similarity, phase } = self;
        let phase = match phase {
            Phase::CheckingSession { uuid } if alive => Phase::Finished {
                outcome: EnqueueOutcome::Duplicate { existing_uuid: uuid },
            },
            _ => Phase::QueryingStore,
        };
        ImportRun { request, kind, size, text, digest, phash, similarity, phase }
    }

    /// The asset that the store holds under the digest, if any.
    pub fn store_answered(self, existing: Option<String>) -> (r: ImportRun)
        requires
            self.phase is QueryingStore,
        ensures
            r.continues(self),
            match existing {
                Some(uuid) => r.phase == (Phase::Finished {
                    outcome: EnqueueOutcome::Duplicate { existing_uuid: uuid },
                }),
                None => if self.kind == AssetKind::Image {
                    r.phase is Decoding
                } else {
                    r.phase is Accepted
                },
            },
    {
        let phase = match existing {
            Some(uuid) => Phase::Finished {
                outcome: EnqueueOutcome::Duplicate { existing_uuid: uuid },
            },
            None => if self.kind == AssetKind::Image {
                Phase::Decoding
            } else {
                Phase::Accepted
            },
        };
        ImportRun { phase, ..self }
    }

    /// The picture could not be decoded.
    pub fn decode_failed(self, message: &str) -> (r: ImportRun)
        requires
            self.phase is Decoding,
        ensures
            r.continues(self),
            r.phase matches Phase::Finished {
                outcome: EnqueueOutcome::Unsupported { reason },
            } && reason@ == "图片解码失败："@ + message@,
    {
        let reason = "图片解码失败：".to_owned().concat(message);
        ImportRun {
            phase: Phase::Finished { outcome: EnqueueOutcome::Unsupported { reason } },
            ..self
        }
    }

    /// The picture was decoded; a nearly even one has no hash.
    ///
    /// With the hashes in memory the nearest of them is taken. Its asset is known where
    /// it came in this session, else the store is asked. Without them all hashes are read
    /// from the store. However near a hash is, the import goes on.
    pub fn decoded(self, hash: Option<u64>, index: &Option<PHashIndex>) -> (r: ImportRun)
        requires
            self.phase is Decoding,
            self.similarity is None,
        ensures
            r.request == self.request,
            r.kind == self.kind,
            r.size == self.size,
            r.text == self.text,
            r.digest == self.digest,
            r.phash == hash,
            !(r.phase is Finished),
            match (hash, *index) {
                (None, _) => r.phase is Accepted && r.similarity is None,
                (Some(incoming), None) => r.phase == (Phase::Scanning { incoming }) && r.similarity
                    is None,
                (Some(incoming), Some(held)) => exists|hit: Option<(u64, u32)>| #[trigger]
                    nearest(held.hashes(), incoming, SIMILAR_DISTANCE_THRESHOLD, hit)
                        && match hit {
                        None => r.phase is Accepted && r.similarity is None,
                        Some((stored, distance)) => if held.session().contains_key(stored) {
                            &&& r.phase is Accepted
                            &&& r.similarity matches Some(similar) && similar.distance == distance
                                && similar.existing_uuid@ == held.session()[stored]@
                        } else {
                            r.phase == (Phase::Resolving { hash: stored, distance })
                                && r.similarity is None
                        },
                    },
            },
            hash is Some && *index is Some ==> {
                let held = (*index)->0;
                let incoming = hash->0;
                &&& r.phase is Accepted && r.similarity is None ==> forall|k: int|
                    0 <= k < held.hashes().len() ==> ones(incoming ^ #[trigger] held.hashes()[k])
                        > 12
                &&& r.similarity matches Some(similar) ==> {
                    &&& similar.distance <= 12
                    &&& forall|k: int|
                        0 <= k < held.hashes().len()
                            ==> ones(incoming ^ #[trigger] held.hashes()[k])
                            >= similar.distance
                    &&& exists|k: int|
                        0 <= k < held.hashes().len() && similar.distance == ones(
                            incoming ^ #[trigger] held.hashes()[k],
                        ) && held.session().contains_key(held.hashes()[k])
                            && held.session()[held.hashes()[k]]@ == similar.existing_uuid@
                }
                &&& r.phase matches Phase::Resolving { hash: stored, distance } ==> {
                    &&& held.hashes().contains(stored)
                    &&& distance == ones(incoming ^ stored)
                    &&& distance <= 12
                    &&& forall|k: int|
                        0 <= k < held.hashes().len()
                            ==> ones(incoming ^ #[trigger] held.hashes()[k])
                            >= distance
                }
            },
    {
        let incoming: u64 = match hash {
            Some(incoming) => incoming,
            None => {
                return ImportRun { phash: None, phase: Phase::Accepted, ..self };
            },
        };
        match index {
            None => ImportRun { phash: hash, phase: Phase::Scanning { incoming }, ..self },
            Some(held) => {
                let hit = held.nearest_within(incoming, SIMILAR_DISTANCE_THRESHOLD);
                assert(nearest(held.hashes(), incoming, SIMILAR_DISTANCE_THRESHOLD, hit));
                proof {
                    if let Some((stored, distance)) = hit {
                        let k = choose|k: int|
                            0 <= k < held.hashes().len() && held.hashes()[k] == stored;
                        assert(held.hashes()[k] == stored);
                    }
                }
                match hit {
                    None => ImportRun { phash: hash, phase: Phase::Accepted, ..self },
                    Some((stored, distance)) => match held.session_uuid(stored) {
                        Some(existing_uuid) => ImportRun {
                            phash: hash,
                            similarity: Some(SimilarityHit { existing_uuid, distance }),
                            phase: Phase::Accepted,
                            ..self
                        },
                        None => ImportRun {
                            phash: hash,
                            phase: Phase::Resolving { hash: stored, distance },
                            ..self
                        },
                    },
                }
            },
        }
    }

    /// The assets that the store holds under the nearest hash. The first is the one that
    /// is reported; where there is none nothing is.
    pub fn resolved(self, uuids: &Vec<String>) -> (r: ImportRun)
        requires
            self.phase is Resolving,
            self.similarity is None,
        ensures
            r.phase is Accepted,
            r.request == self.request,
            r.kind == self.kind,
            r.size == self.size,
            r.text == self.text,
            r.digest == self.digest,
            r.phash == self.phash,
            uuids@.len() == 0 ==> r.similarity is None,
            uuids@.len() > 0 ==> (r.similarity matches Some(similar) && similar.distance
                == self.phase->distance && similar.existing_uuid@ == uuids@[0]@),
    {
        let distance: u32 = match &self.phase {
            Phase::Resolving { hash: _, distance } => *distance,
            _ => 0,
        };
        if uuids.len() == 0 {
            return ImportRun { phase: Phase::Accepted, ..self };
        }
        ImportRun {
            similarity: Some(SimilarityHit { existing_uuid: uuids[0].clone(), distance }),
            phase: Phase::Accepted,
            ..self
        }
    }

    /// All hashes of the store: the nearest within the threshold is reported.
    pub fn scanned(self, stored: &Vec<StoredHash>) -> (r: ImportRun)
        requires
            self.phase is Scanning,
            self.similarity is None,
        ensures
            r.phase is Accepted,
            r.request == self.request,
            r.kind == self.kind,
            r.size == self.size,
            r.text == self.text,
            r.digest == self.digest,
            r.phash == self.phash,
            match r.similarity {
                Some(similar) => {
                    &&& similar.distance <= SIMILAR_DISTANCE_THRESHOLD
                    &&& exists|i: int|
                        0 <= i < stored@.len()
                            && similar.existing_uuid@ == (#[trigger] stored@[i]).uuid@
                            && similar.distance == ones(self.phase->incoming ^ stored@[i].hash) && (
                        forall|k: int|
                            0 <= k < stored@.len() ==> {
                                &&& ones(self.phase->incoming ^ (#[trigger] stored@[k]).hash)
                                    >= similar.distance
                                &&& k < i ==> ones(self.phase->incoming ^ stored@[k].hash)
                                    > similar.distance
                            })
                },
                None => forall|k: int|
                    0 <= k < stored@.len() ==> ones(
                        self.phase->incoming ^ (#[trigger] stored@[k]).hash,
                    ) > SIMILAR_DISTANCE_THRESHOLD,
            },
    {
        let incoming: u64 = match &self.phase {
            Phase::Scanning { incoming } => *incoming,
            _ => 0,
        };
        let mut best: Option<(usize, u32)> = None;
        let mut i: usize = 0;
        while i < stored.len()
            invariant
                i <= stored@.len(),
                match best {
                    Some((at, distance)) => {
                        &&& at < i
                        &&& distance == ones(incoming ^ stored@[at as int].hash)
                        &&& distance <= SIMILAR_DISTANCE_THRESHOLD
                        &&& forall|k: int|
                            0 <= k < i ==> {
                                &&& ones(incoming ^ (#[trigger] stored@[k]).hash) >= distance
                                &&& k < at ==> ones(incoming ^ stored@[k].hash) > distance
                            }
                    },
                    None => forall|k: int|
                        0 <= k < i ==> ones(incoming ^ (#[trigger] stored@[k]).hash)
                            > SIMILAR_DISTANCE_THRESHOLD,
                },
            decreases stored@.len() - i,
        {
            let distance: u32 = hamming_distance(incoming, stored[i].hash);
            let better = match best {
                Some((_, so_far)) => distance < so_far,
                None => distance <= SIMILAR_DISTANCE_THRESHOLD,
            };
            if better {
                best = Some((i, distance));
            }
            i = i + 1;
        }
        match best {
            Some((at, distance)) => ImportRun {
                similarity: Some(
                    SimilarityHit { existing_uuid: stored[at].uuid.clone(), distance },
                ),
                phase: Phase::Accepted,
                ..self
            },
            None => ImportRun { phase: Phase::Accepted, ..self },
        }
    }
}

/// The row of an asset in the store.
pub struct AssetMeta {
    pub uuid: String,
    pub file_name: String,
    /// Where the file lies, from the root of the library.
    pub rel_path: String,
    pub category: Option<String>,
    pub tags: Vec<String>,
    pub size_bytes: i64,
    pub created_at: i64,
    pub imported_at: i64,
    pub phash: Option<Vec<u8>>,
    pub content_hash: Option<Vec<u8>>,
    pub width: Option<u32>,
    pub height: Option<u32>,
}

/// The file name that a row gets: `unnamed` where the path has none.
pub open spec fn row_name(name: Option<Seq<char>>) -> Seq<char> {
    match name {
        Some(name) => name,
        None => "unnamed"@,
    }
}

/// The extension that a file gets in the library: `bin` where the path has none.
pub open spec fn stored_extension(ext: Option<Seq<char>>) -> Seq<char> {
    match ext {
        Some(ext) => lowercased(ext),
        None => "bin"@,
    }
}

/// The directory of an asset, from the root of the library.
pub open spec fn object_dir_text(uuid: Seq<char>) -> Seq<char> {
    "objects/"@ + uuid
}

/// An accepted import: its bytes are being copied.
pub struct AcceptedImport {
    ticket: ImportTicket,
    kind: AssetKind,
    text: Option<Vec<u8>>,
    phash: Option<u64>,
    similarity: Option<SimilarityHit>,
    row: AssetMeta,
}

/// An import whose bytes are in place: its row can be written.
pub struct CopiedImport {
    accepted: AcceptedImport,
}

impl AcceptedImport {
    pub closed spec fn ticket(&self) -> ImportTicket {
        self.ticket
    }

    pub closed spec fn kind(&self) -> AssetKind {
        self.kind
    }

    pub closed spec fn text(&self) -> Option<Vec<u8>> {
        self.text
    }

    pub closed spec fn phash(&self) -> Option<u64> {
        self.phash
    }

    pub closed spec fn similarity(&self) -> Option<SimilarityHit> {
        self.similarity
    }

    pub closed spec fn row(&self) -> AssetMeta {
        self.row
    }

    /// The row says what is known of the import.
    pub open spec fn row_describes(&self, run: ImportRun, created_at: i64, imported_at: i64) -> bool {
        let row = self.row();
        &&& row.uuid == self.ticket().uuid
        &&& row.tags == run.request.tags
        &&& row.size_bytes == run.size
        &&& row.created_at == created_at
        &&& row.imported_at == imported_at
        &&& row.width is None
        &&& row.height is None
        &&& row.category matches Some(category) && category@ == match run.request.category {
            Some(category) => category@,
            None => INBOX_CATEGORY@,
        }
        &&& row.content_hash matches Some(digest) && digest@ == run.digest@
        &&& match (row.phash, run.phash) {
            (Some(bytes), Some(hash)) => bytes@.len() == 8 && big_endian(bytes@) == hash,
            (None, None) => true,
            _ => false,
        }
        &&& told(run.request.source@) ==> exists|windows: bool|
            row.file_name@ == row_name(#[trigger] path_file_name(run.request.source@, windows))
        &&& told(run.request.source@) ==> exists|windows: bool|
            row.rel_path@ == object_dir_text(row.uuid@) + "/raw."@ + stored_extension(
                #[trigger] path_extension(run.request.source@, windows),
            )
        &&& exists|ext: Option<Seq<char>>|
            row.rel_path@ == object_dir_text(row.uuid@) + "/raw."@ + #[trigger] stored_extension(ext)
    }

    /// Opens an accepted import as the asset `uuid`.
    pub fn open(
        run: ImportRun,
        uuid: String,
        created_at: i64,
        imported_at: i64,
        ledger: &mut Ledger,
    ) -> (r: AcceptedImport)
        requires
            run.phase is Accepted,
            run.size <= i64::MAX,
            old(ledger).wf(),
            old(ledger).next() < u64::MAX,
        ensures
            final(ledger).wf(),
            r.ticket().id == old(ledger).next(),
            r.ticket().uuid@ == uuid@,
            final(ledger).next() == old(ledger).next() + 1,
            final(ledger).open() == old(ledger).open().insert(r.ticket().id),
            final(ledger).states() == old(ledger).states().insert(
                r.ticket().id,
                CopyState::Pending,
            ),
            final(ledger).ready() == old(ledger).ready(),
            final(ledger).limit() == old(ledger).limit(),
            r.kind() == run.kind,
            r.text() == run.text,
            r.phash() == run.phash,
            r.similarity() == run.similarity,
            r.row_describes(run, created_at, imported_at),
    {
        let id: u64 = ledger.begin();
        let found_name = file_name(run.request.source.as_str());
        let found_ext = extension(run.request.source.as_str());
        let file_name: String = match &found_name {
            Some(name) => name.clone(),
            None => "unnamed".to_owned(),
        };
        let ext: String = match &found_ext {
            Some(ext) => to_lowercase(ext.as_str()),
            None => "bin".to_owned(),
        };
        let rel_path = object_dir(uuid.as_str()).concat("/raw.").concat(ext.as_str());
        let ImportRun { request, kind, size, text, digest, phash, similarity, phase } = run;
        let ImportRequest { source, category, tags } = request;
        let category = match category {
            Some(category) => category,
            None => INBOX_CATEGORY.to_owned(),
        };
        let stored_phash = match phash {
            Some(hash) => Some(be_of_hash(hash)),
            None => None,
        };
        let row = AssetMeta {
            uuid: uuid.clone(),
            file_name,
            rel_path,
            category: Some(category),
            tags,
            size_bytes: size as i64,
            created_at,
            imported_at,
            phash: stored_phash,
            content_hash: Some(digest),
            width: None,
            height: None,
        };
        let r = AcceptedImport { ticket: ImportTicket { id, uuid }, kind, text, phash, similarity, row };
        proof {
            assert(r.row().rel_path@ =~= object_dir_text(uuid@) + "/raw."@ + stored_extension(
                text_of(found_ext),
            ));
            if told(run.request.source@) {
                let w = choose|w: bool| #[trigger]
                    path_file_name(run.request.source@, w) == text_of(found_name);
                assert(r.row().file_name@ == row_name(path_file_name(run.request.source@, w)));
                let v = choose|v: bool| #[trigger]
                    path_extension(run.request.source@, v) == text_of(found_ext);
                assert(r.row().rel_path@ == object_dir_text(uuid@) + "/raw."@ + stored_extension(
                    path_extension(run.request.source@, v),
                ));
            }
        }
        r
    }

    /// Opens an accepted import as a new asset.
    pub fn begin(run: ImportRun, created_at: i64, imported_at: i64, ledger: &mut Ledger) -> (r:
        AcceptedImport)
        requires
            run.phase is Accepted,
            run.size <= i64::MAX,
            old(ledger).wf(),
            old(ledger).next() < u64::MAX,
        ensures
            final(ledger).wf(),
            uuid_shaped(r.ticket().uuid@),
            r.ticket().id == old(ledger).next(),
            final(ledger).next() == old(ledger).next() + 1,
            final(ledger).open() == old(ledger).open().insert(r.ticket().id),
            final(ledger).states() == old(ledger).states().insert(
                r.ticket().id,
                CopyState::Pending,
            ),
            final(ledger).ready() == old(ledger).ready(),
            final(ledger).limit() == old(ledger).limit(),
            r.kind() == run.kind,
            r.text() == run.text,
            r.phash() == run.phash,
            r.similarity() == run.similarity,
            r.row_describes(run, created_at, imported_at),
    {
        let uuid = new_uuid();
        AcceptedImport::open(run, uuid, created_at, imported_at, ledger)
    }

    /// The number of the import.
    pub fn id(&self) -> (r: u64)
        ensures
            r == self.ticket().id,
    {
        self.ticket.id
    }

    /// Where the bytes go, from the root of the library.
    pub fn destination(&self) -> (r: &str)
        ensures
            r@ == self.row().rel_path@,
    {
        self.row.rel_path.as_str()
    }

    /// The directory to make for the bytes, from the root of the library; the one to
    /// remove where they cannot be copied.
    pub fn directory(&self) -> (r: String)
        ensures
            r@ == object_dir_text(self.ticket().uuid@),
    {
        object_dir(self.ticket.uuid.as_str())
    }

    /// The bytes to write, where they are not those of the source.
    pub fn normalized_text(&self) -> (r: Option<&Vec<u8>>)
        ensures
            match r {
                Some(bytes) => self.text() == Some(*bytes),
                None => self.text() is None,
            },
    {
        match &self.text {
            Some(bytes) => Some(bytes),
            None => None,
        }
    }

    /// The bytes are in place.
    pub fn copied(self) -> (r: CopiedImport)
        ensures
            r.accepted() == self,
    {
        CopiedImport { accepted: self }
    }

    /// The bytes could not be copied: the import ends, and no row was written.
    pub fn copy_failed(self, message: &str, ledger: &mut Ledger) -> (r: LibraryError)
        requires
            old(ledger).wf(),
            old(ledger).open().contains(self.ticket().id),
        ensures
            final(ledger).wf(),
            final(ledger).open() == old(ledger).open().remove(self.ticket().id),
            exists|text: String|
                text@ == message@ && #[trigger] old(ledger).only_state(
                    self.ticket().id,
                    CopyState::Failed(text),
                    final(ledger),
                ),
            r matches LibraryError::Io(text) && text@ == message@,
    {
        let text = message.to_owned();
        ledger.finish(self.ticket.id, CopyState::Failed(text));
        LibraryError::Io(message.to_owned())
    }
}

impl CopiedImport {
    pub closed spec fn accepted(&self) -> AcceptedImport {
        self.accepted
    }

    /// The row to write.
    pub fn row(&self) -> (r: &AssetMeta)
        ensures
            *r == self.accepted().row(),
    {
        &self.accepted.row
    }

    /// The row was not confirmed in time: the import ends.
    pub fn commit_timed_out(self, ledger: &mut Ledger) -> (r: LibraryError)
        requires
            old(ledger).wf(),
            old(ledger).open().contains(self.accepted().ticket().id),
        ensures
            final(ledger).wf(),
            final(ledger).open() == old(ledger).open().remove(self.accepted().ticket().id),
            exists|text: String|
                text@ == r.spec_message() && #[trigger] old(ledger).only_state(
                    self.accepted().ticket().id,
                    CopyState::Failed(text),
                    final(ledger),
                ),
            r matches LibraryError::MetaTimeout(number) && number@ == decimal(
                self.accepted().ticket().id as nat,
            ),
    {
        let id: u64 = self.accepted.ticket.id;
        let error = LibraryError::MetaTimeout(string_of(decimal_chars(id)));
        let text = error.message();
        ledger.finish(id, CopyState::Failed(text));
        error
    }

    /// The row is in the store: the import is done. What was imported is remembered for
    /// this session, and a job is due where the kind has one; it works on the copy in
    /// the library.
    pub fn committed(
        self,
        root: &str,
        ledger: &mut Ledger,
        index: &mut Option<PHashIndex>,
        session: &mut ContentSession,
    ) -> (r: (EnqueueOutcome, Option<MediaJob>))
        requires
            old(ledger).wf(),
            old(ledger).open().contains(self.accepted().ticket().id),
            old(ledger).ready().contains(self.accepted().ticket().id),
            self.accepted().row().content_hash is Some,
        ensures
            final(ledger).wf(),
            final(ledger).open() == old(ledger).open().remove(self.accepted().ticket().id),
            old(ledger).only_state(self.accepted().ticket().id, CopyState::Done, final(ledger)),
            r.0 == (EnqueueOutcome::Ticket {
                ticket: self.accepted().ticket(),
                similarity: self.accepted().similarity(),
            }),
            match (r.1, media_kind(self.accepted().kind())) {
                (Some(job), Some(kind)) => {
                    &&& job.uuid@ == self.accepted().ticket().uuid@
                    &&& job.source@ == root@ + "/"@ + self.accepted().row().rel_path@
                    &&& job.kind == kind
                },
                (None, None) => true,
                _ => false,
            },
            self.accepted().kind() == AssetKind::Other <==> r.1 is None,
            r.1 matches Some(job) ==> match self.accepted().kind() {
                AssetKind::Image => job.kind == MediaKind::Image,
                AssetKind::Video => job.kind == MediaKind::Video,
                AssetKind::Text => job.kind == MediaKind::Text,
                AssetKind::Other => false,
            },
            forall|digest: Seq<u8>| #[trigger]
                final(session).uuid_of(digest) == if digest
                    == self.accepted().row().content_hash->0@ {
                    Some(self.accepted().ticket().uuid@)
                } else {
                    old(session).uuid_of(digest)
                },
            match (*old(index), self.accepted().phash()) {
                (Some(held), Some(hash)) => {
                    &&& *final(index) matches Some(now)
                    &&& now.hashes() == held.hashes().push(hash)
                    &&& now.session().dom() == held.session().dom().insert(hash)
                    &&& now.session()[hash]@ == self.accepted().ticket().uuid@
                    &&& forall|k: u64|
                        k != hash && held.session().contains_key(k) ==> #[trigger] now.session()[k]
                            == held.session()[k]
                },
                _ => *final(index) == *old(index),
            },
    {
        let AcceptedImport { ticket, kind, text, phash, similarity, row } = self.accepted;
        if let Some(hash) = phash {
            if let Some(held) = index {
                held.add(hash, ticket.uuid.as_str());
            }
        }
        if let Some(digest) = &row.content_hash {
            session.register(digest, ticket.uuid.as_str());
        }
        let job = match to_media_kind(kind) {
            Some(kind) => Some(
                MediaJob {
                    uuid: ticket.uuid.clone(),
                    source: root.to_owned().concat("/").concat(row.rel_path.as_str()),
                    kind,
                },
            ),
            None => None,
        };
        ledger.finish(ticket.id, CopyState::Done);
        (EnqueueOutcome::Ticket { ticket, similarity }, job)
    }
}

/// The directory of an asset, from the root of the library.
pub fn object_dir(uuid: &str) -> (r: String)
    ensures
        r@ == object_dir_text(uuid@),
        r@ == "objects/"@ + uuid@,
{
    "objects/".to_owned().concat(uuid)
}

/// What was imported in this session is recognised when the same bytes come again, as
/// long as it is live: the second import ends as a duplicate of the first.
pub proof fn same_bytes_again_are_a_duplicate(
    session: &ContentSession,
    digest: Seq<u8>,
    uuid: Seq<char>,
    hashed: ImportRun,
    checked: ImportRun,
)
    requires
        session.uuid_of(digest) == Some(uuid),
        ImportRun::after_digest(session, digest, hashed.phase),
        checked.phase == (Phase::Finished {
            outcome: EnqueueOutcome::Duplicate {
                existing_uuid: hashed.phase->CheckingSession_uuid,
            },
        }),
    ensures
        hashed.phase is CheckingSession,
        checked.phase matches Phase::Finished {
            outcome: EnqueueOutcome::Duplicate { existing_uuid },
        } && existing_uuid@ == uuid,
{
}

/// A text goes into the library up to a size of eight mebibytes.
pub proof fn texts_have_a_limit()
    ensures
        TEXT_IMPORT_MAX_BYTES == 8 * 1024 * 1024,
{
}

/// A step that only changes the phase keeps all that is known of the import.
pub proof fn steps_keep_what_is_known(later: ImportRun, run: ImportRun)
    requires
        later.continues(run),
    ensures
        later.request == run.request,
        later.kind == run.kind,
        later.size == run.size,
        later.text == run.text,
        later.digest == run.digest,
        later.phash == run.phash,
        later.similarity == run.similarity,
{
}

/// Once the digest is known, the asset of this session that has it is looked at first, and the
/// store is asked where there is none.
pub proof fn digests_are_looked_up_in_the_session_first(
    session: &ContentSession,
    digest: Seq<u8>,
    phase: Phase,
)
    requires
        ImportRun::after_digest(session, digest, phase),
    ensures
        session.uuid_of(digest) is Some <==> phase is CheckingSession,
        session.uuid_of(digest) is None <==> phase is QueryingStore,
        phase matches Phase::CheckingSession { uuid } ==> session.uuid_of(digest) == Some(uuid@),
{
}

/// What the row of an import says: the ids and sizes as they are, the category that was asked
/// for or the inbox, the digest, the hash in eight bytes where there is one, and a file under
/// `objects`, in a directory of its own.
pub proof fn rows_say_what_was_imported(
    accepted: &AcceptedImport,
    run: ImportRun,
    created_at: i64,
    imported_at: i64,
)
    requires
        accepted.row_describes(run, created_at, imported_at),
    ensures
        accepted.row().uuid == accepted.ticket().uuid,
        accepted.row().tags == run.request.tags,
        accepted.row().size_bytes == run.size,
        accepted.row().created_at == created_at,
        accepted.row().imported_at == imported_at,
        accepted.row().width is None && accepted.row().height is None,
        accepted.row().category is Some,
        run.request.category matches Some(category) ==> accepted.row().category->0@ == category@,
        run.request.category is None ==> accepted.row().category->0@ == "待分类"@,
        accepted.row().content_hash matches Some(digest) && digest@ == run.digest@,
        accepted.row().phash is Some <==> run.phash is Some,
        run.phash matches Some(hash) ==> accepted.row().phash->0@.len() == 8 && big_endian(
            accepted.row().phash->0@,
        ) == hash,
        crate::text::begins(
            accepted.row().rel_path@,
            "objects/"@ + accepted.ticket().uuid@ + "/raw."@,
        ),
        told(run.request.source@) ==> exists|windows: bool|
            accepted.row().file_name@ == match #[trigger] path_file_name(
                run.request.source@,
                windows,
            ) {
                Some(name) => name,
                None => "unnamed"@,
            },
        told(run.request.source@) ==> exists|windows: bool|
            accepted.row().rel_path@ == "objects/"@ + accepted.ticket().uuid@ + "/raw."@
                + match #[trigger] path_extension(run.request.source@, windows) {
                Some(ext) => lowercased(ext),
                None => "bin"@,
            },
{
    let ext = choose|ext: Option<Seq<char>>|
        accepted.row().rel_path@ == object_dir_text(accepted.row().uuid@) + "/raw."@
            + #[trigger] stored_extension(ext);
    crate::text::beginnings_and_ends(
        accepted.row().rel_path@,
        "objects/"@ + accepted.ticket().uuid@ + "/raw."@,
        stored_extension(ext),
    );
    if told(run.request.source@) {
        let w = choose|w: bool|
            accepted.row().file_name@ == row_name(#[trigger] path_file_name(run.request.source@, w));
        assert(accepted.row().file_name@ == match path_file_name(run.request.source@, w) {
            Some(name) => name,
            None => "unnamed"@,
        });
        let v = choose|v: bool|
            accepted.row().rel_path@ == object_dir_text(accepted.row().uuid@) + "/raw."@
                + stored_extension(#[trigger] path_extension(run.request.source@, v));
        assert(accepted.row().rel_path@ == "objects/"@ + accepted.ticket().uuid@ + "/raw."@
            + match path_extension(run.request.source@, v) {
            Some(ext) => lowercased(ext),
            None => "bin"@,
        });
    }
}

/// A file in the library keeps its name and, in lower case, its extension; without a name it
/// is `unnamed`, without an extension `bin`.
pub proof fn files_keep_name_and_extension(name: Seq<char>, ext: Seq<char>)
    ensures
        row_name(Some(name)) == name,
        row_name(None) == "unnamed"@,
        stored_extension(Some(ext)) == lowercased(ext),
        stored_extension(None) == "bin"@,
        object_dir_text(name) == "objects/"@ + name,
{
}

} // verus!

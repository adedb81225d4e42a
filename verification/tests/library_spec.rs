//! Imports and the trash, on a library whose files and rows are held in memory.

use std::collections::{BTreeMap, VecDeque};
use std::io::Cursor;

use asset_shelf::digest::{sha256_bytes, ContentDigest};
use asset_shelf::domain::AssetKind;
use asset_shelf::import::{
    object_dir, AcceptedImport, AssetMeta, ContentSession, ImportRun, Phase, StoredHash,
    TEXT_IMPORT_MAX_BYTES,
};
use asset_shelf::library::{
    next_batch, piecewise_progress, text_progress, to_media_kind, CopyState, EnqueueOutcome,
    ImportMode, ImportRequest, ImportTicket, Ledger, LibraryConfig, LibraryError, MediaDispatcher,
    MediaKind, PHashIndex, RecordingDispatcher, SimilarityHit, INBOX_CATEGORY, OPEN_CAPACITY,
    SIMILAR_DISTANCE_THRESHOLD,
};
use asset_shelf::phash::{
    decode_for_phash, hash_of_be, hash_window, reliable_phash, AcGrid, SAMPLE_EDGE,
};
use asset_shelf::trash::{
    assets_to_check, move_outcome, newly_trashed, plan_move, plan_repair, plan_repairs,
    plan_restore, trash_dir, MoveRun, MoveStep, Placement, Repair, RestoreStep, RowState,
};
use image::{DynamicImage, ImageFormat};

const SIZE: usize = SAMPLE_EDGE as usize;

fn key(value: f64) -> i64 {
    let bits = (value + 0.0).to_bits() as i64;
    if bits < 0 {
        bits ^ i64::MAX
    } else {
        bits
    }
}

fn cosine(i: usize, k: usize) -> f64 {
    (std::f64::consts::PI * (2 * i + 1) as f64 * k as f64 / (2.0 * SIZE as f64)).cos()
}

fn grid_of(window: &[u8]) -> AcGrid {
    let mut rows = vec![vec![0f64; SIZE]; SIZE];
    for y in 0..SIZE {
        for u in 0..SIZE {
            for x in 0..SIZE {
                rows[y][u] += window[y * SIZE + x] as f64 * cosine(x, u);
            }
        }
    }
    let mut values = Vec::new();
    let mut max_abs = 0f64;
    for v in 0..8 {
        for u in 0..8 {
            if u == 0 && v == 0 {
                continue;
            }
            let mut acc = 0.0;
            for (y, row) in rows.iter().enumerate() {
                acc += row[u] * cosine(y, v);
            }
            values.push(key(acc));
            max_abs = max_abs.max(acc.abs());
        }
    }
    AcGrid { values, max_abs: key(max_abs) }
}

/// A library in memory: `None` among the files stands for a directory.
struct Library {
    files: BTreeMap<String, Option<Vec<u8>>>,
    objects: BTreeMap<String, Vec<u8>>,
    rows: Vec<(AssetMeta, bool)>,
    ledger: Ledger,
    index: Option<PHashIndex>,
    session: ContentSession,
    jobs: RecordingDispatcher,
    paused: bool,
}

impl Library {
    fn open(config: LibraryConfig) -> Library {
        Library {
            files: BTreeMap::new(),
            objects: BTreeMap::new(),
            rows: Vec::new(),
            ledger: Ledger::new(config.capacity),
            index: if config.memory_phash_index { Some(PHashIndex::new()) } else { None },
            session: ContentSession::new(),
            jobs: RecordingDispatcher::new(),
            paused: false,
        }
    }

    fn new() -> Library {
        Library::open(LibraryConfig::with_capacity(16))
    }

    /// The same library in a later session.
    fn reopened(mut self) -> Library {
        let mut index = PHashIndex::new();
        for (row, deleted) in &self.rows {
            if let (Some(hash), false) = (&row.phash, deleted) {
                index.load(hash);
            }
        }
        self.index = self.index.map(|_| index);
        self.session = ContentSession::new();
        self
    }

    fn row(&self, uuid: &str) -> Option<&AssetMeta> {
        self.rows.iter().map(|(row, _)| row).find(|row| row.uuid == uuid)
    }

    fn alive(&self, uuid: &str) -> bool {
        self.rows.iter().any(|(row, deleted)| row.uuid == uuid && !deleted)
    }

    fn digest_owner(&self, digest: &[u8]) -> Option<String> {
        self.rows
            .iter()
            .find(|(row, deleted)| !deleted && row.content_hash.as_deref() == Some(digest))
            .map(|(row, _)| row.uuid.clone())
    }

    fn enqueue(
        &mut self,
        source: &str,
        category: Option<&str>,
        tags: &[&str],
    ) -> Result<EnqueueOutcome, LibraryError> {
        let request = ImportRequest {
            source: source.to_string(),
            category: category.map(str::to_string),
            tags: tags.iter().map(|tag| tag.to_string()).collect(),
        };
        let bytes = self.files.get(source).cloned().flatten();
        let unreadable = || LibraryError::Io("is a directory".to_string());
        let mut run = ImportRun::start(request, &self.ledger);
        loop {
            run = match &run.phase {
                Phase::Sizing => {
                    let len = bytes.as_ref().map_or(4096, |bytes| bytes.len() as u64);
                    run.sized(len)
                }
                Phase::Reading => {
                    run.text_read(bytes.as_ref().ok_or_else(unreadable)?, &self.session)
                }
                Phase::Hashing => {
                    let bytes = bytes.as_ref().ok_or_else(unreadable)?;
                    let mut digest = ContentDigest::new();
                    for piece in bytes.chunks(7) {
                        digest.update(piece);
                    }
                    run.hashed(digest.finish(), &self.session)
                }
                Phase::CheckingSession { uuid } => {
                    let alive = self.alive(uuid);
                    run.session_checked(alive)
                }
                Phase::QueryingStore => {
                    let owner = self.digest_owner(&run.digest);
                    run.store_answered(owner)
                }
                Phase::Decoding => {
                    match decode_for_phash(source, bytes.as_ref().ok_or_else(unreadable)?) {
                        Err(reason) => run.decode_failed(&reason),
                        Ok(picture) => {
                            let grid = grid_of(&hash_window(&picture));
                            run.decoded(reliable_phash(&grid, key(4.0)), &self.index)
                        }
                    }
                }
                Phase::Resolving { hash, .. } => {
                    let uuids: Vec<String> = self
                        .rows
                        .iter()
                        .filter(|(row, deleted)| {
                            !deleted && row.phash.as_deref().and_then(hash_of_be) == Some(*hash)
                        })
                        .map(|(row, _)| row.uuid.clone())
                        .collect();
                    run.resolved(&uuids)
                }
                Phase::Scanning { .. } => {
                    let mut stored = Vec::new();
                    for (row, deleted) in &self.rows {
                        if let (Some(hash), false) =
                            (row.phash.as_deref().and_then(hash_of_be), deleted)
                        {
                            stored.push(StoredHash { uuid: row.uuid.clone(), hash });
                        }
                    }
                    run.scanned(&stored)
                }
                Phase::Accepted => break,
                Phase::Finished { outcome } => return Ok(outcome.clone()),
            };
        }
        let accepted = AcceptedImport::begin(run, 5, 7, &mut self.ledger);
        if self.paused {
            let ticket = ImportTicket { id: accepted.id(), uuid: String::new() };
            return Ok(EnqueueOutcome::Ticket { ticket, similarity: None });
        }
        let written = match accepted.normalized_text() {
            Some(text) => text.clone(),
            None => bytes.unwrap(),
        };
        assert!(accepted.destination().starts_with(&accepted.directory()));
        self.objects.insert(accepted.destination().to_string(), written);
        let id = accepted.id();
        let copied = accepted.copied();
        let row = copied.row();
        self.rows.push((
            AssetMeta {
                uuid: row.uuid.clone(),
                file_name: row.file_name.clone(),
                rel_path: row.rel_path.clone(),
                category: row.category.clone(),
                tags: row.tags.clone(),
                phash: row.phash.clone(),
                content_hash: row.content_hash.clone(),
                ..*row
            },
            false,
        ));
        self.ledger.rows_written(&vec![id]);
        let (outcome, job) =
            copied.committed("lib", &mut self.ledger, &mut self.index, &mut self.session);
        if let Some(job) = job {
            self.jobs.dispatch(job);
        }
        Ok(outcome)
    }

    fn import(&mut self, source: &str) -> (String, Option<SimilarityHit>) {
        match self.enqueue(source, Some("测试"), &[]).expect("import") {
            EnqueueOutcome::Ticket { ticket, similarity } => {
                assert_eq!(self.ledger.terminal_state(&ticket), Some(CopyState::Done));
                (ticket.uuid, similarity)
            }
            other => panic!("{other:?}"),
        }
    }

    fn put(&mut self, path: &str, bytes: Vec<u8>) {
        self.files.insert(path.to_string(), Some(bytes));
    }

    fn place(&self, uuid: &str) -> Placement {
        let holds = |dir: String| {
            let inside = format!("{dir}/");
            self.objects.keys().any(|path| path.starts_with(&inside))
        };
        Placement {
            row: match self.rows.iter().find(|(row, _)| row.uuid == uuid) {
                None => RowState::Missing,
                Some((_, false)) => RowState::Live,
                Some((_, true)) => RowState::Deleted,
            },
            in_objects: holds(object_dir(uuid)),
            in_trash: holds(trash_dir(uuid)),
        }
    }

    fn mark(&mut self, uuid: &str, value: bool) -> bool {
        match self.rows.iter_mut().find(|(row, deleted)| row.uuid == uuid && *deleted != value) {
            Some((_, deleted)) => {
                *deleted = value;
                true
            }
            None => false,
        }
    }

    fn rename(&mut self, from: &str, to: &str) {
        let inside = format!("{from}/");
        let moved: Vec<String> =
            self.objects.keys().filter(|path| path.starts_with(&inside)).cloned().collect();
        for path in moved {
            let bytes = self.objects.remove(&path).unwrap();
            self.objects.insert(format!("{to}/{}", &path[inside.len()..]), bytes);
        }
    }

    fn drop_dir(&mut self, dir: &str) {
        let inside = format!("{dir}/");
        self.objects.retain(|path, _| !path.starts_with(&inside));
    }

    fn move_to_trash(&mut self, uuids: &[&str]) -> Result<usize, LibraryError> {
        let mut run = MoveRun::start(uuids.iter().map(|uuid| uuid.to_string()).collect());
        while let Some(uuid) = run.current().cloned() {
            let newly = self.mark(&uuid, true);
            let place = self.place(&uuid);
            let deleted = place.row == RowState::Deleted;
            let step = plan_move(newly, deleted, place.in_objects, place.in_trash);
            if step == MoveStep::Move {
                self.rename(&object_dir(&uuid), &trash_dir(&uuid));
            }
            if run.asset_settled(step, None) {
                self.mark(&uuid, false);
            }
        }
        run.finish()
    }

    fn restore_from_trash(&mut self, uuids: &[&str]) -> usize {
        let mut done = 0;
        for uuid in uuids {
            let place = self.place(uuid);
            match plan_restore(place.row == RowState::Deleted, place.in_trash) {
                RestoreStep::NotDeleted => continue,
                RestoreStep::Move => self.rename(&trash_dir(uuid), &object_dir(uuid)),
                RestoreStep::UnmarkOnly => {}
            }
            self.mark(uuid, false);
            done += 1;
        }
        done
    }

    fn purge(&mut self, uuids: &[String]) -> usize {
        for uuid in uuids {
            self.rows.retain(|(row, _)| row.uuid != *uuid);
            self.drop_dir(&object_dir(uuid));
            self.drop_dir(&trash_dir(uuid));
        }
        uuids.len()
    }

    fn deleted_uuids(&self) -> Vec<String> {
        self.rows.iter().filter(|(_, deleted)| *deleted).map(|(row, _)| row.uuid.clone()).collect()
    }

    fn reconcile_trash(&mut self) -> usize {
        let mut lying: Vec<String> = Vec::new();
        for path in self.objects.keys() {
            if let Some(rest) = path.strip_prefix("trash/") {
                lying.push(rest.split('/').next().unwrap().to_string());
            }
        }
        let uuids = assets_to_check(&self.deleted_uuids(), &lying);
        let places: Vec<Placement> = uuids.iter().map(|uuid| self.place(uuid)).collect();
        let (plan, fixed) = plan_repairs(&places);
        for (uuid, repair) in uuids.iter().zip(plan) {
            match repair {
                Repair::Nothing => {}
                Repair::MoveToTrash => self.rename(&object_dir(uuid), &trash_dir(uuid)),
                Repair::MoveBack => self.rename(&trash_dir(uuid), &object_dir(uuid)),
                Repair::DropTrashCopy | Repair::DropOrphan => self.drop_dir(&trash_dir(uuid)),
            }
        }
        fixed
    }
}

fn encoded(img: DynamicImage, format: ImageFormat) -> Vec<u8> {
    let mut buf = Cursor::new(Vec::new());
    img.write_to(&mut buf, format).unwrap();
    buf.into_inner()
}

fn gradient_png(gray: u8) -> Vec<u8> {
    let img = image::GrayImage::from_fn(32, 32, |x, y| {
        let v =
            gray.saturating_add((x as u8).saturating_mul(3)).saturating_add(y as u8 / 2);
        image::Luma([v])
    });
    encoded(DynamicImage::ImageLuma8(img), ImageFormat::Png)
}

fn gradient_rgb(gray: u8, format: ImageFormat) -> Vec<u8> {
    let img = image::RgbImage::from_fn(32, 32, |x, y| {
        let v =
            gray.saturating_add((x as u8).saturating_mul(3)).saturating_add(y as u8 / 2);
        image::Rgb([v, v, v])
    });
    encoded(DynamicImage::ImageRgb8(img), format)
}

fn noise_png(gray: u8) -> Vec<u8> {
    let img = image::GrayImage::from_fn(32, 32, |x, y| {
        let mut h = x.wrapping_mul(0x9E3779B9)
            ^ y.wrapping_mul(0x85EBCA6B)
            ^ (gray as u32).wrapping_mul(0xC2B2AE35);
        h ^= h >> 16;
        h = h.wrapping_mul(0x7FEB352D);
        h ^= h >> 15;
        image::Luma([(h >> 24) as u8])
    });
    encoded(DynamicImage::ImageLuma8(img), ImageFormat::Png)
}

fn structured_png(shift: i16) -> Vec<u8> {
    let img = image::GrayImage::from_fn(64, 64, |x, y| {
        let fx = x as f64 / 64.0;
        let fy = y as f64 / 64.0;
        let v = 110.0
            + 40.0 * (std::f64::consts::TAU * 3.0 * fx).sin()
            + 25.0 * (std::f64::consts::TAU * 2.0 * fy).cos()
            + 30.0 * fx
            + shift as f64;
        image::Luma([v.clamp(0.0, 255.0) as u8])
    });
    encoded(DynamicImage::ImageLuma8(img), ImageFormat::Png)
}

fn solid_png(rgb: [u8; 3]) -> Vec<u8> {
    let img = image::RgbImage::from_fn(64, 64, |_x, _y| image::Rgb(rgb));
    encoded(DynamicImage::ImageRgb8(img), ImageFormat::Png)
}

fn stripes_png(horizontal: bool) -> Vec<u8> {
    let img = image::GrayImage::from_fn(64, 64, |x, y| {
        let coord = if horizontal { y } else { x };
        image::Luma([if (coord / 8) % 2 == 0 { 220 } else { 35 }])
    });
    encoded(DynamicImage::ImageLuma8(img), ImageFormat::Png)
}

#[test]
fn source_deleted_after_import_leaves_asset_intact() {
    let mut lib = Library::new();
    lib.put("src.png", structured_png(0));
    let (uuid, _) = lib.import("src.png");
    let copy = lib.row(&uuid).unwrap().rel_path.clone();
    assert_eq!(lib.objects.get(&copy), lib.files["src.png"].as_ref());
    lib.files.remove("src.png");
    assert!(lib.row(&uuid).is_some());
    assert!(lib.objects.contains_key(&copy));
}

#[test]
fn media_job_targets_library_copy_not_source() {
    let mut lib = Library::open(LibraryConfig {
        capacity: 16,
        meta_batch: 128,
        memory_phash_index: true,
    });
    lib.put("src.png", structured_png(0));
    let (uuid, _) = lib.import("src.png");
    let jobs = lib.jobs.jobs();
    assert_eq!(jobs.len(), 1);
    assert_eq!(jobs[0].uuid, uuid);
    assert_eq!(jobs[0].source, format!("lib/{}", lib.row(&uuid).unwrap().rel_path));
    assert!(jobs[0].source.starts_with("lib/objects/"));
}

#[test]
fn unreadable_source_leaves_no_row_and_no_orphan() {
    let mut lib = Library::new();
    lib.put("src.png", structured_png(0));
    match lib.enqueue("src.png", Some("测试"), &[]) {
        Ok(EnqueueOutcome::Ticket { .. }) | Ok(EnqueueOutcome::Duplicate { .. }) => {}
        other => panic!("{other:?}"),
    }
    lib.files.insert("src.png".to_string(), None);
    assert!(lib.enqueue("src.png", Some("测试"), &[]).is_err());
    assert_eq!(lib.rows.len(), 1);
    assert_eq!(lib.objects.len(), 1);
}

#[test]
fn byte_identical_image_reimport_is_exact_duplicate() {
    let mut lib = Library::new();
    lib.put("img.png", structured_png(0));
    let (first, similarity) = lib.import("img.png");
    assert!(similarity.is_none());
    match lib.enqueue("img.png", Some("测试"), &[]).unwrap() {
        EnqueueOutcome::Duplicate { existing_uuid } => assert_eq!(existing_uuid, first),
        other => panic!("{other:?}"),
    }
    assert!(lib.row(&first).unwrap().content_hash.is_some());

    let mut lib = lib.reopened();
    match lib.enqueue("img.png", Some("测试"), &[]).unwrap() {
        EnqueueOutcome::Duplicate { existing_uuid } => assert_eq!(existing_uuid, first),
        other => panic!("{other:?}"),
    }
}

#[test]
fn distinct_flat_color_images_both_import_without_similarity() {
    let mut lib = Library::new();
    lib.put("red.png", solid_png([220, 40, 40]));
    lib.put("blue.png", solid_png([40, 60, 220]));
    let (first, first_sim) = lib.import("red.png");
    let (second, second_sim) = lib.import("blue.png");
    assert_ne!(first, second);
    assert!(first_sim.is_none() && second_sim.is_none());
}

#[test]
fn near_duplicate_image_imports_and_reports_similarity() {
    let mut lib = Library::new();
    lib.put("a.png", structured_png(0));
    lib.put("b.png", structured_png(8));
    let (uuid_a, _) = lib.import("a.png");
    let (uuid_b, similarity) = lib.import("b.png");
    assert_ne!(uuid_a, uuid_b);
    let hit = similarity.expect("a remark");
    assert_eq!(hit.existing_uuid, uuid_a);
    assert!(hit.distance <= SIMILAR_DISTANCE_THRESHOLD);
}

#[test]
fn similarity_is_found_in_later_sessions_and_without_an_index() {
    let mut lib = Library::new();
    lib.put("a.png", structured_png(0));
    lib.put("b.png", structured_png(8));
    let (uuid_a, _) = lib.import("a.png");
    let mut lib = lib.reopened();
    let (_, similarity) = lib.import("b.png");
    assert_eq!(similarity.expect("a remark").existing_uuid, uuid_a);

    let mut lib = Library::open(LibraryConfig { memory_phash_index: false, ..LibraryConfig::fast() });
    lib.put("a.png", structured_png(0));
    lib.put("b.png", structured_png(8));
    lib.put("v.png", stripes_png(true));
    let (uuid_a, _) = lib.import("a.png");
    let (_, similarity) = lib.import("b.png");
    assert_eq!(similarity.expect("a remark").existing_uuid, uuid_a);
    assert!(lib.import("v.png").1.is_none());
}

#[test]
fn unrelated_images_import_without_similarity() {
    let mut lib = Library::new();
    lib.put("h.png", stripes_png(true));
    lib.put("v.png", stripes_png(false));
    let (_, h_sim) = lib.import("h.png");
    let (_, v_sim) = lib.import("v.png");
    assert!(h_sim.is_none() && v_sim.is_none());
}

#[test]
fn tiny_image_import_does_not_panic_and_stores_asset() {
    let mut lib = Library::new();
    let img = image::RgbaImage::from_pixel(1, 1, image::Rgba([255u8, 0, 0, 255]));
    lib.put("tiny.png", encoded(DynamicImage::ImageRgba8(img), ImageFormat::Png));
    let (uuid, similarity) = lib.import("tiny.png");
    assert!(lib.row(&uuid).is_some());
    assert!(similarity.is_none());
}

#[test]
fn import_copies_file_into_library_layout() {
    let mut lib = Library::new();
    lib.put("photo.png", gradient_png(90));
    let outcome = lib.enqueue("photo.png", Some("产品图"), &["红"]).unwrap();
    let EnqueueOutcome::Ticket { ticket, .. } = outcome else {
        panic!("refused");
    };
    assert_eq!(lib.ledger.state_of(&ticket), Some(CopyState::Done));
    let meta = lib.row(&ticket.uuid).unwrap();
    assert_eq!(meta.category.as_deref(), Some("产品图"));
    assert_eq!(meta.file_name, "photo.png");
    assert!(meta.phash.is_some());
    assert_eq!(meta.rel_path, format!("objects/{}/raw.png", ticket.uuid));
    assert!(lib.objects.contains_key(&meta.rel_path));
    assert_eq!(meta.tags, vec!["红"]);
    assert_eq!((meta.created_at, meta.imported_at), (5, 7));
}

#[test]
fn duplicate_byte_identical_image_rejected_no_second_copy() {
    let mut lib = Library::new();
    lib.put("same.png", gradient_png(120));
    let (first, _) = lib.import("same.png");
    match lib.enqueue("same.png", None, &[]).unwrap() {
        EnqueueOutcome::Duplicate { existing_uuid } => assert_eq!(existing_uuid, first),
        other => panic!("{other:?}"),
    }
    assert_eq!(lib.objects.len(), 1);
    assert_eq!(lib.rows.len(), 1);
}

#[test]
fn copy_queue_respects_backpressure_cap() {
    let mut lib = Library::open(LibraryConfig::with_capacity(1));
    lib.paused = true;
    lib.put("bp0.png", gradient_png(60));
    lib.put("bp1.png", gradient_png(61));
    let outcome = lib.enqueue("bp0.png", None, &[]).unwrap();
    assert!(matches!(outcome, EnqueueOutcome::Ticket { .. }));
    let EnqueueOutcome::Ticket { ticket, .. } = outcome else {
        panic!("refused");
    };
    assert_eq!(lib.enqueue("bp1.png", None, &[]).unwrap(), EnqueueOutcome::Backpressure);
    lib.ledger.rows_written(&vec![ticket.id]);
    lib.ledger.finish(ticket.id, CopyState::Done);
    assert!(matches!(
        lib.enqueue("bp1.png", None, &[]).unwrap(),
        EnqueueOutcome::Ticket { .. }
    ));
}

#[test]
fn manual_category_and_inbox_fallback() {
    let mut lib = Library::new();
    lib.put("manual.png", gradient_png(30));
    lib.put("inbox.png", gradient_png(31));
    lib.enqueue("manual.png", Some("表情包"), &[]).unwrap();
    lib.enqueue("inbox.png", None, &[]).unwrap();
    assert_eq!(lib.rows[0].0.category, Some("表情包".to_string()));
    assert_eq!(lib.rows[1].0.category, Some(INBOX_CATEGORY.to_string()));
}

#[test]
fn misnamed_png_with_jpg_extension_imports_via_content_sniffing() {
    let img = image::GrayImage::from_fn(32, 32, |x, y| {
        image::Luma([(64 + x * 2 + y / 2).min(255) as u8])
    });
    let mut lib = Library::new();
    lib.put("伪装图.jpg", encoded(DynamicImage::ImageLuma8(img), ImageFormat::Png));
    let (uuid, _) = lib.import("伪装图.jpg");
    assert!(lib.row(&uuid).unwrap().phash.is_some());
}

#[test]
fn undecodable_image_is_rejected_without_touching_library() {
    let mut lib = Library::new();
    lib.put("broken.jpg", b"\x00not-an-image-payload\xff".to_vec());
    match lib.enqueue("broken.jpg", None, &[]).unwrap() {
        EnqueueOutcome::Unsupported { reason } => {
            assert!(!reason.is_empty());
            assert!(reason.starts_with("图片解码失败：Format error decoding Jpeg"), "{reason}");
        }
        other => panic!("{other:?}"),
    }
    assert_eq!(lib.rows.len(), 0);
    assert_eq!(lib.objects.len(), 0);
}

#[test]
fn registry_image_formats_webp_gif_bmp_are_decodable() {
    let mut lib = Library::new();
    for (name, gray, format) in [
        ("pic.webp", 40u8, ImageFormat::WebP),
        ("ani.gif", 150, ImageFormat::Gif),
        ("icon.bmp", 220, ImageFormat::Bmp),
    ] {
        lib.put(name, gradient_rgb(gray, format));
        let (uuid, _) = lib.import(name);
        assert!(lib.row(&uuid).unwrap().phash.is_some(), "{name}");
    }
    assert_eq!(lib.rows.len(), 3);
}

#[test]
fn pictures_are_decoded_to_grey() {
    let img = image::GrayImage::from_fn(3, 2, |x, y| image::Luma([(10 * y + x) as u8]));
    let bytes = encoded(DynamicImage::ImageLuma8(img), ImageFormat::Png);
    for path in ["a.png", "a.jpg", "a.unknown", "a"] {
        let picture = decode_for_phash(path, &bytes).unwrap();
        assert_eq!((picture.width, picture.height), (3, 2));
        assert_eq!(picture.pixels, vec![0, 1, 2, 10, 11, 12]);
    }
    assert!(decode_for_phash("a.png", b"none").is_err());
    assert!(decode_for_phash("a", b"none").is_err());
}

#[test]
fn content_tells_the_format_before_the_extension_does() {
    let refused = |path: &str, bytes: &[u8]| decode_for_phash(path, bytes).unwrap_err();
    assert!(refused("a.png", b"none").contains("Png"));
    assert!(refused("a.JPEG", b"none").contains("Jpeg"));
    assert!(refused("a.png", b"II*\0").contains("Tiff"));
    assert!(refused("a.png", b"\0\0\x01\0ftypavif").contains("Ico"));
    assert!(refused("a.png", b"\0\0\x02\0ftypavif").contains("Avif"));
    assert!(refused("a.png", b"P7").contains("Pnm"));
    assert!(refused("a.png", b"P8 none").contains("Png"));
    assert!(refused("a.bmp", b"GIF87a").contains("Gif"));
    let undetermined = "The image format could not be determined";
    assert_eq!(refused("a", b"none"), undetermined);
    assert_eq!(refused("a.txt", b"none"), undetermined);
    for (name, format) in [
        ("a.webp", ImageFormat::WebP),
        ("a.gif", ImageFormat::Gif),
        ("a.bmp", ImageFormat::Bmp),
        ("a.jpg", ImageFormat::Jpeg),
    ] {
        let img = image::RgbImage::from_fn(5, 4, |x, y| image::Rgb([x as u8, y as u8, 7]));
        let bytes = encoded(DynamicImage::ImageRgb8(img), format);
        for path in [name, "a.png", "a"] {
            let picture = decode_for_phash(path, &bytes).unwrap();
            assert_eq!((picture.width, picture.height), (5, 4), "{name}");
            assert_eq!(picture.pixels.len(), 20, "{name}");
        }
    }
}

#[test]
fn video_import_dispatches_media_job() {
    let mut lib = Library::new();
    lib.put("clip.mp4", b"\x00\x00\x00\x18ftypmp42".to_vec());
    let (uuid, _) = lib.import("clip.mp4");
    let jobs = lib.jobs.jobs();
    assert_eq!(jobs.len(), 1);
    assert_eq!(jobs[0].uuid, uuid);
    assert_eq!(jobs[0].kind, MediaKind::Video);
}

#[test]
fn video_content_hash_dedups_identical_and_keeps_different() {
    let mut lib = Library::new();
    let payload = b"\x00\x00\x00\x18ftypmp42same-video-payload".to_vec();
    let mut other_payload = payload.clone();
    other_payload[20] ^= 0xFF;
    lib.put("a1.mp4", payload.clone());
    lib.put("a2.mp4", payload);
    lib.put("b.mp4", other_payload);
    let (first, _) = lib.import("a1.mp4");
    match lib.enqueue("a2.mp4", None, &[]).unwrap() {
        EnqueueOutcome::Duplicate { existing_uuid } => assert_eq!(existing_uuid, first),
        other => panic!("{other:?}"),
    }
    lib.import("b.mp4");
    let meta = lib.row(&first).unwrap();
    assert!(meta.phash.is_none());
    assert_eq!(meta.content_hash.as_deref().map(<[u8]>::len), Some(32));
    assert_eq!(lib.rows.len(), 2);
    assert_eq!(lib.objects.len(), 2);
}

#[test]
fn text_content_hash_dedups_after_utf8_normalization() {
    let mut lib = Library::new();
    let gbk = vec![0xC4u8, 0xE3, 0xBA, 0xC3, 0x2E, 0x74, 0x78, 0x74];
    lib.put("t1.txt", gbk.clone());
    lib.put("t2.txt", gbk);
    let (first, _) = lib.import("t1.txt");
    match lib.enqueue("t2.txt", None, &[]).unwrap() {
        EnqueueOutcome::Duplicate { existing_uuid } => assert_eq!(existing_uuid, first),
        other => panic!("{other:?}"),
    }
    assert_eq!(lib.rows.len(), 1);
    let row = lib.row(&first).unwrap();
    assert_eq!(row.size_bytes, "你好.txt".len() as i64);
    assert_eq!(lib.objects[&row.rel_path], "你好.txt".as_bytes());
}

#[test]
fn texts_that_are_too_large_are_refused() {
    let ledger = Ledger::new(1);
    let request = |source: &str| ImportRequest {
        source: source.to_string(),
        category: None,
        tags: vec![],
    };
    let run = ImportRun::start(request("a.txt"), &ledger).sized(TEXT_IMPORT_MAX_BYTES + 1);
    match run.phase {
        Phase::Finished { outcome: EnqueueOutcome::Unsupported { reason } } => {
            assert_eq!(reason, "文本素材超过 8MB，暂不支持导入")
        }
        _ => panic!("goes on"),
    }
    let run = ImportRun::start(request("a.txt"), &ledger).sized(TEXT_IMPORT_MAX_BYTES);
    assert!(matches!(run.phase, Phase::Reading));
    let run = ImportRun::start(request("a.mp4"), &ledger).sized(TEXT_IMPORT_MAX_BYTES + 1);
    assert!(matches!(run.phase, Phase::Hashing));
}

#[test]
fn files_without_name_or_kind_get_plain_ones() {
    let mut lib = Library::new();
    lib.put("dir/readme", b"x".to_vec());
    let (uuid, _) = lib.import("dir/readme");
    let row = lib.row(&uuid).unwrap();
    assert_eq!(row.rel_path, format!("objects/{uuid}/raw.bin"));
    assert_eq!(row.file_name, "readme");
    assert!(lib.jobs.jobs().is_empty());
    assert_eq!(to_media_kind(AssetKind::Other), None);
    lib.put("A.MP4", b"y".to_vec());
    let (uuid, _) = lib.import("A.MP4");
    assert_eq!(lib.row(&uuid).unwrap().rel_path, format!("objects/{uuid}/raw.mp4"));
}

#[test]
fn failed_imports_free_their_place() {
    let mut ledger = Ledger::new(2);
    let accepted = |ledger: &mut Ledger| {
        let request =
            ImportRequest { source: "a.mp4".to_string(), category: None, tags: vec![] };
        let run = ImportRun::start(request, ledger)
            .sized(3)
            .hashed(sha256_bytes(b"abc"), &ContentSession::new())
            .store_answered(None);
        AcceptedImport::begin(run, 0, 0, ledger)
    };
    let first = accepted(&mut ledger);
    let second = accepted(&mut ledger);
    assert_eq!((first.id(), second.id()), (1, 2));
    assert!(ledger.saturated());
    let error = first.copy_failed("disk full", &mut ledger);
    assert_eq!(error, LibraryError::Io("disk full".to_string()));
    assert!(!ledger.saturated());
    let ticket = ImportTicket { id: 1, uuid: String::new() };
    assert_eq!(ledger.state_of(&ticket), Some(CopyState::Failed("disk full".to_string())));
    let error = second.copied().commit_timed_out(&mut ledger);
    assert_eq!(error, LibraryError::MetaTimeout("2".to_string()));
    assert_eq!(error.message(), "元数据落库等待超时（票 2）");
    assert_eq!(ledger.state_of(&ImportTicket { id: 3, uuid: String::new() }), None);
}

#[test]
fn ledgers_note_progress_and_rows() {
    let mut ledger = Ledger::new(4);
    assert_eq!(ledger.next_ticket(), 1);
    let id = ledger.begin();
    let ticket = ImportTicket { id, uuid: "u".to_string() };
    assert_eq!(ledger.state_of(&ticket), Some(CopyState::Pending));
    ledger.progress(id, piecewise_progress(9, 5), 5);
    assert_eq!(ledger.state_of(&ticket), Some(CopyState::Copying { copied: 5, total: 5 }));
    assert_eq!(ledger.terminal_state(&ticket), None);
    assert!(!ledger.is_ready(id));
    ledger.rows_written(&vec![id]);
    assert!(ledger.is_ready(id));
    ledger.row_refused(id, "bad");
    assert_eq!(
        ledger.terminal_state(&ticket),
        Some(CopyState::Failed("元数据落库失败：bad".to_string()))
    );
    let other = ledger.begin();
    let third = ledger.begin();
    ledger.rows_settled(&vec![other, third], &vec![Some("worse".to_string()), None]);
    assert!(!ledger.is_ready(other) && ledger.is_ready(third));
    assert_eq!(
        ledger.state_of(&ImportTicket { id: other, uuid: String::new() }),
        Some(CopyState::Failed("元数据落库失败：worse".to_string()))
    );
    assert_eq!(
        ledger.state_of(&ImportTicket { id: third, uuid: String::new() }),
        Some(CopyState::Pending)
    );
    assert_eq!(ledger.capacity(), 4);
    assert_eq!(text_progress(3, 5), 5);
    assert_eq!(text_progress(5, 3), 5);
}

#[test]
fn rows_are_written_in_batches() {
    let mut queue: VecDeque<u32> = VecDeque::new();
    for i in 0..5 {
        queue.push_back(i);
    }
    assert_eq!(next_batch(&mut queue, 2), vec![0, 1]);
    assert_eq!(next_batch(&mut queue, 0), vec![2]);
    assert_eq!(next_batch(&mut queue, 9), vec![3, 4]);
    assert!(next_batch(&mut queue, 9).is_empty());
    assert_eq!(LibraryConfig::for_mode(ImportMode::Fast).batch_limit(), 256);
    assert_eq!(LibraryConfig::for_mode(ImportMode::Background), LibraryConfig::background());
    assert_eq!(
        LibraryConfig { meta_batch: 0, ..LibraryConfig::background() }.batch_limit(),
        usize::MAX
    );
    let direct = LibraryConfig { meta_batch: usize::MAX, ..LibraryConfig::background() };
    assert!(direct.writes_directly() && !LibraryConfig::background().writes_directly());
}

#[test]
fn hash_index_finds_the_nearest_and_forgets() {
    let mut index = PHashIndex::new();
    index.load(&[0, 0, 0, 0, 0, 0, 0, 0xFF]);
    index.load(&[1, 2, 3]);
    assert_eq!(index.nearest_within(0xFE, 12), Some((0xFF, 1)));
    assert_eq!(index.session_uuid(0xFF), None);
    index.add(0xF0, "a");
    assert_eq!(index.nearest_within(0xF0, 12), Some((0xF0, 0)));
    assert_eq!(index.session_uuid(0xF0).as_deref(), Some("a"));
    index.remove_hash(0xF0);
    assert_eq!(index.session_uuid(0xF0), None);
    assert_eq!(index.nearest_within(0xF0, 3), None);
    index.remember(0xF0, "b");
    index.remember(0xF0, "c");
    assert_eq!(index.session_uuid(0xF0).as_deref(), Some("b"));
}

#[test]
fn digests_and_ids_have_their_shape() {
    let hex: String = sha256_bytes(b"abc").iter().map(|byte| format!("{byte:02x}")).collect();
    assert_eq!(hex, "ba7816bf8f01cfea414140de5dae2223b00361a396177a9cb410ff61f20015ad");
    let mut digest = ContentDigest::new();
    digest.update(b"a");
    digest.update(b"bc");
    assert_eq!(digest.finish(), sha256_bytes(b"abc"));

    let mut lib = Library::new();
    lib.put("a.mp4", b"a".to_vec());
    lib.put("b.mp4", b"b".to_vec());
    let (first, _) = lib.import("a.mp4");
    let (second, _) = lib.import("b.mp4");
    assert_ne!(first, second);
    for uuid in [first, second] {
        assert_eq!(uuid.len(), 36);
        for (i, c) in uuid.chars().enumerate() {
            match i {
                8 | 13 | 18 | 23 => assert_eq!(c, '-'),
                14 => assert_eq!(c, '4'),
                19 => assert!("89ab".contains(c)),
                _ => assert!(c.is_ascii_hexdigit() && !c.is_ascii_uppercase()),
            }
        }
    }
}

#[test]
fn errors_are_put_in_words() {
    let text = |error: LibraryError| error.message();
    assert_eq!(text(LibraryError::Store("x".to_string())), "存储错误: x");
    assert_eq!(text(LibraryError::Io("x".to_string())), "IO 错误: x");
    assert_eq!(text(LibraryError::Image("x".to_string())), "图像解码错误: x");
    let trash = LibraryError::Trash { uuid: "u".to_string(), reason: "x".to_string() };
    assert_eq!(text(trash), "回收站操作失败（u）: x");
}

#[test]
fn move_to_trash_relocates_objects_dir_and_marks() {
    let mut lib = Library::new();
    lib.put("a.png", noise_png(80));
    let (uuid, _) = lib.import("a.png");
    assert_eq!(lib.move_to_trash(&[&uuid]).unwrap(), 1);
    assert!(!lib.place(&uuid).in_objects);
    assert!(lib.objects.contains_key(&format!("trash/{uuid}/raw.png")));
    assert_eq!(lib.place(&uuid).row, RowState::Deleted);
    assert_eq!(lib.move_to_trash(&[&uuid]).unwrap(), 1);
    assert!(lib.place(&uuid).in_trash);
    assert_eq!(lib.move_to_trash(&["nobody"]).unwrap(), 0);
}

#[test]
fn restore_returns_object_dir_and_clears_flag() {
    let mut lib = Library::new();
    lib.put("b.png", noise_png(90));
    let (uuid, _) = lib.import("b.png");
    lib.move_to_trash(&[&uuid]).unwrap();
    assert_eq!(lib.restore_from_trash(&[&uuid]), 1);
    assert!(lib.objects.contains_key(&format!("objects/{uuid}/raw.png")));
    assert!(!lib.place(&uuid).in_trash);
    assert_eq!(lib.place(&uuid).row, RowState::Live);
    assert_eq!(lib.restore_from_trash(&[&uuid]), 0);
}

#[test]
fn deleted_assets_are_no_duplicates() {
    let mut lib = Library::new();
    lib.put("c.png", noise_png(100));
    let (first, _) = lib.import("c.png");
    lib.move_to_trash(&[&first]).unwrap();
    assert_eq!(lib.purge(&[first.clone()]), 1);
    assert!(lib.row(&first).is_none());
    assert!(!lib.place(&first).in_trash);

    let (u1, _) = lib.import("c.png");
    lib.put("d.png", noise_png(200));
    let (u2, _) = lib.import("d.png");
    lib.move_to_trash(&[&u1, &u2]).unwrap();
    assert_eq!(lib.deleted_uuids().len(), 2);
    let all = lib.deleted_uuids();
    assert_eq!(lib.purge(&all), 2);
    assert!(lib.deleted_uuids().is_empty());
    assert!(!lib.place(&u1).in_trash && !lib.place(&u2).in_trash);
}

#[test]
fn coexisting_dirs_rejected_and_flag_rolled_back() {
    let mut lib = Library::new();
    lib.put("e.png", noise_png(120));
    let (uuid, _) = lib.import("e.png");
    lib.objects.insert(format!("trash/{uuid}/raw.png"), vec![]);
    let err = lib.move_to_trash(&[&uuid]).unwrap_err();
    assert!(matches!(err, LibraryError::Trash { .. }));
    assert_eq!(lib.place(&uuid).row, RowState::Live);
    assert!(lib.place(&uuid).in_objects);
}

#[test]
fn one_failed_deletion_leaves_the_others_alone() {
    let mut lib = Library::new();
    let mut uuids = Vec::new();
    for (name, gray) in [("g.png", 90), ("h.png", 140), ("i.png", 200)] {
        lib.put(name, noise_png(gray));
        uuids.push(lib.import(name).0);
    }
    lib.objects.insert(format!("trash/{}/raw.png", uuids[1]), vec![]);
    let before = lib.place(&uuids[1]);
    let named: Vec<&str> = uuids.iter().map(String::as_str).collect();
    assert_eq!(lib.move_to_trash(&named), Ok(2));
    assert_eq!(lib.place(&uuids[1]), before);
    for uuid in [&uuids[0], &uuids[2]] {
        let place = lib.place(uuid);
        assert_eq!(place.row, RowState::Deleted);
        assert!(place.in_trash && !place.in_objects);
    }
}

#[test]
fn a_run_of_deletions_goes_on_after_failures() {
    let uuids = ["a", "b", "c", "d", "e", "f"].map(String::from).to_vec();
    let mut run = MoveRun::start(uuids);
    assert_eq!(run.current().map(String::as_str), Some("a"));
    assert!(run.asset_settled(MoveStep::Move, Some("busy")));
    assert!(run.asset_settled(MoveStep::Refuse, None));
    assert!(!run.asset_settled(MoveStep::Absent, None));
    assert!(!run.asset_settled(MoveStep::Already, None));
    run.asset_unknown(LibraryError::Store("locked".to_string()));
    assert_eq!(run.current().map(String::as_str), Some("f"));
    assert!(!run.asset_settled(MoveStep::Move, None));
    run.noted(LibraryError::Store("late".to_string()));
    assert_eq!(run.current(), None);
    let trash = |uuid: &str, reason: &str| LibraryError::Trash {
        uuid: uuid.to_string(),
        reason: reason.to_string(),
    };
    assert_eq!(
        run.failed(),
        &vec![
            trash("a", "busy"),
            trash("b", "objects 与 trash 同时存在，需启动对账"),
            LibraryError::Store("locked".to_string()),
            LibraryError::Store("late".to_string()),
        ]
    );
    assert_eq!(run.finish(), Ok(2));
    let mut run = MoveRun::start(vec!["a".to_string()]);
    assert!(run.asset_settled(MoveStep::Move, Some("busy")));
    assert_eq!(run.finish(), Err(trash("a", "busy")));
    assert_eq!(MoveRun::start(vec![]).finish(), Ok(0));
    assert!(newly_trashed(MoveStep::MarkOnly, false) && newly_trashed(MoveStep::Move, false));
    assert!(!newly_trashed(MoveStep::Move, true) && !newly_trashed(MoveStep::Already, false));
}

#[test]
fn removing_a_hash_puts_the_last_one_in_its_place() {
    let mut index = PHashIndex::new();
    for (hash, uuid) in [(0b1u64, "a"), (0b10, "b"), (0b1, "c"), (0b100, "d")] {
        index.add(hash, uuid);
    }
    assert_eq!(index.nearest_within(0, 12), Some((0b1, 1)));
    index.remove_hash(0b1);
    assert_eq!(index.nearest_within(0, 12), Some((0b100, 1)));
    assert_eq!(index.nearest_within(0b1, 0), Some((0b1, 0)));
    assert_eq!(index.session_uuid(0b1), None);
    index.remove_hash(0b1000);
    assert_eq!(index.nearest_within(0, 12), Some((0b100, 1)));
    assert_eq!(LibraryConfig::with_capacity(OPEN_CAPACITY).capacity, 16);
}

#[test]
fn directories_that_cannot_be_moved_are_told() {
    assert_eq!(
        move_outcome(MoveStep::Move, "u", Some("busy")),
        Err(LibraryError::Trash { uuid: "u".to_string(), reason: "busy".to_string() })
    );
    assert_eq!(plan_move(true, true, false, false), MoveStep::MarkOnly);
    assert_eq!(plan_restore(true, false), RestoreStep::UnmarkOnly);
    let both = Placement { row: RowState::Live, in_objects: true, in_trash: true };
    assert_eq!(plan_repair(both), Repair::DropTrashCopy);
    assert_eq!(plan_repair(Placement { row: RowState::Deleted, ..both }), Repair::Nothing);
}

#[test]
fn reconcile_fixes_crash_drift_both_directions() {
    let mut lib = Library::new();
    lib.put("f.png", noise_png(130));
    let (uuid, _) = lib.import("f.png");
    lib.mark(&uuid, true);
    assert_eq!(lib.reconcile_trash(), 1);
    assert_eq!(lib.reconcile_trash(), 0);
    assert!(!lib.place(&uuid).in_objects);
    assert!(lib.objects.contains_key(&format!("trash/{uuid}/raw.png")));

    lib.restore_from_trash(&[&uuid]);
    lib.move_to_trash(&[&uuid]).unwrap();
    lib.mark(&uuid, false);
    assert!(lib.place(&uuid).in_trash);
    assert_eq!(lib.reconcile_trash(), 1);
    assert!(lib.objects.contains_key(&format!("objects/{uuid}/raw.png")));
    assert!(!lib.place(&uuid).in_trash);

    lib.objects.insert("trash/orphan-uuid/raw.png".to_string(), vec![]);
    assert_eq!(lib.reconcile_trash(), 1);
    assert!(!lib.place("orphan-uuid").in_trash);
}

//! Updating the application from within: which download comes next, when it is given up,
//! and when the installer may be started.
//!
//! The installer can come from several places. They are tried one after another, the
//! fastest first. What was downloaded is started only if its digest is the one that the list
//! of checksums gives for it.

use vstd::prelude::*;

use crate::digits::{decimal, push_number, push_text};
use crate::fields::{join, joined, texts};
use crate::order::{sorted_positions, Ranked};
#[allow(unused_imports)]
use crate::order::{before, in_order};
use crate::text::string_of;

verus! {

/// How long probing a place may take.
pub const PROBE_TIMEOUT_MS: u64 = 8_000;

/// How many bytes a probe asks for.
pub const PROBE_SAMPLE_BYTES: u32 = 65_536;

/// How long the list of checksums may take to come from where it belongs.
pub const SUMS_ANCHOR_TIMEOUT_MS: u64 = 10_000;

/// How often progress is shown.
pub const PROGRESS_MIN_INTERVAL_MS: u64 = 100;

/// The name under which the installer is downloaded. It is always the same, so that old ones
/// do not pile up.
pub const INSTALLER_FILE: &'static str = "assetdeck-installer-update.exe";

/// Whether progress is shown now: at the end, and else not too often.
pub fn shows_progress(received: u64, total: u64, since_last_ms: u64) -> (r: bool)
    ensures
        r == (received == total || since_last_ms >= PROGRESS_MIN_INTERVAL_MS),
        r == (received == total || since_last_ms >= 100),
{
    received == total || since_last_ms >= PROGRESS_MIN_INTERVAL_MS
}

/// Whether it is time to look for an update without being asked.
pub fn check_is_due(last_check_unix: u64, interval_secs: u64, now: u64, enabled: bool) -> (r: bool)
    ensures
        r == (enabled && last_check_unix + interval_secs <= now || enabled && now == u64::MAX),
{
    last_check_unix.saturating_add(interval_secs) <= now && enabled
}

/// What comes of a look for an update.
#[derive(Debug, Clone, PartialEq, Eq)]
pub struct CheckEnd {
    /// What goes to the log.
    pub warning: Option<String>,
    /// When updates were last looked for.
    pub last_check_unix: u64,
    /// Whether the user is shown the update.
    pub open_dialog: bool,
}

/// Ends a look for an update. That there was one is noted whether it went well or not. One
/// that nobody asked for leaves its failure in the log.
pub fn end_check(failure: Option<&str>, silent: bool, started_unix: u64, asks_user: bool) -> (r:
    CheckEnd)
    ensures
        match failure {
            Some(message) => if silent {
                r.warning matches Some(warning) && warning@ == "静默检查更新失败: "@ + message@
            } else {
                r.warning is None
            },
            None => r.warning is None,
        },
        r.last_check_unix == started_unix,
        r.open_dialog == asks_user,
{
    let warning = match failure {
        Some(message) if silent => Some("静默检查更新失败: ".to_owned().concat(message)),
        _ => None,
    };
    CheckEnd { warning, last_check_unix: started_unix, open_dialog: asks_user }
}

/// Whether an update can begin.
#[derive(Debug, Clone, PartialEq, Eq)]
pub enum InstallStart {
    /// Nothing happens.
    Ignored,
    /// The user is told why not.
    Refused { notice: String },
    /// The update fails at once.
    Failed { message: String },
    Begin,
}

impl InstallStart {
    pub open spec fn refused_because(self, why: Seq<char>) -> bool {
        self matches InstallStart::Refused { notice } && notice@ == why
    }

    pub open spec fn failed_because(self, why: Seq<char>) -> bool {
        self matches InstallStart::Failed { message } && message@ == why
    }
}

/// Whether an update can begin: not while another one does, nor while assets come in, and
/// only with a release that has an installer and a list of checksums.
pub fn plan_install(
    busy: bool,
    importing: bool,
    has_release: bool,
    has_installer: bool,
    has_sums: bool,
    has_exe_dir: bool,
) -> (r: InstallStart)
    ensures
        if busy {
            r is Ignored
        } else if importing {
            r.refused_because("素材导入进行中，导入完成后再更新"@)
        } else if !has_release {
            r is Ignored
        } else if !has_installer {
            r.failed_because("发布清单缺少安装包，无法应用内更新"@)
        } else if !has_sums {
            r.failed_because("发布清单缺少校验和清单（SHA256SUMS.txt）"@)
        } else if !has_exe_dir {
            r is Ignored
        } else {
            r is Begin
        },
{
    if busy {
        InstallStart::Ignored
    } else if importing {
        InstallStart::Refused { notice: "素材导入进行中，导入完成后再更新".to_owned() }
    } else if !has_release {
        InstallStart::Ignored
    } else if !has_installer {
        InstallStart::Failed { message: "发布清单缺少安装包，无法应用内更新".to_owned() }
    } else if !has_sums {
        InstallStart::Failed { message: "发布清单缺少校验和清单（SHA256SUMS.txt）".to_owned() }
    } else if !has_exe_dir {
        InstallStart::Ignored
    } else {
        InstallStart::Begin
    }
}

/// A place from which the installer can be had.
#[derive(Debug, Clone, PartialEq, Eq)]
pub struct Source {
    /// Where the installer is.
    pub url: String,
    /// Where the list of checksums is.
    pub sums_url: String,
    /// How the user knows the place.
    pub label: String,
}

/// Why no installer was had.
#[derive(Debug, Clone, Copy, PartialEq, Eq, Structural)]
pub enum StopReason {
    Cancelled,
    /// The list of checksums does not name the installer. No other place would help.
    NoChecksum,
    /// The digest of the download could not be computed.
    NoDigest,
    /// Every place failed.
    AllFailed,
}

/// What to do next.
#[derive(Debug, Clone, PartialEq, Eq)]
pub enum UpdateStage {
    /// Choose in which order the places are tried. Where there are several, each is probed
    /// and the list of checksums is fetched from where the release itself has it.
    Choosing { sums_url: String },
    FetchingSums { source: usize },
    /// Look the installer up in the list of checksums.
    LookingUp,
    Downloading { source: usize },
    /// Compare the digest of the download with the checksum.
    Checking { source: usize },
    /// The installer may be started.
    Verified { source: usize },
    Stopped { reason: StopReason, message: String },
}

/// An update on its way.
pub struct UpdateRun {
    sources: Vec<Source>,
    anchor: String,
    order: Vec<usize>,
    turn: usize,
    sums: Option<String>,
    expected: Option<String>,
    attempts: Vec<String>,
    checked: bool,
    stage: UpdateStage,
}

/// A place that answered in `a` milliseconds is at least as quick as one that did in `b`; one
/// that did not answer is slower than any that did.
pub open spec fn as_quick(a: Option<u64>, b: Option<u64>) -> bool {
    match (a, b) {
        (Some(x), Some(y)) => x <= y,
        (_, None) => true,
        (None, Some(_)) => false,
    }
}

struct Answers<'a> {
    times: &'a Vec<Option<u64>>,
}

impl<'a> Ranked for Answers<'a> {
    closed spec fn count(&self) -> nat {
        self.times@.len()
    }

    closed spec fn le(&self, i: int, j: int) -> bool {
        as_quick(self.times@[i], self.times@[j])
    }

    proof fn total(&self, i: int, j: int) {
    }

    proof fn transitive(&self, i: int, j: int, k: int) {
    }

    fn leq(&self, i: usize, j: usize) -> (r: bool) {
        match (self.times[i], self.times[j]) {
            (Some(x), Some(y)) => x <= y,
            (_, None) => true,
            (None, Some(_)) => false,
        }
    }
}

/// The order in which places are tried that answered in the given times: the quickest first,
/// and places that are alike as they were given. One that did not answer is not left out.
pub fn rank_by_probe(times: &Vec<Option<u64>>) -> (r: Vec<usize>)
    ensures
        r@.len() == times@.len(),
        forall|i: int| 0 <= i < r@.len() ==> #[trigger] r@[i] < times@.len(),
        forall|k: usize| k < times@.len() ==> #[trigger] r@.contains(k),
        forall|a: int, b: int|
            0 <= a < b < r@.len() ==> {
                let first = times@[#[trigger] r@[a] as int];
                let second = times@[#[trigger] r@[b] as int];
                &&& as_quick(first, second)
                &&& as_quick(second, first) ==> r@[a] < r@[b]
            },
        forall|a: int, b: int|
            0 <= a < b < r@.len() ==> match (
                times@[#[trigger] r@[a] as int],
                times@[#[trigger] r@[b] as int],
            ) {
                (Some(x), Some(y)) => x < y || (x == y && r@[a] < r@[b]),
                (Some(_), None) => true,
                (None, Some(_)) => false,
                (None, None) => r@[a] < r@[b],
            },
{
    let answers = Answers { times };
    let order = sorted_positions(&answers, times.len());
    proof {
        assert forall|a: int, b: int| 0 <= a < b < order@.len() implies {
            let first = times@[#[trigger] order@[a] as int];
            let second = times@[#[trigger] order@[b] as int];
            &&& as_quick(first, second)
            &&& as_quick(second, first) ==> order@[a] < order@[b]
        } by {
            assert(before(&answers, order@[a] as int, order@[b] as int));
        }
    }
    order
}

/// What is said of a place whose list of checksums could not be had.
pub open spec fn sums_attempt(label: Seq<char>, error: Seq<char>) -> Seq<char> {
    label + ": 清单获取失败（"@ + error + "）"@
}

pub open spec fn download_attempt(label: Seq<char>, error: Seq<char>) -> Seq<char> {
    label + ": "@ + error
}

pub open spec fn mismatch_attempt(label: Seq<char>) -> Seq<char> {
    label + ": SHA-256 不符（内容疑似滞后或被篡改）"@
}

impl UpdateRun {
    pub closed spec fn sources(&self) -> Seq<Source> {
        self.sources@
    }

    /// Where the release itself has the list of checksums.
    pub closed spec fn anchor(&self) -> String {
        self.anchor
    }

    /// The order in which the places are tried.
    pub closed spec fn order(&self) -> Seq<usize> {
        self.order@
    }

    /// How many places have had their turn.
    pub closed spec fn turn(&self) -> int {
        self.turn as int
    }

    pub closed spec fn spec_sums(&self) -> Option<Seq<char>> {
        match self.sums {
            Some(text) => Some(text@),
            None => None,
        }
    }

    /// The checksum that the installer must have.
    pub closed spec fn spec_expected(&self) -> Option<Seq<char>> {
        match self.expected {
            Some(hash) => Some(hash@),
            None => None,
        }
    }

    /// What went wrong with each place that has had its turn.
    pub closed spec fn attempts(&self) -> Seq<Seq<char>> {
        texts(self.attempts@)
    }

    /// The digest of the download was found to be the checksum.
    pub closed spec fn checked(&self) -> bool {
        self.checked
    }

    pub closed spec fn spec_stage(&self) -> UpdateStage {
        self.stage
    }

    /// How the user knows the place whose turn it is.
    pub open spec fn label(&self) -> Seq<char> {
        self.sources()[self.order()[self.turn()] as int].label@
    }

    /// The place whose turn it is, if there is one left.
    pub open spec fn current(&self) -> Option<usize> {
        if self.turn() < self.order().len() {
            Some(self.order()[self.turn()])
        } else {
            None
        }
    }

    /// Each place is there, each that had its turn failed in its own way, and no stage is
    /// reached without what it rests on.
    pub open spec fn sound(&self) -> bool {
        &&& self.sources().len() > 0
        &&& forall|i: int|
            0 <= i < self.order().len() ==> #[trigger] self.order()[i] < self.sources().len()
        &&& 0 <= self.turn() <= self.order().len()
        &&& self.attempts().len() == self.turn()
        &&& match self.spec_stage() {
            UpdateStage::Choosing { sums_url } => sums_url@ == self.anchor()@ && self.turn() == 0
                && self.order().len() == 0 && self.spec_expected() is None
                    && self.spec_sums() is None && !self.checked(),
            UpdateStage::FetchingSums { source } => self.current() == Some(source)
                && self.spec_sums() is None && self.spec_expected() is None && !self.checked(),
            UpdateStage::LookingUp => self.current() is Some && self.spec_sums() is Some
                && self.spec_expected() is None && !self.checked(),
            UpdateStage::Downloading { source } => self.current() == Some(source)
                && self.spec_expected() is Some && !self.checked(),
            UpdateStage::Checking { source } => self.current() == Some(source)
                && self.spec_expected() is Some && !self.checked(),
            UpdateStage::Verified { source } => self.current() == Some(source)
                && self.spec_expected() is Some && self.checked(),
            UpdateStage::Stopped { reason, message } => {
                &&& !self.checked()
                &&& reason is AllFailed ==> {
                    &&& self.turn() == self.order().len()
                    &&& message@ == "所有下载源均失败——"@ + joined(self.attempts(), "；"@)
                }
                &&& reason is Cancelled ==> message@ == "下载已取消"@
                &&& reason is NoChecksum ==> message@ == "校验和清单缺少安装包条目"@
            },
        }
    }

    pub closed spec fn wf(&self) -> bool {
        self.sound()
    }

    /// The places and their order are the same, and what was learnt is kept.
    pub open spec fn continues(&self, before: &UpdateRun) -> bool {
        &&& self.sources() == before.sources()
        &&& self.anchor() == before.anchor()
        &&& self.order() == before.order()
        &&& before.spec_sums() is Some ==> self.spec_sums() == before.spec_sums()
        &&& before.spec_expected() is Some ==> self.spec_expected() == before.spec_expected()
    }

    /// The turn of the next place has come, unless the update is cancelled or none is left.
    pub open spec fn takes_turn(&self, cancelled: bool) -> bool {
        match self.current() {
            None => self.spec_stage() matches UpdateStage::Stopped { reason, .. }
                && reason is AllFailed,
            Some(source) => if cancelled {
                self.spec_stage() matches UpdateStage::Stopped { reason, .. } && reason is Cancelled
            } else if self.spec_expected() is Some {
                self.spec_stage() == (UpdateStage::Downloading { source })
            } else if self.spec_sums() is Some {
                self.spec_stage() is LookingUp
            } else {
                self.spec_stage() == (UpdateStage::FetchingSums { source })
            },
        }
    }

    /// The place whose turn it was has failed, and the next one has its turn.
    pub open spec fn passes_on(&self, before: &UpdateRun, said: Seq<char>, cancelled: bool) -> bool {
        &&& self.continues(before)
        &&& self.spec_sums() == before.spec_sums()
        &&& self.spec_expected() == before.spec_expected()
        &&& self.turn() == before.turn() + 1
        &&& self.attempts() == before.attempts().push(said)
        &&& self.takes_turn(cancelled)
    }

    /// Nothing but the stage has changed, and the update is over.
    pub open spec fn stops(&self, before: &UpdateRun, why: StopReason, said: Seq<char>) -> bool {
        &&& self.continues(before)
        &&& self.spec_sums() == before.spec_sums()
        &&& self.spec_expected() == before.spec_expected()
        &&& self.turn() == before.turn()
        &&& self.attempts() == before.attempts()
        &&& self.spec_stage() matches UpdateStage::Stopped { reason, message } && reason == why
            && message@ == said
    }

    /// What to do next.
    pub fn stage(&self) -> (r: &UpdateStage)
        ensures
            *r == self.spec_stage(),
    {
        &self.stage
    }

    /// A place.
    pub fn source(&self, i: usize) -> (r: &Source)
        requires
            i < self.sources().len(),
        ensures
            *r == self.sources()[i as int],
    {
        &self.sources[i]
    }

    /// The list of checksums, where it has come.
    pub fn sums(&self) -> (r: Option<&str>)
        ensures
            match r {
                Some(text) => self.spec_sums() == Some(text@),
                None => self.spec_sums() is None,
            },
    {
        match &self.sums {
            Some(text) => Some(text.as_str()),
            None => None,
        }
    }

    /// The checksum that the installer must have.
    pub fn expected(&self) -> (r: Option<&str>)
        ensures
            match r {
                Some(hash) => self.spec_expected() == Some(hash@),
                None => self.spec_expected() is None,
            },
    {
        match &self.expected {
            Some(hash) => Some(hash.as_str()),
            None => None,
        }
    }

    /// Whether the places are probed: a single one needs none.
    pub fn probes(&self) -> (r: bool)
        ensures
            r == (self.sources().len() > 1),
    {
        self.sources.len() > 1
    }

    /// Begins an update. `anchor` is where the release itself has the list of checksums:
    /// whichever place the installer comes from, that list is the one to trust.
    pub fn start(sources: Vec<Source>, anchor: String) -> (r: UpdateRun)
        requires
            sources@.len() > 0,
        ensures
            r.wf(),
            r.sources() == sources@,
            r.anchor() == anchor,
            r.order().len() == 0,
            r.spec_stage() matches UpdateStage::Choosing { sums_url } && sums_url@ == anchor@,
    {
        let sums_url = anchor.clone();
        UpdateRun {
            sources,
            anchor,
            order: Vec::new(),
            turn: 0,
            sums: None,
            expected: None,
            attempts: Vec::new(),
            checked: false,
            stage: UpdateStage::Choosing { sums_url },
        }
    }

    /// The order is chosen, and the list of checksums may have come from where the release
    /// itself has it. Only where it has not is a place asked for its own.
    pub fn chosen(self, order: Vec<usize>, sums: Option<String>, cancelled: bool) -> (r: UpdateRun)
        requires
            self.wf(),
            self.spec_stage() is Choosing,
            order@.len() > 0,
            forall|i: int| 0 <= i < order@.len() ==> #[trigger] order@[i] < self.sources().len(),
        ensures
            r.wf(),
            r.sources() == self.sources(),
            r.anchor() == self.anchor(),
            r.order() == order@,
            r.spec_sums() == (match sums {
                Some(text) => Some(text@),
                None => None,
            }),
            r.spec_expected() is None,
            r.turn() == 0,
            r.attempts().len() == 0,
            r.takes_turn(cancelled),
    {
        let run = UpdateRun { order, sums, ..self };
        run.take_turn(cancelled)
    }

    fn take_turn(self, cancelled: bool) -> (r: UpdateRun)
        requires
            self.sources().len() > 0,
            forall|i: int|
                0 <= i < self.order().len() ==> #[trigger] self.order()[i] < self.sources().len(),
            0 <= self.turn() <= self.order().len(),
            self.attempts().len() == self.turn(),
            !self.checked(),
        ensures
            r.wf(),
            r.continues(&self),
            r.spec_sums() == self.spec_sums(),
            r.spec_expected() == self.spec_expected(),
            r.turn() == self.turn(),
            r.attempts() == self.attempts(),
            r.takes_turn(cancelled),
    {
        if self.turn == self.order.len() {
            let mut out: Vec<char> = Vec::new();
            push_text(&mut out, "所有下载源均失败——");
            push_text(&mut out, join(&self.attempts, "；").as_str());
            assert(out@ =~= "所有下载源均失败——"@ + joined(self.attempts(), "；"@));
            let message = string_of(out);
            return UpdateRun {
                stage: UpdateStage::Stopped { reason: StopReason::AllFailed, message },
                ..self
            };
        }
        let source: usize = self.order[self.turn];
        let stage = if cancelled {
            UpdateStage::Stopped {
                reason: StopReason::Cancelled,
                message: "下载已取消".to_owned(),
            }
        } else if self.expected.is_some() {
            UpdateStage::Downloading { source }
        } else if self.sums.is_some() {
            UpdateStage::LookingUp
        } else {
            UpdateStage::FetchingSums { source }
        };
        UpdateRun { stage, ..self }
    }

    fn pass_on(self, said: String, cancelled: bool) -> (r: UpdateRun)
        requires
            self.wf(),
            self.current() is Some,
            !self.checked(),
        ensures
            r.wf(),
            r.passes_on(&self, said@, cancelled),
    {
        let mut attempts = self.attempts;
        let ghost before = attempts@;
        attempts.push(said);
        assert(texts(attempts@) =~= texts(before).push(said@));
        let places: usize = self.order.len();
        assert(self.turn < places);
        let run = UpdateRun { attempts, turn: self.turn + 1, ..self };
        run.take_turn(cancelled)
    }

    fn label_text(&self, source: usize) -> (r: &str)
        requires
            source < self.sources().len(),
        ensures
            r@ == self.sources()[source as int].label@,
    {
        self.sources[source].label.as_str()
    }

    fn current_label(&self) -> (r: &str)
        requires
            self.wf(),
            self.current() is Some,
        ensures
            r@ == self.label(),
    {
        self.label_text(self.order[self.turn])
    }

    /// The list of checksums has come from the place whose turn it is.
    pub fn sums_fetched(self, text: String) -> (r: UpdateRun)
        requires
            self.wf(),
            self.spec_stage() is FetchingSums,
        ensures
            r.wf(),
            r.continues(&self),
            r.spec_sums() == Some(text@),
            r.spec_expected() is None,
            r.turn() == self.turn(),
            r.attempts() == self.attempts(),
            r.spec_stage() is LookingUp,
    {
        UpdateRun { sums: Some(text), stage: UpdateStage::LookingUp, ..self }
    }

    /// The place whose turn it is has no list of checksums.
    pub fn sums_failed(self, error: &str, cancelled: bool) -> (r: UpdateRun)
        requires
            self.wf(),
            self.spec_stage() is FetchingSums,
        ensures
            r.wf(),
            r.passes_on(&self, sums_attempt(self.label(), error@), cancelled),
    {
        let mut out: Vec<char> = Vec::new();
        push_text(&mut out, self.current_label());
        push_text(&mut out, ": 清单获取失败（");
        push_text(&mut out, error);
        push_text(&mut out, "）");
        assert(out@ =~= sums_attempt(self.label(), error@));
        self.pass_on(string_of(out), cancelled)
    }

    /// The checksum of the installer, where the list has it.
    pub fn looked_up(self, hash: Option<String>) -> (r: UpdateRun)
        requires
            self.wf(),
            self.spec_stage() is LookingUp,
        ensures
            r.wf(),
            match hash {
                Some(hash) => {
                    &&& r.continues(&self)
                    &&& r.spec_sums() == self.spec_sums()
                    &&& r.spec_expected() == Some(hash@)
                    &&& r.turn() == self.turn()
                    &&& r.attempts() == self.attempts()
                    &&& r.spec_stage() == (UpdateStage::Downloading {
                        source: self.order()[self.turn()],
                    })
                },
                None => r.stops(&self, StopReason::NoChecksum, "校验和清单缺少安装包条目"@),
            },
    {
        match hash {
            Some(hash) => {
                let source: usize = self.order[self.turn];
                UpdateRun {
                    expected: Some(hash),
                    stage: UpdateStage::Downloading { source },
                    ..self
                }
            },
            None => UpdateRun {
                stage: UpdateStage::Stopped {
                    reason: StopReason::NoChecksum,
                    message: "校验和清单缺少安装包条目".to_owned(),
                },
                ..self
            },
        }
    }

    /// The installer has come.
    pub fn downloaded(self) -> (r: UpdateRun)
        requires
            self.wf(),
            self.spec_stage() is Downloading,
        ensures
            r.wf(),
            r.continues(&self),
            r.spec_sums() == self.spec_sums(),
            r.turn() == self.turn(),
            r.attempts() == self.attempts(),
            r.spec_stage() == (UpdateStage::Checking { source: self.order()[self.turn()] }),
    {
        let source: usize = self.order[self.turn];
        UpdateRun { stage: UpdateStage::Checking { source }, ..self }
    }

    /// The installer has not come.
    pub fn download_failed(self, error: &str, cancelled: bool) -> (r: UpdateRun)
        requires
            self.wf(),
            self.spec_stage() is Downloading,
        ensures
            r.wf(),
            r.passes_on(&self, download_attempt(self.label(), error@), cancelled),
    {
        let mut out: Vec<char> = Vec::new();
        push_text(&mut out, self.current_label());
        push_text(&mut out, ": ");
        push_text(&mut out, error);
        assert(out@ =~= download_attempt(self.label(), error@));
        self.pass_on(string_of(out), cancelled)
    }

    /// The digest of the download could not be computed. No other place would help.
    pub fn digest_failed(self, error: &str) -> (r: UpdateRun)
        requires
            self.wf(),
            self.spec_stage() is Checking,
        ensures
            r.wf(),
            r.stops(&self, StopReason::NoDigest, "计算安装包摘要失败: "@ + error@),
    {
        let mut out: Vec<char> = Vec::new();
        push_text(&mut out, "计算安装包摘要失败: ");
        push_text(&mut out, error);
        assert(out@ =~= "计算安装包摘要失败: "@ + error@);
        UpdateRun {
            stage: UpdateStage::Stopped { reason: StopReason::NoDigest, message: string_of(out) },
            ..self
        }
    }

    /// Whether the digest of the download is the checksum. If it is not, what came is old or
    /// was tampered with, and the next place has its turn.
    pub fn digest_compared(self, same: bool, cancelled: bool) -> (r: UpdateRun)
        requires
            self.wf(),
            self.spec_stage() is Checking,
        ensures
            r.wf(),
            if same {
                &&& r.continues(&self)
                &&& r.checked()
                &&& r.spec_sums() == self.spec_sums()
                &&& r.turn() == self.turn()
                &&& r.attempts() == self.attempts()
                &&& r.spec_stage() == (UpdateStage::Verified {
                    source: self.order()[self.turn()],
                })
            } else {
                r.passes_on(&self, mismatch_attempt(self.label()), cancelled)
            },
    {
        if same {
            let source: usize = self.order[self.turn];
            UpdateRun { checked: true, stage: UpdateStage::Verified { source }, ..self }
        } else {
            let mut out: Vec<char> = Vec::new();
            push_text(&mut out, self.current_label());
            push_text(&mut out, ": SHA-256 不符（内容疑似滞后或被篡改）");
            assert(out@ =~= mismatch_attempt(self.label()));
            self.pass_on(string_of(out), cancelled)
        }
    }

    /// What comes of an update that has come to its end.
    pub fn settle(self, cancelled: bool, exe_dir: &str, pid: u32, installed: bool) -> (r: UpdateEnd)
        requires
            self.wf(),
            self.spec_stage() is Verified || self.spec_stage() is Stopped,
        ensures
            match self.spec_stage() {
                UpdateStage::Stopped { message, .. } => if cancelled {
                    r is Discarded
                } else {
                    r matches UpdateEnd::Failed { message: said } && said@ == message@
                },
                _ => r matches UpdateEnd::Launch { args } && texts(args@) == installer_args(
                    exe_dir@,
                    pid,
                    installed,
                ),
            },
    {
        match self.stage {
            UpdateStage::Stopped { message, .. } => if cancelled {
                UpdateEnd::Discarded
            } else {
                UpdateEnd::Failed { message }
            },
            _ => UpdateEnd::Launch { args: arguments(exe_dir, pid, installed) },
        }
    }
}

/// What comes of an update.
#[derive(Debug, Clone, PartialEq, Eq)]
pub enum UpdateEnd {
    /// The user did not want it any more. Nothing is said of it.
    Discarded,
    Failed { message: String },
    /// The installer is started with these arguments, and takes over.
    Launch { args: Vec<String> },
}

/// The arguments of the installer: where to install, and which process to wait for. An
/// application that was not installed gets no shortcuts.
pub open spec fn installer_args(exe_dir: Seq<char>, pid: u32, installed: bool) -> Seq<Seq<char>> {
    let args = seq![
        "--silent"@,
        "--install-dir"@,
        exe_dir,
        "--wait-pid="@ + decimal(pid as nat),
    ];
    if installed {
        args
    } else {
        args.push("--no-shortcuts"@)
    }
}

fn arguments(exe_dir: &str, pid: u32, installed: bool) -> (r: Vec<String>)
    ensures
        texts(r@) == installer_args(exe_dir@, pid, installed),
{
    let mut wait: Vec<char> = Vec::new();
    push_text(&mut wait, "--wait-pid=");
    push_number(&mut wait, pid as u64);
    assert(wait@ =~= "--wait-pid="@ + decimal(pid as nat));
    let mut args: Vec<String> = Vec::new();
    args.push("--silent".to_owned());
    args.push("--install-dir".to_owned());
    args.push(exe_dir.to_owned());
    args.push(string_of(wait));
    if !installed {
        args.push("--no-shortcuts".to_owned());
    }
    assert(texts(args@) =~= installer_args(exe_dir@, pid, installed));
    args
}

/// What is said of an installer that could not be started.
pub fn launch_failure(error: &str) -> (r: String)
    ensures
        r@ == "无法启动安装器: "@ + error@,
{
    "无法启动安装器: ".to_owned().concat(error)
}

/// What is said of the place that was chosen: its name, and how fast it answered.
pub fn choice_text(label: &str, probe_ms: Option<u64>) -> (r: String)
    ensures
        r@ == match probe_ms {
            Some(ms) => "已选择最快源 "@ + label@ + "（"@ + decimal(ms as nat) + "ms）"@,
            None => "开始直连下载…"@,
        },
{
    match probe_ms {
        Some(ms) => {
            let mut out: Vec<char> = Vec::new();
            push_text(&mut out, "已选择最快源 ");
            push_text(&mut out, label);
            push_text(&mut out, "（");
            push_number(&mut out, ms);
            push_text(&mut out, "ms）");
            assert(out@ =~= "已选择最快源 "@ + label@ + "（"@ + decimal(ms as nat) + "ms）"@);
            string_of(out)
        },
        None => "开始直连下载…".to_owned(),
    }
}

/// What is said while the installer comes from a place.
pub fn download_text(label: &str) -> (r: String)
    ensures
        r@ == "正在从 "@ + label@ + " 下载…"@,
{
    "正在从 ".to_owned().concat(label).concat(" 下载…")
}

/// Where an installed application lies: a base, and the directories below it.
#[derive(Debug, Clone, PartialEq, Eq)]
pub struct InstallDir {
    pub base: String,
    pub below: Vec<String>,
}

pub open spec fn install_path(
    local_app_data: Option<Seq<char>>,
    user_profile: Option<Seq<char>>,
) -> Option<(Seq<char>, Seq<Seq<char>>)> {
    match (local_app_data, user_profile) {
        (Some(base), _) => Some((base, seq!["Programs"@, "素材管理器"@])),
        (None, Some(base)) => Some(
            (base, seq!["AppData"@, "Local"@, "Programs"@, "素材管理器"@]),
        ),
        (None, None) => None,
    }
}

/// Where the installer puts the application.
pub fn install_dir(local_app_data: Option<&str>, user_profile: Option<&str>) -> (r: Option<
    InstallDir,
>)
    ensures
        match r {
            Some(dir) => install_path(
                match local_app_data {
                    Some(base) => Some(base@),
                    None => None,
                },
                match user_profile {
                    Some(base) => Some(base@),
                    None => None,
                },
            ) == Some((dir.base@, texts(dir.below@))),
            None => local_app_data is None && user_profile is None,
        },
        local_app_data is Some ==> (r matches Some(dir) && dir.base@ == local_app_data->0@
            && dir.below@.len() == 2 && dir.below@[0]@ == "Programs"@ && dir.below@[1]@
            == "素材管理器"@),
        local_app_data is None && user_profile is Some ==> (r matches Some(dir) && dir.base@
            == user_profile->0@ && dir.below@.len() == 4 && dir.below@[0]@ == "AppData"@
            && dir.below@[1]@ == "Local"@ && dir.below@[2]@ == "Programs"@ && dir.below@[3]@
            == "素材管理器"@),
{
    let mut below: Vec<String> = Vec::new();
    match (local_app_data, user_profile) {
        (Some(base), _) => {
            below.push("Programs".to_owned());
            below.push("素材管理器".to_owned());
            assert(texts(below@) =~= seq!["Programs"@, "素材管理器"@]);
            Some(InstallDir { base: base.to_owned(), below })
        },
        (None, Some(base)) => {
            below.push("AppData".to_owned());
            below.push("Local".to_owned());
            below.push("Programs".to_owned());
            below.push("素材管理器".to_owned());
            assert(texts(below@) =~= seq!["AppData"@, "Local"@, "Programs"@, "素材管理器"@]);
            Some(InstallDir { base: base.to_owned(), below })
        },
        (None, None) => None,
    }
}

/// The installer is started only after its digest was found to be the checksum that the list
/// gives for it.
pub proof fn only_verified_installers_start(run: UpdateRun, source: usize)
    requires
        run.wf(),
        run.spec_stage() == (UpdateStage::Verified { source }),
    ensures
        run.checked(),
        run.spec_expected() is Some,
        run.current() == Some(source),
{
}

/// Nothing is downloaded before it is known which checksum it must have.
pub proof fn checksum_comes_before_the_download(run: UpdateRun, source: usize)
    requires
        run.wf(),
        run.spec_stage() == (UpdateStage::Downloading { source }),
    ensures
        run.spec_expected() is Some,
        run.current() == Some(source),
{
}

/// A place is asked for its list of checksums only where the release's own could not be had:
/// a list that has come stays, and no place is asked for another.
pub proof fn the_list_of_the_release_comes_first(run: UpdateRun, after: UpdateRun)
    requires
        run.wf(),
        after.wf(),
        run.spec_sums() is Some,
        after.continues(&run),
    ensures
        !(run.spec_stage() is FetchingSums),
        after.spec_sums() == run.spec_sums(),
        !(after.spec_stage() is FetchingSums),
{
}

/// An update fails for want of a place only when every place has had its turn, and then it
/// says of each what went wrong.
pub proof fn every_source_gets_its_turn(run: UpdateRun, message: String)
    requires
        run.wf(),
        run.spec_stage() == (UpdateStage::Stopped { reason: StopReason::AllFailed, message }),
    ensures
        run.turn() == run.order().len(),
        run.attempts().len() == run.order().len(),
        message@ == "所有下载源均失败——"@ + joined(run.attempts(), "；"@),
{
}

/// A cancelled update takes no other place: whatever went wrong, it downloads nothing more.
pub proof fn cancelled_updates_stop(before: UpdateRun, after: UpdateRun, said: Seq<char>)
    requires
        before.wf(),
        after.wf(),
        after.passes_on(&before, said, true),
    ensures
        after.spec_stage() is Stopped,
{
}

/// A place is probed for eight seconds with 64 kibibytes, the list of checksums has ten seconds
/// to come, progress is shown ten times a second at most, and the installer has one name.
pub proof fn bounds_of_an_update()
    ensures
        PROBE_TIMEOUT_MS == 8000,
        PROBE_SAMPLE_BYTES == 64 * 1024,
        SUMS_ANCHOR_TIMEOUT_MS == 10000,
        PROGRESS_MIN_INTERVAL_MS == 100,
        INSTALLER_FILE@ == "assetdeck-installer-update.exe"@,
{
}

/// An update that cannot begin tells the very reason it is given.
pub proof fn refusals_tell_their_reason(start: InstallStart, why: Seq<char>)
    ensures
        start.refused_because(why) <==> (start matches InstallStart::Refused { notice } && notice@
            == why),
        start.failed_because(why) <==> (start matches InstallStart::Failed { message } && message@
            == why),
{
}

/// What went wrong with a place is told with its name in front.
pub proof fn attempts_name_their_place(label: Seq<char>, error: Seq<char>)
    ensures
        sums_attempt(label, error) == label + ": 清单获取失败（"@ + error + "）"@,
        download_attempt(label, error) == label + ": "@ + error,
        mismatch_attempt(label) == label + ": SHA-256 不符（内容疑似滞后或被篡改）"@,
{
}

/// The installer is told to be silent, where to install and which process to wait for; where
/// the application was not installed before, also to make no shortcuts.
pub proof fn installers_get_these_arguments(exe_dir: Seq<char>, pid: u32, installed: bool)
    ensures
        installer_args(exe_dir, pid, installed).len() == if installed {
            4int
        } else {
            5int
        },
        installer_args(exe_dir, pid, installed)[0] == "--silent"@,
        installer_args(exe_dir, pid, installed)[1] == "--install-dir"@,
        installer_args(exe_dir, pid, installed)[2] == exe_dir,
        installer_args(exe_dir, pid, installed)[3] == "--wait-pid="@ + decimal(pid as nat),
        installer_args(exe_dir, pid, false)[4] == "--no-shortcuts"@,
{
}

/// When a place has failed and the next has its turn, what is known stays, what went wrong is
/// noted behind what was noted before, and the next place is downloaded from only where the
/// checksum is known; with none left, or when cancelled, the update stops.
pub proof fn failed_places_pass_the_turn_on(
    before: UpdateRun,
    after: UpdateRun,
    said: Seq<char>,
    cancelled: bool,
)
    requires
        before.wf(),
        after.wf(),
        after.passes_on(&before, said, cancelled),
    ensures
        after.sources() == before.sources(),
        after.anchor() == before.anchor(),
        after.order() == before.order(),
        after.turn() == before.turn() + 1,
        after.attempts() == before.attempts().push(said),
        after.spec_sums() == before.spec_sums(),
        after.spec_expected() == before.spec_expected(),
        after.turn() == after.order().len() ==> (after.spec_stage() matches UpdateStage::Stopped {
            reason,
            ..
        } && reason is AllFailed),
        after.turn() < after.order().len() && cancelled ==> (
        after.spec_stage() matches UpdateStage::Stopped { reason, .. } && reason is Cancelled),
        after.turn() < after.order().len() && !cancelled && after.spec_expected() is Some
            ==> after.spec_stage() == (UpdateStage::Downloading {
            source: after.order()[after.turn()],
        }),
        after.turn() < after.order().len() && !cancelled && after.spec_expected() is None
            && after.spec_sums() is Some ==> after.spec_stage() is LookingUp,
        after.turn() < after.order().len() && !cancelled && after.spec_expected() is None
            && after.spec_sums() is None ==> after.spec_stage() == (UpdateStage::FetchingSums {
            source: after.order()[after.turn()],
        }),
{
}

/// An update that stops keeps all that it knew and tells why; one that goes on keeps its places,
/// their order, and what it had learnt.
pub proof fn stopped_updates_tell_why(
    before: UpdateRun,
    after: UpdateRun,
    why: StopReason,
    said: Seq<char>,
)
    ensures
        after.stops(&before, why, said) ==> {
            &&& after.turn() == before.turn()
            &&& after.attempts() == before.attempts()
            &&& after.sources() == before.sources()
            &&& after.order() == before.order()
            &&& after.spec_stage() matches UpdateStage::Stopped { reason, message } && reason == why
                && message@ == said
        },
        after.continues(&before) ==> {
            &&& after.sources() == before.sources()
            &&& after.anchor() == before.anchor()
            &&& after.order() == before.order()
            &&& before.spec_sums() is Some ==> after.spec_sums() == before.spec_sums()
            &&& before.spec_expected() is Some ==> after.spec_expected() == before.spec_expected()
        },
        after.label() == after.sources()[after.order()[after.turn()] as int].label@,
{
}

} // verus!

//! The course of a paste.
//!
//! The asset is put on the clipboard first; everything after that may stop the paste and
//! leaves the user with a copy. Putting an asset into an input box and sending it are
//! two things: the Enter key is pressed only on the old path, after the paste, and only
//! where the settings ask for it.
//!
//! A paste alternates between decisions, made here, and work on the clipboard, windows
//! and keys, done by the caller. Each step takes what the work brought and says what
//! comes next.

use vstd::prelude::*;

use crate::domain::AssetKind;
use crate::feedback::{FeedbackAction, NotReadyReason, PasteFeedback};
#[allow(unused_imports)]
use crate::negotiate::{
    agrees, carries, chosen, negotiation_picks_the_first_safe_format, payload_of,
    safe_format_is_found_where_there_is_one, safe_format_never_sends,
};
use crate::negotiate::{
    negotiate_detailed, AssetPayload, ClipboardFormat, ClipboardPayload, FormatPolicy, Negotiated,
    NegotiationProfile, SendPolicy, TargetProfile,
};

verus! {

/// The Ctrl key.
pub const VK_CONTROL: u16 = 0x11;

/// The V key.
pub const VK_V: u16 = 0x56;

/// The Enter key.
pub const VK_RETURN: u16 = 0x0D;

/// Marks the release of a key.
pub const KEY_UP: u16 = 0x8000;

/// How long a window that was active a moment ago may take to be active again.
pub const FOREGROUND_REASSERT_BUDGET_MS: u64 = 100;

/// How long a window may take to come to the foreground.
pub const ACTIVATE_BUDGET_MS: u64 = 200;

/// How long the input box may be looked for.
pub const PROBE_BUDGET_MS: u64 = 50;

/// The key events of a paste: Ctrl down, V down, V up, Ctrl up.
pub open spec fn paste_chord() -> Seq<u16> {
    seq![0x11u16, 0x56u16, 0x8056u16, 0x8011u16]
}

/// The key events of Enter.
pub open spec fn enter_chord() -> Seq<u16> {
    seq![0x0Du16, 0x800Du16]
}

fn chord_paste() -> (r: Vec<u16>)
    ensures
        r@ == paste_chord(),
{
    assert(0x56u16 | 0x8000u16 == 0x8056u16) by (bit_vector);
    assert(0x11u16 | 0x8000u16 == 0x8011u16) by (bit_vector);
    let r: Vec<u16> = vec![VK_CONTROL, VK_V, VK_V | KEY_UP, VK_CONTROL | KEY_UP];
    assert(r@ =~= paste_chord());
    r
}

fn chord_enter() -> (r: Vec<u16>)
    ensures
        r@ == enter_chord(),
{
    assert(0x0Du16 | 0x8000u16 == 0x800Du16) by (bit_vector);
    let r: Vec<u16> = vec![VK_RETURN, VK_RETURN | KEY_UP];
    assert(r@ =~= enter_chord());
    r
}

/// The event is Enter going down or up.
pub open spec fn is_enter(event: u16) -> bool {
    event & 0x7FFF == VK_RETURN
}

/// A paste alone never presses Enter.
pub proof fn paste_chord_has_no_enter(i: int)
    requires
        0 <= i < paste_chord().len(),
    ensures
        !is_enter(paste_chord()[i]),
{
    assert(0x11u16 & 0x7FFF != 0x0D) by (bit_vector);
    assert(0x56u16 & 0x7FFF != 0x0D) by (bit_vector);
    assert(0x8056u16 & 0x7FFF != 0x0D) by (bit_vector);
    assert(0x8011u16 & 0x7FFF != 0x0D) by (bit_vector);
}

/// The settings of a paste.
#[derive(Debug, Clone, Copy, PartialEq, Eq, Structural)]
pub struct PasteConfig {
    /// Whether Enter is pressed after the paste. Off unless asked for.
    pub auto_send: bool,
}

impl Default for PasteConfig {
    fn default() -> (r: PasteConfig)
        ensures
            !r.auto_send,
    {
        PasteConfig { auto_send: false }
    }
}

/// What a paste into the last window comes to.
#[derive(Debug, Clone, PartialEq, Eq)]
pub enum PasteOutcome {
    Injected,
    /// The asset is on the clipboard; why it was not pasted.
    CopiedOnly { reason: String },
    /// The asset could not be put on the clipboard.
    Failed(String),
}

/// What a paste into a chosen target comes to.
#[derive(Debug, Clone, PartialEq, Eq)]
pub enum TargetPasteOutcome {
    /// The keys were sent; whether it is certain that they met an input box.
    Injected { verified: bool },
    CopiedOnly { feedback: PasteFeedback },
    Failed { feedback: PasteFeedback },
}

/// A window.
#[derive(Debug, Clone, Copy, PartialEq, Eq, Structural)]
pub struct WindowHandle(pub u64);

/// A target that was chosen: its window, where it has one.
#[derive(Debug, Clone, PartialEq, Eq)]
pub struct TargetBinding {
    pub id: String,
    pub hwnd: Option<WindowHandle>,
    pub label: String,
}

impl TargetBinding {
    pub fn new(id: &str, hwnd: WindowHandle, label: &str) -> (r: TargetBinding)
        ensures
            r.id@ == id@,
            r.hwnd == Some(hwnd),
            r.label@ == label@,
    {
        TargetBinding { id: id.to_owned(), hwnd: Some(hwnd), label: label.to_owned() }
    }

    pub fn copy(&self) -> (r: TargetBinding)
        ensures
            r == *self,
    {
        TargetBinding { id: self.id.clone(), hwnd: self.hwnd, label: self.label.clone() }
    }
}

/// How sure one has to be of the input box.
#[derive(Debug, Clone, Copy, PartialEq, Eq, Structural)]
pub enum ReadinessMode {
    P0Only,
    UiaShallow,
    /// Without proof of an input box nothing is pasted.
    UiaStrict,
}

/// A way to get the keyboard focus into the input box, as a profile lists it.
#[derive(Debug, Clone, Copy, PartialEq, Eq, Structural)]
pub enum FocusStrategyStep {
    Already,
    Uia,
    Anchor,
}

/// A way to get the keyboard focus into the input box, as it is carried out.
#[derive(Debug, Clone, Copy, PartialEq, Eq, Structural)]
pub enum FocusStep {
    AlreadyEditable,
    UiaSetFocus,
    AnchorClick,
}

/// A point of the window to click on: the bits of its two ratios, kept as they are.
#[derive(Debug, Clone, Copy, PartialEq, Eq, Structural)]
pub struct InputAnchor {
    pub x_ratio_bits: u32,
    pub y_ratio_bits: u32,
}

/// The ways to try, in order, and the point to click on, where there is one.
#[derive(Debug, Clone, PartialEq, Eq)]
pub struct FocusPlan {
    pub steps: Vec<FocusStep>,
    pub anchor: Option<InputAnchor>,
}

/// What is known of a target application.
#[derive(Debug, Clone, PartialEq, Eq)]
pub struct Profile {
    pub id: String,
    pub label: String,
    pub formats: FormatPolicy,
    pub paste_sends: SendPolicy,
    pub readiness: ReadinessMode,
    /// How long the window rests after it came to the foreground.
    pub settle_ms: u64,
    pub focus_strategy: Vec<FocusStrategyStep>,
    pub input_anchor: Option<InputAnchor>,
}

impl NegotiationProfile for Profile {
    open spec fn spec_formats(&self, kind: AssetKind) -> Seq<ClipboardFormat> {
        self.formats.listed(kind)
    }

    open spec fn spec_paste_sends(&self, kind: AssetKind, format: ClipboardFormat) -> bool {
        self.paste_sends.triggers(kind, format)
    }

    fn formats(&self, kind: AssetKind) -> (r: Vec<ClipboardFormat>) {
        let listed = self.formats.for_kind(kind);
        let mut out: Vec<ClipboardFormat> = Vec::new();
        let mut i: usize = 0;
        while i < listed.len()
            invariant
                i <= listed@.len(),
                out@ == listed@.take(i as int),
            decreases listed@.len() - i,
        {
            out.push(listed[i]);
            i = i + 1;
        }
        assert(listed@.take(listed@.len() as int) =~= listed@);
        out
    }

    fn paste_sends(&self, kind: AssetKind, format: ClipboardFormat) -> (r: bool) {
        self.paste_sends.sends(kind, format)
    }
}

pub open spec fn focus_step(step: FocusStrategyStep) -> FocusStep {
    match step {
        FocusStrategyStep::Already => FocusStep::AlreadyEditable,
        FocusStrategyStep::Uia => FocusStep::UiaSetFocus,
        FocusStrategyStep::Anchor => FocusStep::AnchorClick,
    }
}

impl Profile {
    /// How to get the focus into the input box: the listed ways in their order, and the
    /// point as it is given.
    pub fn focus_plan(&self) -> (r: FocusPlan)
        ensures
            r.anchor == self.input_anchor,
            r.steps@ == self.focus_strategy@.map_values(|s: FocusStrategyStep| focus_step(s)),
            r.steps@.len() == self.focus_strategy@.len(),
            forall|k: int|
                0 <= k < r.steps@.len() ==> match self.focus_strategy@[k] {
                    FocusStrategyStep::Already => #[trigger] r.steps@[k]
                        == FocusStep::AlreadyEditable,
                    FocusStrategyStep::Uia => r.steps@[k] == FocusStep::UiaSetFocus,
                    FocusStrategyStep::Anchor => r.steps@[k] == FocusStep::AnchorClick,
                },
    {
        let mut steps: Vec<FocusStep> = Vec::new();
        let mut i: usize = 0;
        while i < self.focus_strategy.len()
            invariant
                i <= self.focus_strategy@.len(),
                steps@.len() == i,
                forall|k: int|
                    0 <= k < i ==> #[trigger] steps@[k] == focus_step(self.focus_strategy@[k]),
            decreases self.focus_strategy@.len() - i,
        {
            let step = match self.focus_strategy[i] {
                FocusStrategyStep::Already => FocusStep::AlreadyEditable,
                FocusStrategyStep::Uia => FocusStep::UiaSetFocus,
                FocusStrategyStep::Anchor => FocusStep::AnchorClick,
            };
            steps.push(step);
            i = i + 1;
        }
        assert(steps@ =~= self.focus_strategy@.map_values(|s: FocusStrategyStep| focus_step(s)));
        FocusPlan { steps, anchor: self.input_anchor }
    }
}

/// How the focus got into the input box.
#[derive(Debug, Clone, Copy, PartialEq, Eq, Structural)]
pub enum FocusOutcome {
    AlreadyEditable,
    FocusedByUia,
    FocusedByAnchor,
    Unavailable,
}

/// What stands in the way of input.
#[derive(Debug, Clone, Copy, PartialEq, Eq, Structural)]
pub enum ReadinessBlocker {
    NotLoggedIn,
    NoConversation,
    ReadOnly,
    ModalBlocking,
    Starting,
    WindowGone,
}

/// What looking for the input box brought.
#[derive(Debug, Clone, Copy, PartialEq, Eq, Structural)]
pub enum ReadinessSignal {
    Ready,
    Inconclusive,
    Blocked(ReadinessBlocker),
}

/// Whose the window in the foreground is.
#[derive(Debug, Clone, Copy, PartialEq, Eq, Structural)]
pub enum ForegroundRelation {
    OwnProcess,
    SameAsTarget,
    Foreign,
}

pub open spec fn blocker_reason(blocker: ReadinessBlocker) -> NotReadyReason {
    match blocker {
        ReadinessBlocker::NotLoggedIn => NotReadyReason::NotLoggedIn,
        ReadinessBlocker::NoConversation => NotReadyReason::NoConversation,
        ReadinessBlocker::ReadOnly => NotReadyReason::ReadOnly,
        ReadinessBlocker::ModalBlocking => NotReadyReason::ModalBlocking,
        ReadinessBlocker::Starting => NotReadyReason::Starting,
        ReadinessBlocker::WindowGone => NotReadyReason::WindowGone,
    }
}

fn map_blocker(blocker: ReadinessBlocker) -> (r: NotReadyReason)
    ensures
        r == blocker_reason(blocker),
{
    match blocker {
        ReadinessBlocker::NotLoggedIn => NotReadyReason::NotLoggedIn,
        ReadinessBlocker::NoConversation => NotReadyReason::NoConversation,
        ReadinessBlocker::ReadOnly => NotReadyReason::ReadOnly,
        ReadinessBlocker::ModalBlocking => NotReadyReason::ModalBlocking,
        ReadinessBlocker::Starting => NotReadyReason::Starting,
        ReadinessBlocker::WindowGone => NotReadyReason::WindowGone,
    }
}

/// From the moment the panel opens to the paste.
pub struct PasteSession {
    config: PasteConfig,
    previous_foreground: Option<WindowHandle>,
    target: Option<TargetBinding>,
}

impl PasteSession {
    pub closed spec fn spec_config(&self) -> PasteConfig {
        self.config
    }

    pub closed spec fn spec_previous(&self) -> Option<WindowHandle> {
        self.previous_foreground
    }

    pub closed spec fn spec_target(&self) -> Option<TargetBinding> {
        self.target
    }

    pub fn new(config: PasteConfig) -> (r: PasteSession)
        ensures
            r.spec_config() == config,
            r.spec_previous() is None,
            r.spec_target() is None,
    {
        PasteSession { config, previous_foreground: None, target: None }
    }

    /// The panel opens over the window that is in the foreground.
    pub fn begin_panel(&mut self, foreground: WindowHandle)
        ensures
            final(self).spec_previous() == Some(foreground),
            final(self).spec_config() == old(self).spec_config(),
            final(self).spec_target() == old(self).spec_target(),
    {
        self.previous_foreground = Some(foreground);
    }

    /// The window that was in the foreground when the panel opened.
    pub fn previous_foreground(&self) -> (r: Option<WindowHandle>)
        ensures
            r == self.spec_previous(),
    {
        self.previous_foreground
    }

    /// Takes the target that was used last.
    pub fn begin_targeted(&mut self, hot: &Option<TargetBinding>)
        ensures
            final(self).spec_target() == *hot,
            final(self).spec_config() == old(self).spec_config(),
            final(self).spec_previous() == old(self).spec_previous(),
    {
        self.target = match hot {
            Some(binding) => Some(binding.copy()),
            None => None,
        };
    }

    /// Chooses a target.
    pub fn set_target(&mut self, target: Option<TargetBinding>)
        ensures
            final(self).spec_target() == target,
            final(self).spec_config() == old(self).spec_config(),
            final(self).spec_previous() == old(self).spec_previous(),
    {
        self.target = target;
    }

    pub fn target(&self) -> (r: Option<&TargetBinding>)
        ensures
            match r {
                Some(binding) => self.spec_target() == Some(*binding),
                None => self.spec_target() is None,
            },
    {
        match &self.target {
            Some(binding) => Some(binding),
            None => None,
        }
    }

    /// The keys that send what was pasted, where the settings ask for it.
    pub fn send(&self) -> (r: Option<Vec<u16>>)
        ensures
            r is Some <==> self.spec_config().auto_send,
            r matches Some(keys) ==> keys@ == enter_chord() && keys@ == seq![0x0Du16, 0x800Du16],
    {
        if self.config.auto_send {
            Some(chord_enter())
        } else {
            None
        }
    }
}

/// What the caller does next on the old path, or how it ended.
pub enum PasteStage<'a> {
    /// Put the payload on the clipboard.
    Writing { payload: ClipboardPayload<'a> },
    /// Ask whether the window is still there.
    CheckingWindow { window: WindowHandle },
    /// Send these keys: the paste.
    Injecting { keys: Vec<u16> },
    /// Send these keys: Enter.
    Sending { keys: Vec<u16> },
    Finished { outcome: PasteOutcome },
}

/// A paste into the window that was in the foreground before the panel opened.
pub struct PasteRun<'a> {
    window: Option<WindowHandle>,
    auto_send: bool,
    stage: PasteStage<'a>,
}

impl<'a> PasteStage<'a> {
    pub open spec fn copied_because(self, reason: Seq<char>) -> bool {
        self matches PasteStage::Finished {
            outcome: PasteOutcome::CopiedOnly { reason: text },
        } && text@ == reason
    }
}

fn copied_only_because<'a>(reason: &str) -> (r: PasteStage<'a>)
    ensures
        r.copied_because(reason@),
{
    PasteStage::Finished { outcome: PasteOutcome::CopiedOnly { reason: reason.to_owned() } }
}

impl<'a> PasteRun<'a> {
    pub closed spec fn spec_stage(&self) -> PasteStage<'a> {
        self.stage
    }

    pub closed spec fn window(&self) -> Option<WindowHandle> {
        self.window
    }

    pub closed spec fn auto_send(&self) -> bool {
        self.auto_send
    }

    pub open spec fn continues(self, before: PasteRun<'a>) -> bool {
        self.window() == before.window() && self.auto_send() == before.auto_send()
    }

    /// Enter is in the offing only where the settings ask for it.
    pub closed spec fn wf(&self) -> bool {
        match self.stage {
            PasteStage::Injecting { keys } => keys@ == paste_chord() && self.window is Some,
            PasteStage::Sending { keys } => self.auto_send && keys@ == enter_chord(),
            PasteStage::CheckingWindow { window } => self.window == Some(window),
            _ => true,
        }
    }

    /// What to do next.
    pub fn stage(&self) -> (r: &PasteStage<'a>)
        ensures
            *r == self.spec_stage(),
    {
        &self.stage
    }

    /// Begins a paste. An asset that no format holds goes no further.
    pub fn start(session: &PasteSession, req: &'a AssetPayload<'a>) -> (r: PasteRun<'a>)
        ensures
            r.wf(),
            r.window() == session.spec_previous(),
            r.auto_send() == session.spec_config().auto_send,
            match chosen(*req, &TargetProfile::ImGeneric) {
                (Some(format), true) => r.spec_stage() matches PasteStage::Writing { payload }
                    && payload_of(payload, *req, format),
                _ => r.spec_stage().copied_because("素材类型无可用剪贴板格式"@),
            },
    {
        let stage = match crate::negotiate::negotiate(req, &TargetProfile::ImGeneric) {
            Some(payload) => PasteStage::Writing { payload },
            None => copied_only_because("素材类型无可用剪贴板格式"),
        };
        PasteRun {
            window: session.previous_foreground,
            auto_send: session.config.auto_send,
            stage,
        }
    }

    /// The asset is on the clipboard.
    pub fn written(self) -> (r: PasteRun<'a>)
        requires
            self.wf(),
            self.spec_stage() is Writing,
        ensures
            r.wf(),
            r.continues(self),
            match self.window() {
                Some(window) => r.spec_stage() == (PasteStage::CheckingWindow { window }),
                None => r.spec_stage().copied_because("唤起面板前未记录前台窗口"@),
            },
    {
        let stage = match self.window {
            Some(window) => PasteStage::CheckingWindow { window },
            None => copied_only_because("唤起面板前未记录前台窗口"),
        };
        PasteRun { stage, ..self }
    }

    /// The asset could not be put on the clipboard.
    pub fn write_failed(self, message: &str) -> (r: PasteRun<'a>)
        requires
            self.spec_stage() is Writing,
        ensures
            r.wf(),
            r.continues(self),
            r.spec_stage() matches PasteStage::Finished { outcome: PasteOutcome::Failed(text) }
                && text@ == message@,
    {
        PasteRun {
            stage: PasteStage::Finished { outcome: PasteOutcome::Failed(message.to_owned()) },
            ..self
        }
    }

    /// Whether the window is still there. If not, nothing is pasted.
    pub fn window_checked(self, alive: bool) -> (r: PasteRun<'a>)
        requires
            self.wf(),
            self.spec_stage() is CheckingWindow,
        ensures
            r.wf(),
            r.continues(self),
            alive ==> (r.spec_stage() matches PasteStage::Injecting { keys } && keys@
                == paste_chord()),
            !alive ==> r.spec_stage().copied_because("前一前台窗口已失活"@),
    {
        let stage = if alive {
            PasteStage::Injecting { keys: chord_paste() }
        } else {
            copied_only_because("前一前台窗口已失活")
        };
        PasteRun { stage, ..self }
    }

    /// The keys of the paste, or of Enter, were sent.
    pub fn injected(self) -> (r: PasteRun<'a>)
        requires
            self.wf(),
            self.spec_stage() is Injecting || self.spec_stage() is Sending,
        ensures
            r.wf(),
            r.continues(self),
            self.spec_stage() is Injecting && self.auto_send() ==> (
            r.spec_stage() matches PasteStage::Sending { keys } && keys@ == enter_chord()),
            self.spec_stage() is Sending || !self.auto_send() ==> r.spec_stage() == (
            PasteStage::Finished { outcome: PasteOutcome::Injected }),
    {
        let sent = match &self.stage {
            PasteStage::Sending { keys: _ } => true,
            _ => false,
        };
        let stage = if !sent && self.auto_send {
            PasteStage::Sending { keys: chord_enter() }
        } else {
            PasteStage::Finished { outcome: PasteOutcome::Injected }
        };
        PasteRun { stage, ..self }
    }

    /// The keys could not be sent.
    pub fn inject_failed(self, message: &str) -> (r: PasteRun<'a>)
        requires
            self.wf(),
            self.spec_stage() is Injecting || self.spec_stage() is Sending,
        ensures
            r.wf(),
            r.continues(self),
            self.spec_stage() is Injecting ==> r.spec_stage().copied_because(
                "注入失败: "@ + message@,
            ),
            self.spec_stage() is Sending ==> r.spec_stage().copied_because(
                "自动发送失败: "@ + message@,
            ),
    {
        let sent = match &self.stage {
            PasteStage::Sending { keys: _ } => true,
            _ => false,
        };
        let head = if sent {
            "自动发送失败: "
        } else {
            "注入失败: "
        };
        let reason = head.to_owned().concat(message);
        PasteRun { stage: copied_only_because(reason.as_str()), ..self }
    }
}

/// With the setting off a paste never comes to the point where Enter is pressed.
pub proof fn enter_is_pressed_only_when_asked(run: PasteRun<'_>)
    requires
        run.wf(),
        run.spec_stage() is Sending,
    ensures
        run.auto_send(),
{
}

/// What the caller does next on the way into a chosen target, or how it ended.
pub enum TargetStage<'a> {
    /// Put the payload on the clipboard.
    Writing { payload: ClipboardPayload<'a> },
    /// Bring the window to the foreground within the budget, and let it rest.
    Activating { window: WindowHandle, budget_ms: u64, settle_ms: u64 },
    /// Get the focus into the input box.
    Focusing { window: WindowHandle },
    /// Look for the input box within the budget.
    Probing { window: WindowHandle, budget_ms: u64 },
    /// Look for what stands in the way.
    CheckingBlockers { window: WindowHandle },
    /// Ask whether the window is still there.
    CheckingAlive { window: WindowHandle },
    /// Ask which window is in the foreground.
    ReadingForeground,
    /// Ask whose the window in the foreground is.
    Relating { foreground: WindowHandle, window: WindowHandle },
    /// Bring the window to the foreground once more.
    Reasserting { window: WindowHandle, budget_ms: u64 },
    /// Ask once more which window is in the foreground.
    RereadingForeground,
    /// Send these keys.
    Injecting { keys: Vec<u16> },
    Finished { outcome: TargetPasteOutcome },
}

/// What has been found out on the way.
pub struct Findings {
    pub written: bool,
    pub activated: bool,
    pub focus: Option<FocusOutcome>,
    /// A click on the point was seen to take effect.
    pub click_observed: bool,
    pub signal: Option<ReadinessSignal>,
    pub alive: Option<bool>,
    pub foreground: Option<WindowHandle>,
    pub relation: Option<ForegroundRelation>,
    pub reasserted: bool,
    /// The window in the foreground after the second attempt.
    pub regained: Option<WindowHandle>,
}

/// A paste into a chosen target.
pub struct TargetRun<'a> {
    label: String,
    target: Option<TargetBinding>,
    readiness: ReadinessMode,
    settle_ms: u64,
    would_send: bool,
    found: Findings,
    stage: TargetStage<'a>,
}

impl Findings {
    pub open spec fn nothing(self) -> bool {
        &&& !self.written
        &&& !self.activated
        &&& self.focus is None
        &&& !self.click_observed
        &&& self.signal is None
        &&& self.alive is None
        &&& self.foreground is None
        &&& self.relation is None
        &&& !self.reasserted
        &&& self.regained is None
    }

    /// The focus is known to be in an input box.
    pub open spec fn focus_proven(self) -> bool {
        ||| self.focus == Some(FocusOutcome::AlreadyEditable)
        ||| self.focus == Some(FocusOutcome::FocusedByUia)
        ||| self.click_observed
    }

    /// It is certain that the keys meet an input box.
    pub open spec fn verified(self) -> bool {
        match self.signal {
            Some(ReadinessSignal::Ready) => true,
            Some(ReadinessSignal::Inconclusive) => self.focus_proven(),
            _ => false,
        }
    }

    /// The window took the focus as the mode asks.
    pub open spec fn focus_passes(self, readiness: ReadinessMode) -> bool {
        &&& self.focus is Some
        &&& readiness == ReadinessMode::UiaStrict ==> self.focus != Some(FocusOutcome::Unavailable)
    }

    /// What was found of the input box is enough for the mode.
    pub open spec fn signal_passes(self, readiness: ReadinessMode) -> bool {
        match self.signal {
            Some(ReadinessSignal::Ready) => true,
            Some(ReadinessSignal::Inconclusive) => readiness != ReadinessMode::UiaStrict,
            _ => false,
        }
    }

    /// The window is in the foreground, or was lost to a window of this program or of the
    /// target and came back.
    pub open spec fn foreground_passes(self, window: WindowHandle) -> bool {
        ||| self.foreground == Some(window)
        ||| {
            &&& self.relation == Some(ForegroundRelation::OwnProcess) || self.relation == Some(
                ForegroundRelation::SameAsTarget,
            )
            &&& self.reasserted
            &&& self.regained == Some(window)
        }
    }
}

impl<'a> TargetStage<'a> {
    /// The asset is on the clipboard and was not pasted.
    pub open spec fn copied_because(
        self,
        label: Seq<char>,
        reason: NotReadyReason,
        note: Seq<char>,
    ) -> bool {
        self matches TargetStage::Finished {
            outcome: TargetPasteOutcome::CopiedOnly { feedback },
        } && feedback.tells_not_ready(label, reason, note)
    }

    /// The asset is not even on the clipboard.
    pub open spec fn failed_because(self, label: Seq<char>, note: Seq<char>) -> bool {
        self matches TargetStage::Finished {
            outcome: TargetPasteOutcome::Failed { feedback },
        } && feedback.tells_failed(label, note)
    }
}

fn copied_only<'a>(target_label: &str, reason: NotReadyReason, diagnostic: &str) -> (r: TargetStage<
    'a,
>)
    ensures
        r.copied_because(target_label@, reason, diagnostic@),
{
    let feedback = PasteFeedback::not_ready(target_label, reason).with_diagnostic(diagnostic);
    TargetStage::Finished { outcome: TargetPasteOutcome::CopiedOnly { feedback } }
}

impl<'a> TargetRun<'a> {
    pub closed spec fn spec_stage(&self) -> TargetStage<'a> {
        self.stage
    }

    pub closed spec fn found(&self) -> Findings {
        self.found
    }

    pub closed spec fn label(&self) -> Seq<char> {
        self.label@
    }

    pub closed spec fn target(&self) -> Option<TargetBinding> {
        self.target
    }

    pub closed spec fn readiness(&self) -> ReadinessMode {
        self.readiness
    }

    pub closed spec fn settle_ms(&self) -> u64 {
        self.settle_ms
    }

    pub closed spec fn would_send(&self) -> bool {
        self.would_send
    }

    /// The window of the target.
    pub open spec fn window(&self) -> Option<WindowHandle> {
        match self.target() {
            Some(binding) => binding.hwnd,
            None => None,
        }
    }

    /// The name that the user knows the target by.
    pub open spec fn target_label(&self) -> Seq<char> {
        match self.target() {
            Some(binding) => binding.label@,
            None => self.label(),
        }
    }

    pub open spec fn continues(&self, before: &TargetRun<'a>) -> bool {
        &&& self.label() == before.label()
        &&& self.target() == before.target()
        &&& self.readiness() == before.readiness()
        &&& self.settle_ms() == before.settle_ms()
        &&& self.would_send() == before.would_send()
    }

    /// The gates that a paste has passed when it comes to the given stage.
    pub open spec fn gates_passed(&self) -> bool {
        let found = self.found();
        match self.spec_stage() {
            TargetStage::Writing { .. } => found.nothing(),
            TargetStage::Activating { window, .. } => found.written && !self.would_send()
                && self.window() == Some(window),
            TargetStage::Focusing { window } => found.written && !self.would_send()
                && self.window() == Some(window) && found.activated,
            TargetStage::Probing { window, .. } => found.written && !self.would_send()
                && self.window() == Some(window) && found.activated && found.focus_passes(
                self.readiness(),
            ),
            TargetStage::CheckingBlockers { window } => found.written && !self.would_send()
                && self.window() == Some(window) && found.activated && found.focus_passes(
                self.readiness(),
            ),
            TargetStage::CheckingAlive { window } => self.readiness_passed() && self.window()
                == Some(window),
            TargetStage::ReadingForeground => self.readiness_passed() && found.alive is Some,
            TargetStage::Relating { foreground, window } => self.readiness_passed() && found.alive
                == Some(true) && found.foreground == Some(foreground) && self.window() == Some(
                window,
            ) && foreground != window,
            TargetStage::Reasserting { window, .. } => self.readiness_passed() && found.alive
                == Some(true) && self.window() == Some(window) && (found.relation == Some(
                ForegroundRelation::OwnProcess,
            ) || found.relation == Some(ForegroundRelation::SameAsTarget)),
            TargetStage::RereadingForeground => self.readiness_passed() && found.alive == Some(true)
                && found.reasserted && (found.relation == Some(ForegroundRelation::OwnProcess)
                || found.relation == Some(ForegroundRelation::SameAsTarget)),
            TargetStage::Injecting { keys } => self.all_gates_passed() && keys@ == paste_chord(),
            TargetStage::Finished { outcome } => match outcome {
                TargetPasteOutcome::Injected { verified } => self.all_gates_passed() && verified
                    == found.verified(),
                TargetPasteOutcome::CopiedOnly { .. } => found.written,
                TargetPasteOutcome::Failed { .. } => !found.written,
            },
        }
    }

    pub open spec fn readiness_passed(&self) -> bool {
        let found = self.found();
        &&& found.written
        &&& !self.would_send()
        &&& self.window() is Some
        &&& found.activated
        &&& found.focus_passes(self.readiness())
        &&& found.signal_passes(self.readiness())
    }

    pub open spec fn all_gates_passed(&self) -> bool {
        &&& self.readiness_passed()
        &&& self.found().alive == Some(true)
        &&& self.found().foreground_passes(self.window()->0)
    }

    /// The invariant: no stage is reached but through its gates.
    pub closed spec fn wf(&self) -> bool {
        self.gates_passed()
    }

    /// What to do next.
    pub fn stage(&self) -> (r: &TargetStage<'a>)
        ensures
            *r == self.spec_stage(),
    {
        &self.stage
    }

    fn label_for_user(&self) -> (r: String)
        ensures
            r@ == self.target_label(),
    {
        match &self.target {
            Some(binding) => binding.label.clone(),
            None => self.label.clone(),
        }
    }

    /// Begins a paste. An asset that no format of the target holds goes no further.
    pub fn start(session: &PasteSession, req: &'a AssetPayload<'a>, profile: &Profile) -> (r:
        TargetRun<'a>)
        ensures
            r.wf(),
            r.target() == session.spec_target(),
            r.label() == match session.spec_target() {
                Some(binding) => binding.label@,
                None => profile.label@,
            },
            r.readiness() == profile.readiness,
            r.settle_ms() == profile.settle_ms,
            match chosen(*req, profile) {
                (Some(format), safe) => {
                    &&& r.would_send() == !safe
                    &&& r.found().nothing()
                    &&& r.spec_stage() matches TargetStage::Writing { payload } && payload_of(
                        payload,
                        *req,
                        format,
                    )
                },
                (None, _) => r.spec_stage().failed_because(
                    r.label(),
                    "画像声明的剪贴板格式均无法承载当前素材"@,
                ),
            },
    {
        let target = match &session.target {
            Some(binding) => Some(binding.copy()),
            None => None,
        };
        let label = match &session.target {
            Some(binding) => binding.label.clone(),
            None => profile.label.clone(),
        };
        let (stage, would_send) = match negotiate_detailed(req, profile) {
            Negotiated::Safe { format: _, payload } => (TargetStage::Writing { payload }, false),
            Negotiated::WouldSend { format: _, payload } => (TargetStage::Writing { payload }, true),
            Negotiated::Unsupported => {
                let feedback = PasteFeedback::failed(
                    label.as_str(),
                    "画像声明的剪贴板格式均无法承载当前素材",
                );
                (
                    TargetStage::Finished { outcome: TargetPasteOutcome::Failed { feedback } },
                    false,
                )
            },
        };
        TargetRun {
            label,
            target,
            readiness: profile.readiness,
            settle_ms: profile.settle_ms,
            would_send,
            found: Findings {
                written: false,
                activated: false,
                focus: None,
                click_observed: false,
                signal: None,
                alive: None,
                foreground: None,
                relation: None,
                reasserted: false,
                regained: None,
            },
            stage,
        }
    }

    /// The asset is on the clipboard. Where pasting would send it, or there is no window
    /// to paste into, that is all.
    pub fn written(self) -> (r: TargetRun<'a>)
        requires
            self.wf(),
            self.spec_stage() is Writing,
        ensures
            r.wf(),
            r.continues(&self),
            r.found() == (Findings { written: true, ..self.found() }),
            if self.would_send() {
                r.spec_stage().copied_because(
                    self.label(),
                    NotReadyReason::PasteWouldSend,
                    "该目标对此格式的粘贴等于直接发送，按只上框红线中止注入"@,
                )
            } else {
                match self.target() {
                    None => r.spec_stage().copied_because(
                        self.label(),
                        NotReadyReason::NoTarget,
                        "没有已锁定的热目标"@,
                    ),
                    Some(binding) => match binding.hwnd {
                        None => r.spec_stage().copied_because(
                            binding.label@,
                            NotReadyReason::WindowGone,
                            "目标身份存在但当前没有窗口绑定"@,
                        ),
                        Some(window) => r.spec_stage() == (TargetStage::Activating {
                            window,
                            budget_ms: ACTIVATE_BUDGET_MS,
                            settle_ms: self.settle_ms(),
                        }),
                    },
                }
            },
    {
        let stage = if self.would_send {
            copied_only(
                self.label.as_str(),
                NotReadyReason::PasteWouldSend,
                "该目标对此格式的粘贴等于直接发送，按只上框红线中止注入",
            )
        } else {
            match &self.target {
                None => copied_only(
                    self.label.as_str(),
                    NotReadyReason::NoTarget,
                    "没有已锁定的热目标",
                ),
                Some(binding) => match binding.hwnd {
                    None => copied_only(
                        binding.label.as_str(),
                        NotReadyReason::WindowGone,
                        "目标身份存在但当前没有窗口绑定",
                    ),
                    Some(window) => TargetStage::Activating {
                        window,
                        budget_ms: ACTIVATE_BUDGET_MS,
                        settle_ms: self.settle_ms,
                    },
                },
            }
        };
        TargetRun { found: Findings { written: true, ..self.found }, stage, ..self }
    }

    /// The asset could not be put on the clipboard.
    pub fn write_failed(self, message: &str) -> (r: TargetRun<'a>)
        requires
            self.wf(),
            self.spec_stage() is Writing,
        ensures
            r.wf(),
            r.continues(&self),
            r.found() == self.found(),
            r.spec_stage().failed_because(self.label(), message@),
    {
        let feedback = PasteFeedback::failed(self.label.as_str(), message);
        TargetRun {
            stage: TargetStage::Finished { outcome: TargetPasteOutcome::Failed { feedback } },
            ..self
        }
    }

    /// Whether the window came to the foreground in time.
    pub fn activated(self, in_time: bool) -> (r: TargetRun<'a>)
        requires
            self.wf(),
            self.spec_stage() is Activating,
        ensures
            r.wf(),
            r.continues(&self),
            r.found() == (Findings { activated: in_time, ..self.found() }),
            in_time ==> (r.spec_stage() matches TargetStage::Focusing { window } && Some(window)
                == self.window()),
            !in_time ==> r.spec_stage().copied_because(
                self.target_label(),
                NotReadyReason::Starting,
                "目标窗口未在 200ms 内成为前台"@,
            ),
    {
        let stage = match &self.stage {
            TargetStage::Activating { window, .. } if in_time => TargetStage::Focusing {
                window: *window,
            },
            _ => copied_only(
                self.label_for_user().as_str(),
                NotReadyReason::Starting,
                "目标窗口未在 200ms 内成为前台",
            ),
        };
        TargetRun { found: Findings { activated: in_time, ..self.found }, stage, ..self }
    }

    /// The window could not be brought to the foreground at all.
    pub fn activate_failed(self, message: &str) -> (r: TargetRun<'a>)
        requires
            self.wf(),
            self.spec_stage() is Activating,
        ensures
            r.wf(),
            r.continues(&self),
            r.found() == self.found(),
            r.spec_stage().copied_because(
                self.target_label(),
                NotReadyReason::WindowGone,
                message@,
            ),
    {
        let stage = copied_only(
            self.label_for_user().as_str(),
            NotReadyReason::WindowGone,
            message,
        );
        TargetRun { stage, ..self }
    }

    /// How the focus got into the input box. In the strict mode it has to.
    pub fn focused(self, outcome: FocusOutcome, click_observed: bool) -> (r: TargetRun<'a>)
        requires
            self.wf(),
            self.spec_stage() is Focusing,
        ensures
            r.wf(),
            r.continues(&self),
            r.found() == (Findings { focus: Some(outcome), click_observed, ..self.found() }),
            match (self.readiness(), outcome) {
                (ReadinessMode::UiaStrict, FocusOutcome::Unavailable) =>
                    r.spec_stage().copied_because(
                    self.target_label(),
                    NotReadyReason::ProbeUnavailable,
                    "未能把键盘焦点送进输入框，按严格就绪模式中止注入"@,
                ),
                (ReadinessMode::UiaStrict, _) => r.spec_stage() matches TargetStage::Probing {
                    window,
                    budget_ms,
                } && Some(window) == self.window() && budget_ms == PROBE_BUDGET_MS,
                _ => r.spec_stage() matches TargetStage::CheckingBlockers { window } && Some(window)
                    == self.window(),
            },
    {
        let strict = self.readiness == ReadinessMode::UiaStrict;
        let stage = match &self.stage {
            TargetStage::Focusing { window } => if strict && outcome == FocusOutcome::Unavailable {
                copied_only(
                    self.label_for_user().as_str(),
                    NotReadyReason::ProbeUnavailable,
                    "未能把键盘焦点送进输入框，按严格就绪模式中止注入",
                )
            } else if strict {
                TargetStage::Probing { window: *window, budget_ms: PROBE_BUDGET_MS }
            } else {
                TargetStage::CheckingBlockers { window: *window }
            },
            _ => TargetStage::ReadingForeground,
        };
        TargetRun {
            found: Findings { focus: Some(outcome), click_observed, ..self.found },
            stage,
            ..self
        }
    }

    /// What looking for the input box, or for what stands in its way, brought.
    pub fn signalled(self, signal: ReadinessSignal) -> (r: TargetRun<'a>)
        requires
            self.wf(),
            self.spec_stage() is Probing || self.spec_stage() is CheckingBlockers,
        ensures
            r.wf(),
            r.continues(&self),
            r.found() == (Findings { signal: Some(signal), ..self.found() }),
            match signal {
                ReadinessSignal::Blocked(blocker) => r.spec_stage().copied_because(
                    self.target_label(),
                    blocker_reason(blocker),
                    "输入框就绪度探测明确否证"@,
                ),
                ReadinessSignal::Inconclusive if self.readiness() == ReadinessMode::UiaStrict =>
                    r.spec_stage().copied_because(
                    self.target_label(),
                    NotReadyReason::ProbeUnavailable,
                    "UIA 未证明当前存在可写输入框，按严格就绪模式中止注入"@,
                ),
                _ => r.spec_stage() matches TargetStage::CheckingAlive { window } && Some(window)
                    == self.window(),
            },
    {
        let strict = self.readiness == ReadinessMode::UiaStrict;
        let window: WindowHandle = match &self.stage {
            TargetStage::Probing { window, .. } => *window,
            TargetStage::CheckingBlockers { window } => *window,
            _ => WindowHandle(0),
        };
        let stage = match signal {
            ReadinessSignal::Blocked(blocker) => copied_only(
                self.label_for_user().as_str(),
                map_blocker(blocker),
                "输入框就绪度探测明确否证",
            ),
            ReadinessSignal::Inconclusive => if strict {
                copied_only(
                    self.label_for_user().as_str(),
                    NotReadyReason::ProbeUnavailable,
                    "UIA 未证明当前存在可写输入框，按严格就绪模式中止注入",
                )
            } else {
                TargetStage::CheckingAlive { window }
            },
            ReadinessSignal::Ready => TargetStage::CheckingAlive { window },
        };
        TargetRun { found: Findings { signal: Some(signal), ..self.found }, stage, ..self }
    }

    /// Whether the window is still there.
    pub fn alive_checked(self, alive: bool) -> (r: TargetRun<'a>)
        requires
            self.wf(),
            self.spec_stage() is CheckingAlive,
        ensures
            r.wf(),
            r.continues(&self),
            r.found() == (Findings { alive: Some(alive), ..self.found() }),
            r.spec_stage() is ReadingForeground,
    {
        TargetRun {
            found: Findings { alive: Some(alive), ..self.found },
            stage: TargetStage::ReadingForeground,
            ..self
        }
    }

    /// Which window is in the foreground. A window that is gone is not pasted into; one
    /// that is not in the foreground may come back.
    pub fn foreground_read(self, foreground: WindowHandle) -> (r: TargetRun<'a>)
        requires
            self.wf(),
            self.spec_stage() is ReadingForeground,
        ensures
            r.wf(),
            r.continues(&self),
            r.found() == (Findings { foreground: Some(foreground), ..self.found() }),
            if self.found().alive != Some(true) {
                r.spec_stage().copied_because(
                    self.target_label(),
                    NotReadyReason::WindowGone,
                    "注入前目标窗口已失活"@,
                )
            } else if self.window() == Some(foreground) {
                r.spec_stage() matches TargetStage::Injecting { keys } && keys@ == paste_chord()
            } else {
                r.spec_stage() matches TargetStage::Relating { foreground: seen, window } && seen
                    == foreground && Some(window) == self.window()
            },
    {
        let alive = match self.found.alive {
            Some(alive) => alive,
            None => false,
        };
        let window: WindowHandle = match &self.target {
            Some(binding) => match binding.hwnd {
                Some(window) => window,
                None => foreground,
            },
            None => foreground,
        };
        let stage = if !alive {
            copied_only(
                self.label_for_user().as_str(),
                NotReadyReason::WindowGone,
                "注入前目标窗口已失活",
            )
        } else if window == foreground {
            TargetStage::Injecting { keys: chord_paste() }
        } else {
            TargetStage::Relating { foreground, window }
        };
        TargetRun { found: Findings { foreground: Some(foreground), ..self.found }, stage, ..self }
    }

    /// Whose the window in the foreground is. From another program the foreground is not
    /// taken back.
    pub fn related(self, relation: ForegroundRelation) -> (r: TargetRun<'a>)
        requires
            self.wf(),
            self.spec_stage() is Relating,
        ensures
            r.wf(),
            r.continues(&self),
            r.found() == (Findings { relation: Some(relation), ..self.found() }),
            relation == ForegroundRelation::Foreign ==> r.spec_stage().copied_because(
                self.target_label(),
                NotReadyReason::ForegroundLost,
                "注入前前台被第三方窗口占据"@,
            ),
            relation != ForegroundRelation::Foreign ==> (
            r.spec_stage() matches TargetStage::Reasserting { window, budget_ms } && Some(window)
                == self.window() && budget_ms == FOREGROUND_REASSERT_BUDGET_MS),
    {
        let stage = match &self.stage {
            TargetStage::Relating { foreground: _, window } if relation
                != ForegroundRelation::Foreign => TargetStage::Reasserting {
                window: *window,
                budget_ms: FOREGROUND_REASSERT_BUDGET_MS,
            },
            _ => copied_only(
                self.label_for_user().as_str(),
                NotReadyReason::ForegroundLost,
                "注入前前台被第三方窗口占据",
            ),
        };
        TargetRun { found: Findings { relation: Some(relation), ..self.found }, stage, ..self }
    }

    fn lost_for_good(self) -> (r: TargetRun<'a>)
        requires
            self.found().written,
        ensures
            r.wf(),
            r.continues(&self),
            r.found() == self.found(),
            r.spec_stage().copied_because(
                self.target_label(),
                NotReadyReason::ForegroundLost,
                "前台再断言后仍未回到目标窗口"@,
            ),
    {
        let stage = copied_only(
            self.label_for_user().as_str(),
            NotReadyReason::ForegroundLost,
            "前台再断言后仍未回到目标窗口",
        );
        TargetRun { stage, ..self }
    }

    /// Whether the window came to the foreground on the second attempt.
    pub fn reasserted(self, in_time: bool) -> (r: TargetRun<'a>)
        requires
            self.wf(),
            self.spec_stage() is Reasserting,
        ensures
            r.wf(),
            r.continues(&self),
            r.found() == (Findings { reasserted: in_time, ..self.found() }),
            in_time ==> r.spec_stage() is RereadingForeground,
            !in_time ==> r.spec_stage().copied_because(
                self.target_label(),
                NotReadyReason::ForegroundLost,
                "前台再断言后仍未回到目标窗口"@,
            ),
    {
        let found = Findings { reasserted: in_time, ..self.found };
        let run = TargetRun { found, ..self };
        if in_time {
            TargetRun { stage: TargetStage::RereadingForeground, ..run }
        } else {
            run.lost_for_good()
        }
    }

    /// Which window is in the foreground after the second attempt.
    pub fn foreground_reread(self, foreground: WindowHandle) -> (r: TargetRun<'a>)
        requires
            self.wf(),
            self.spec_stage() is RereadingForeground,
        ensures
            r.wf(),
            r.continues(&self),
            r.found() == (Findings { regained: Some(foreground), ..self.found() }),
            self.window() == Some(foreground) ==> (r.spec_stage() matches TargetStage::Injecting {
                keys,
            } && keys@ == paste_chord()),
            self.window() != Some(foreground) ==> r.spec_stage().copied_because(
                self.target_label(),
                NotReadyReason::ForegroundLost,
                "前台再断言后仍未回到目标窗口"@,
            ),
    {
        let back = match &self.target {
            Some(binding) => match binding.hwnd {
                Some(window) => window == foreground,
                None => false,
            },
            None => false,
        };
        let found = Findings { regained: Some(foreground), ..self.found };
        let run = TargetRun { found, ..self };
        if back {
            TargetRun { stage: TargetStage::Injecting { keys: chord_paste() }, ..run }
        } else {
            run.lost_for_good()
        }
    }

    /// The keys were sent.
    pub fn injected(self) -> (r: TargetRun<'a>)
        requires
            self.wf(),
            self.spec_stage() is Injecting,
        ensures
            r.wf(),
            r.continues(&self),
            r.found() == self.found(),
            r.spec_stage() == (TargetStage::Finished {
                outcome: TargetPasteOutcome::Injected { verified: self.found().verified() },
            }),
            r.spec_stage() matches TargetStage::Finished {
                outcome: TargetPasteOutcome::Injected { verified },
            } && verified == (self.found().signal == Some(ReadinessSignal::Ready) || (
            self.found().signal == Some(ReadinessSignal::Inconclusive) && (self.found().focus
                == Some(FocusOutcome::AlreadyEditable) || self.found().focus == Some(
                FocusOutcome::FocusedByUia,
            ) || self.found().click_observed))),
    {
        let proven = match self.found.focus {
            Some(FocusOutcome::AlreadyEditable) => true,
            Some(FocusOutcome::FocusedByUia) => true,
            _ => self.found.click_observed,
        };
        let verified = match self.found.signal {
            Some(ReadinessSignal::Ready) => true,
            Some(ReadinessSignal::Inconclusive) => proven,
            _ => false,
        };
        TargetRun {
            stage: TargetStage::Finished { outcome: TargetPasteOutcome::Injected { verified } },
            ..self
        }
    }

    /// The keys could not be sent.
    pub fn inject_failed(self, message: &str) -> (r: TargetRun<'a>)
        requires
            self.wf(),
            self.spec_stage() is Injecting,
        ensures
            r.wf(),
            r.continues(&self),
            r.found() == self.found(),
            r.spec_stage() matches TargetStage::Finished {
                outcome: TargetPasteOutcome::CopiedOnly { feedback },
            } && feedback.tells_copied(
                self.target_label(),
                "系统拒绝向目标输入，请在目标应用中手动粘贴"@,
                FeedbackAction::Retry,
            ) && (feedback.diagnostic matches Some(text) && text@ == message@),
    {
        let feedback = PasteFeedback::copied(
            self.label_for_user().as_str(),
            "系统拒绝向目标输入，请在目标应用中手动粘贴",
            FeedbackAction::Retry,
        ).with_diagnostic(message);
        TargetRun {
            stage: TargetStage::Finished { outcome: TargetPasteOutcome::CopiedOnly { feedback } },
            ..self
        }
    }
}

/// Keys are sent to a target only when the asset is on the clipboard, pasting does not
/// send it, the window was activated and the focus is where the target asks for it, the
/// window is there and in the foreground, and nothing is known to stand in the way of
/// input; and the keys are those of a paste, without Enter.
pub proof fn keys_are_sent_only_through_every_gate(run: TargetRun<'_>, keys: Vec<u16>)
    requires
        run.wf(),
        run.spec_stage() == (TargetStage::Injecting { keys }),
    ensures
        run.found().written,
        !run.would_send(),
        run.found().activated,
        run.found().focus_passes(run.readiness()),
        run.found().alive == Some(true),
        run.window() matches Some(window) && run.found().foreground_passes(window),
        run.found().signal_passes(run.readiness()),
        keys@ == paste_chord(),
        forall|i: int| 0 <= i < keys@.len() ==> !is_enter(#[trigger] keys@[i]),
{
    assert forall|i: int| 0 <= i < keys@.len() implies !is_enter(#[trigger] keys@[i]) by {
        paste_chord_has_no_enter(i);
    }
}

/// The clipboard comes first: before the asset is on it nothing else is touched.
pub proof fn clipboard_comes_first(run: TargetRun<'_>)
    requires
        run.wf(),
        !run.found().written,
    ensures
        run.spec_stage() is Writing || (run.spec_stage() matches TargetStage::Finished {
            outcome: TargetPasteOutcome::Failed { .. },
        }),
{
}

/// A paste that did not reach the input box leaves the asset on the clipboard, unless it
/// failed as a whole.
pub proof fn degraded_paste_leaves_a_copy(run: TargetRun<'_>, feedback: PasteFeedback)
    requires
        run.wf(),
        run.spec_stage() == (TargetStage::Finished {
            outcome: TargetPasteOutcome::CopiedOnly { feedback },
        }),
    ensures
        run.found().written,
{
}

/// What a target is offered as safe stands in its list of formats for the kind and not in its
/// list of formats that it sends; and wherever there is such a format that the asset fills,
/// one is offered.
pub proof fn safe_formats_stand_in_no_send_list(
    req: AssetPayload<'_>,
    profile: &Profile,
    result: Negotiated<'_>,
    other: ClipboardFormat,
)
    requires
        agrees(result, req, profile),
    ensures
        result matches Negotiated::Safe { format, payload } ==> {
            &&& match req.kind {
                AssetKind::Image => profile.formats.image@.contains(format),
                AssetKind::Video => profile.formats.video@.contains(format),
                AssetKind::Text => profile.formats.text@.contains(format),
                AssetKind::Other => profile.formats.other@.contains(format),
            }
            &&& match profile.paste_sends {
                SendPolicy::AllKinds(sent) => !sent@.contains(format),
                SendPolicy::PerKind(sent) => match req.kind {
                    AssetKind::Image => !sent.image@.contains(format),
                    AssetKind::Video => !sent.video@.contains(format),
                    AssetKind::Text => !sent.text@.contains(format),
                    AssetKind::Other => !sent.other@.contains(format),
                },
            }
        },
        result matches Negotiated::WouldSend { format, payload } ==> match profile.paste_sends {
            SendPolicy::AllKinds(sent) => sent@.contains(format),
            SendPolicy::PerKind(sent) => match req.kind {
                AssetKind::Image => sent.image@.contains(format),
                AssetKind::Video => sent.video@.contains(format),
                AssetKind::Text => sent.text@.contains(format),
                AssetKind::Other => sent.other@.contains(format),
            },
        },
        (match req.kind {
            AssetKind::Image => profile.formats.image@.contains(other),
            AssetKind::Video => profile.formats.video@.contains(other),
            AssetKind::Text => profile.formats.text@.contains(other),
            AssetKind::Other => profile.formats.other@.contains(other),
        }) && (match profile.paste_sends {
            SendPolicy::AllKinds(sent) => !sent@.contains(other),
            SendPolicy::PerKind(sent) => match req.kind {
                AssetKind::Image => !sent.image@.contains(other),
                AssetKind::Video => !sent.video@.contains(other),
                AssetKind::Text => !sent.text@.contains(other),
                AssetKind::Other => !sent.other@.contains(other),
            },
        }) && (match other {
            ClipboardFormat::Png => req.png_bytes@.len() > 0,
            ClipboardFormat::Files => req.source_path@.len() > 0,
            ClipboardFormat::Text => req.text@.len() > 0,
            ClipboardFormat::Dib => false,
        }) ==> result is Safe,
{
    negotiation_picks_the_first_safe_format(req, profile, result);
    if let Negotiated::Safe { format, payload } = result {
        safe_format_never_sends(req, profile, format);
    }
    if profile.formats.listed(req.kind).contains(other) && carries(req, other)
        && !profile.paste_sends.triggers(req.kind, other) {
        safe_format_is_found_where_there_is_one(req, profile, other);
    }
}

/// The keys of a paste are Ctrl and V, pressed in this order and released in the other; those
/// that send are Enter alone. A window has 200 milliseconds to come to the foreground, 100 to
/// come back, and its input box is looked for within 50.
pub proof fn keys_and_budgets_of_a_paste()
    ensures
        paste_chord() == seq![0x11u16, 0x56u16, 0x8056u16, 0x8011u16],
        enter_chord() == seq![0x0Du16, 0x800Du16],
        ACTIVATE_BUDGET_MS == 200,
        FOREGROUND_REASSERT_BUDGET_MS == 100,
        PROBE_BUDGET_MS == 50,
{
}

/// When keys are sent to a target, its window was activated; in the strict mode the focus was
/// got into the input box and the box was seen, in the others nothing was seen against it; and
/// the window is there and in the foreground, or was lost to this program or to the target
/// itself and came back.
pub proof fn what_is_known_when_keys_are_sent(run: TargetRun<'_>, keys: Vec<u16>)
    requires
        run.wf(),
        run.spec_stage() == (TargetStage::Injecting { keys }),
    ensures
        run.target() matches Some(binding) && binding.hwnd is Some,
        run.found().focus is Some,
        run.readiness() == ReadinessMode::UiaStrict ==> run.found().focus != Some(
            FocusOutcome::Unavailable,
        ) && run.found().signal == Some(ReadinessSignal::Ready),
        run.found().signal == Some(ReadinessSignal::Ready) || run.found().signal == Some(
            ReadinessSignal::Inconclusive,
        ),
        run.found().foreground == run.target()->0.hwnd || ((run.found().relation == Some(
            ForegroundRelation::OwnProcess,
        ) || run.found().relation == Some(ForegroundRelation::SameAsTarget))
            && run.found().reasserted && run.found().regained == run.target()->0.hwnd),
        keys@ == seq![0x11u16, 0x56u16, 0x8056u16, 0x8011u16],
{
}

/// Nothing is sent to a target whose paste would send the asset, whatever its stage, once the
/// asset is on the clipboard.
pub proof fn sending_targets_are_only_copied_to(run: TargetRun<'_>)
    requires
        run.wf(),
        run.would_send(),
    ensures
        run.spec_stage() is Writing || run.spec_stage() is Finished,
        run.spec_stage() matches TargetStage::Finished { outcome } ==> !(outcome is Injected),
{
}

/// Each thing that stands in the way is told as what it is.
pub proof fn blockers_are_told_as_they_are(blocker: ReadinessBlocker)
    ensures
        blocker == ReadinessBlocker::NotLoggedIn <==> blocker_reason(blocker)
            == NotReadyReason::NotLoggedIn,
        blocker == ReadinessBlocker::NoConversation <==> blocker_reason(blocker)
            == NotReadyReason::NoConversation,
        blocker == ReadinessBlocker::ReadOnly <==> blocker_reason(blocker)
            == NotReadyReason::ReadOnly,
        blocker == ReadinessBlocker::ModalBlocking <==> blocker_reason(blocker)
            == NotReadyReason::ModalBlocking,
        blocker == ReadinessBlocker::Starting <==> blocker_reason(blocker)
            == NotReadyReason::Starting,
        blocker == ReadinessBlocker::WindowGone <==> blocker_reason(blocker)
            == NotReadyReason::WindowGone,
{
}

/// A run that was cut short tells the very reason it is given, and a later stage of a run is
/// about the same window, with the same settings.
pub proof fn stages_tell_what_they_are_given(
    stage: PasteStage<'_>,
    reason: Seq<char>,
    later: PasteRun<'_>,
    run: PasteRun<'_>,
)
    ensures
        stage.copied_because(reason) <==> (stage matches PasteStage::Finished {
            outcome: PasteOutcome::CopiedOnly { reason: text },
        } && text@ == reason),
        later.continues(run) <==> later.window() == run.window() && later.auto_send()
            == run.auto_send(),
{
}

/// The same of a run into a chosen target.
pub proof fn target_stages_tell_what_they_are_given(
    stage: TargetStage<'_>,
    label: Seq<char>,
    reason: NotReadyReason,
    note: Seq<char>,
    later: &TargetRun<'_>,
    run: &TargetRun<'_>,
)
    ensures
        stage.copied_because(label, reason, note) ==> (stage matches TargetStage::Finished {
            outcome: TargetPasteOutcome::CopiedOnly { feedback },
        } && feedback.tells_not_ready(label, reason, note)),
        stage.failed_because(label, note) ==> (stage matches TargetStage::Finished {
            outcome: TargetPasteOutcome::Failed { feedback },
        } && feedback.tells_failed(label, note)),
        later.continues(run) ==> later.target() == run.target() && later.label() == run.label()
            && later.readiness() == run.readiness() && later.settle_ms() == run.settle_ms()
            && later.would_send() == run.would_send(),
        run.target() matches Some(binding) ==> run.window() == binding.hwnd && run.target_label()
            == binding.label@,
        run.target() is None ==> run.window() is None && run.target_label() == run.label(),
{
}

} // verus!

//! Pasting into a chosen target.

use asset_shelf::domain::AssetKind;
use asset_shelf::feedback::FeedbackAction;
use asset_shelf::negotiate::{
    negotiate, negotiate_detailed, AssetPayload, ClipboardFormat, ClipboardPayload, KindFormats,
    Negotiated, SendPolicy,
};
use asset_shelf::paste::{
    FocusOutcome, FocusPlan, FocusStep, FocusStrategyStep, ForegroundRelation, InputAnchor,
    PasteConfig, PasteSession, Profile, ReadinessBlocker, ReadinessMode, ReadinessSignal,
    TargetBinding, TargetPasteOutcome, TargetRun, TargetStage, WindowHandle, KEY_UP, VK_RETURN,
};

#[derive(Debug, Clone, PartialEq, Eq)]
enum Op {
    Write,
    Activate,
    Focus,
    Probe,
    Blockers,
    Alive,
    Foreground,
    Inject(Vec<u16>),
}

const HWND: WindowHandle = WindowHandle(88);

fn profile() -> Profile {
    Profile {
        id: "wechat".to_string(),
        label: "微信".to_string(),
        formats: KindFormats::usual(),
        paste_sends: SendPolicy::PerKind(KindFormats::none()),
        readiness: ReadinessMode::UiaShallow,
        settle_ms: 80,
        focus_strategy: vec![
            FocusStrategyStep::Already,
            FocusStrategyStep::Uia,
            FocusStrategyStep::Anchor,
        ],
        input_anchor: None,
    }
}

fn payload(png: &[u8]) -> AssetPayload<'_> {
    AssetPayload {
        kind: AssetKind::Image,
        png_bytes: png,
        source_path: "C:/asset.png".to_string(),
        text: String::new(),
    }
}

fn video_payload() -> AssetPayload<'static> {
    AssetPayload {
        kind: AssetKind::Video,
        png_bytes: &[],
        source_path: "C:/asset.mp4".to_string(),
        text: String::new(),
    }
}

fn video_files_sends() -> SendPolicy {
    SendPolicy::PerKind(KindFormats { video: vec![ClipboardFormat::Files], ..KindFormats::none() })
}

/// The world around a paste.
struct World {
    signal: ReadinessSignal,
    focus: FocusOutcome,
    /// The windows in front, one for each time that is asked; the last one stays.
    foreground: Vec<WindowHandle>,
    relation: ForegroundRelation,
    seen_plan: Option<FocusPlan>,
}

impl World {
    fn new(signal: ReadinessSignal, foreground: WindowHandle) -> World {
        World {
            signal,
            focus: FocusOutcome::FocusedByAnchor,
            foreground: vec![foreground],
            relation: ForegroundRelation::Foreign,
            seen_plan: None,
        }
    }

    fn front(&mut self) -> WindowHandle {
        if self.foreground.len() > 1 {
            self.foreground.remove(0)
        } else {
            self.foreground[0]
        }
    }

    fn paste(
        &mut self,
        session: &PasteSession,
        req: &AssetPayload<'_>,
        profile: &Profile,
    ) -> (TargetPasteOutcome, Vec<Op>) {
        let mut ops = Vec::new();
        let mut run = TargetRun::start(session, req, profile);
        loop {
            run = match run.stage() {
                TargetStage::Writing { .. } => {
                    ops.push(Op::Write);
                    run.written()
                }
                TargetStage::Activating { .. } => {
                    ops.push(Op::Activate);
                    run.activated(true)
                }
                TargetStage::Focusing { .. } => {
                    ops.push(Op::Focus);
                    self.seen_plan = Some(profile.focus_plan());
                    run.focused(self.focus, false)
                }
                TargetStage::Probing { .. } => {
                    ops.push(Op::Probe);
                    run.signalled(self.signal)
                }
                TargetStage::CheckingBlockers { .. } => {
                    ops.push(Op::Blockers);
                    run.signalled(self.signal)
                }
                TargetStage::CheckingAlive { .. } => {
                    ops.push(Op::Alive);
                    run.alive_checked(true)
                }
                TargetStage::ReadingForeground => {
                    ops.push(Op::Foreground);
                    let front = self.front();
                    run.foreground_read(front)
                }
                TargetStage::Relating { .. } => run.related(self.relation),
                TargetStage::Reasserting { .. } => {
                    ops.push(Op::Activate);
                    run.reasserted(true)
                }
                TargetStage::RereadingForeground => {
                    ops.push(Op::Foreground);
                    let front = self.front();
                    run.foreground_reread(front)
                }
                TargetStage::Injecting { keys } => {
                    ops.push(Op::Inject(keys.clone()));
                    run.injected()
                }
                TargetStage::Finished { outcome } => return (outcome.clone(), ops),
            };
        }
    }
}

fn aimed(auto_send: bool, label: &str) -> PasteSession {
    let mut session = PasteSession::new(PasteConfig { auto_send });
    session.set_target(Some(TargetBinding::new("wechat", HWND, label)));
    session
}

fn run(
    signal: ReadinessSignal,
    foreground: WindowHandle,
    auto_send: bool,
) -> (TargetPasteOutcome, Vec<Op>) {
    run_with_mode(signal, foreground, auto_send, ReadinessMode::UiaShallow)
}

fn run_with_profile(profile: Profile, req: &AssetPayload<'_>) -> (TargetPasteOutcome, Vec<Op>) {
    World::new(ReadinessSignal::Ready, HWND).paste(&aimed(false, &profile.label), req, &profile)
}

fn run_with_mode(
    signal: ReadinessSignal,
    foreground: WindowHandle,
    auto_send: bool,
    readiness: ReadinessMode,
) -> (TargetPasteOutcome, Vec<Op>) {
    run_with_focus(signal, foreground, auto_send, readiness, FocusOutcome::FocusedByAnchor)
}

fn run_with_focus(
    signal: ReadinessSignal,
    foreground: WindowHandle,
    auto_send: bool,
    readiness: ReadinessMode,
    focus_outcome: FocusOutcome,
) -> (TargetPasteOutcome, Vec<Op>) {
    let mut world = World::new(signal, foreground);
    world.focus = focus_outcome;
    let mut profile = profile();
    profile.readiness = readiness;
    world.paste(&aimed(auto_send, "微信"), &payload(&[1, 2, 3]), &profile)
}

fn run_drift(
    relation: ForegroundRelation,
    drifted_fg: WindowHandle,
    final_fg: WindowHandle,
) -> (TargetPasteOutcome, Vec<Op>) {
    let mut world = World::new(ReadinessSignal::Ready, HWND);
    world.foreground = vec![drifted_fg, final_fg];
    world.relation = relation;
    world.paste(&aimed(false, "微信"), &payload(&[1, 2, 3]), &profile())
}

fn activate_count(ops: &[Op]) -> usize {
    ops.iter().filter(|op| **op == Op::Activate).count()
}

fn injects(ops: &[Op]) -> bool {
    ops.iter().any(|op| matches!(op, Op::Inject(_)))
}

fn has_enter(ops: &[Op]) -> bool {
    ops.iter().any(|op| match op {
        Op::Inject(keys) => keys.iter().any(|key| key & !KEY_UP == VK_RETURN),
        _ => false,
    })
}

#[test]
fn negotiate_honors_profile_ordered_format_fallback() {
    let mut profile = profile();
    profile.formats.image =
        vec![ClipboardFormat::Dib, ClipboardFormat::Files, ClipboardFormat::Png];
    let req = payload(&[1, 2, 3]);
    assert_eq!(
        negotiate(&req, &profile),
        Some(ClipboardPayload::Files(vec!["C:/asset.png".to_string()]))
    );
}

#[test]
fn not_ready_no_conversation_never_injects() {
    let (outcome, ops) =
        run(ReadinessSignal::Blocked(ReadinessBlocker::NoConversation), HWND, false);
    assert!(matches!(outcome, TargetPasteOutcome::CopiedOnly { .. }));
    assert!(!injects(&ops));
}

#[test]
fn unknown_readiness_injects_but_marks_unverified() {
    let (outcome, _) = run(ReadinessSignal::Inconclusive, HWND, false);
    assert_eq!(outcome, TargetPasteOutcome::Injected { verified: false });
}

#[test]
fn probe_timeout_falls_back_to_unknown_not_notready() {
    let (outcome, ops) = run(ReadinessSignal::Inconclusive, HWND, false);
    assert!(matches!(outcome, TargetPasteOutcome::Injected { .. }));
    assert!(injects(&ops));
}

#[test]
fn uia_strict_inconclusive_copies_without_injecting() {
    let (outcome, ops) =
        run_with_mode(ReadinessSignal::Inconclusive, HWND, false, ReadinessMode::UiaStrict);
    assert!(matches!(outcome, TargetPasteOutcome::CopiedOnly { .. }));
    assert!(!injects(&ops));
}

#[test]
fn foreground_drift_before_inject_aborts() {
    let (outcome, ops) = run(ReadinessSignal::Ready, WindowHandle(99), false);
    assert!(matches!(outcome, TargetPasteOutcome::CopiedOnly { .. }));
    assert!(!injects(&ops));
}

#[test]
fn foreground_drift_to_own_panel_reasserts_and_injects() {
    let (outcome, ops) = run_drift(ForegroundRelation::OwnProcess, WindowHandle(0xAB), HWND);
    assert_eq!(outcome, TargetPasteOutcome::Injected { verified: true });
    assert_eq!(activate_count(&ops), 2);
    assert!(injects(&ops));
}

#[test]
fn foreground_drift_within_target_process_reasserts_and_injects() {
    let (outcome, ops) = run_drift(ForegroundRelation::SameAsTarget, WindowHandle(77), HWND);
    assert_eq!(outcome, TargetPasteOutcome::Injected { verified: true });
    assert_eq!(activate_count(&ops), 2);
    assert!(injects(&ops));
}

#[test]
fn foreground_drift_to_foreign_window_degrades_without_reassert() {
    let (outcome, ops) =
        run_drift(ForegroundRelation::Foreign, WindowHandle(0xCC), WindowHandle(0xCC));
    assert!(matches!(outcome, TargetPasteOutcome::CopiedOnly { .. }));
    assert_eq!(activate_count(&ops), 1);
    assert!(!injects(&ops));
}

#[test]
fn foreground_that_does_not_come_back_leaves_a_copy() {
    let (outcome, ops) =
        run_drift(ForegroundRelation::OwnProcess, WindowHandle(0xAB), WindowHandle(0xCD));
    assert!(matches!(outcome, TargetPasteOutcome::CopiedOnly { .. }));
    assert_eq!(activate_count(&ops), 2);
    assert!(!injects(&ops));
}

#[test]
fn core_upload_path_never_synthesizes_enter() {
    let (outcome, ops) = run(ReadinessSignal::Ready, HWND, true);
    assert_eq!(outcome, TargetPasteOutcome::Injected { verified: true });
    assert!(!has_enter(&ops));
}

#[test]
fn targeted_pipeline_order_is_write_activate_probe_validate_inject() {
    let (_, ops) = run(ReadinessSignal::Ready, HWND, false);
    assert_eq!(
        ops,
        vec![
            Op::Write,
            Op::Activate,
            Op::Focus,
            Op::Blockers,
            Op::Alive,
            Op::Foreground,
            Op::Inject(vec![0x11, 0x56, 0x8056, 0x8011]),
        ]
    );
}

#[test]
fn focus_step_runs_between_activate_and_probe() {
    let (_, ops) = run(ReadinessSignal::Ready, HWND, false);
    let activate = ops.iter().position(|op| op == &Op::Activate).unwrap();
    let focus = ops.iter().position(|op| op == &Op::Focus).unwrap();
    let readiness =
        ops.iter().position(|op| matches!(op, Op::Probe | Op::Blockers)).unwrap();
    assert!(activate < focus && focus < readiness, "{ops:?}");

    let (_, strict) = run_with_mode(ReadinessSignal::Ready, HWND, false, ReadinessMode::UiaStrict);
    let activate = strict.iter().position(|op| op == &Op::Activate).unwrap();
    let focus = strict.iter().position(|op| op == &Op::Focus).unwrap();
    let probe = strict.iter().position(|op| op == &Op::Probe).unwrap();
    assert!(activate < focus && focus < probe, "{strict:?}");
}

#[test]
fn focus_step_never_injects_keys_before_paste_chord() {
    let (_, ops) = run(ReadinessSignal::Ready, HWND, false);
    let injects: Vec<Vec<u16>> = ops
        .iter()
        .filter_map(|op| match op {
            Op::Inject(keys) => Some(keys.clone()),
            _ => None,
        })
        .collect();
    assert_eq!(injects, vec![vec![0x11, 0x56, 0x8056, 0x8011]]);
    assert!(!has_enter(&ops));
}

#[test]
fn focus_unavailable_still_injects_but_marks_unverified() {
    let (outcome, ops) = run_with_focus(
        ReadinessSignal::Inconclusive,
        HWND,
        false,
        ReadinessMode::UiaShallow,
        FocusOutcome::Unavailable,
    );
    assert_eq!(outcome, TargetPasteOutcome::Injected { verified: false });
    assert!(injects(&ops));
}

#[test]
fn confirmed_focus_upgrades_inconclusive_probe_to_verified() {
    let (outcome, _) = run_with_focus(
        ReadinessSignal::Inconclusive,
        HWND,
        false,
        ReadinessMode::UiaShallow,
        FocusOutcome::AlreadyEditable,
    );
    assert_eq!(outcome, TargetPasteOutcome::Injected { verified: true });
}

#[test]
fn uia_strict_aborts_when_focus_unavailable() {
    let (outcome, ops) = run_with_focus(
        ReadinessSignal::Ready,
        HWND,
        false,
        ReadinessMode::UiaStrict,
        FocusOutcome::Unavailable,
    );
    assert!(matches!(outcome, TargetPasteOutcome::CopiedOnly { .. }));
    assert!(!injects(&ops));
    assert!(!ops.iter().any(|op| op == &Op::Probe));
}

#[test]
fn profile_anchor_is_forwarded_to_focuser_verbatim() {
    let mut profile = profile();
    profile.input_anchor = Some(InputAnchor {
        x_ratio_bits: 0.394f32.to_bits(),
        y_ratio_bits: 0.787f32.to_bits(),
    });
    let mut world = World::new(ReadinessSignal::Ready, HWND);
    world.paste(&aimed(false, "微信"), &payload(&[1, 2, 3]), &profile);
    let anchor = world.seen_plan.unwrap().anchor.unwrap();
    assert!((f32::from_bits(anchor.x_ratio_bits) - 0.394).abs() < f32::EPSILON);
    assert!((f32::from_bits(anchor.y_ratio_bits) - 0.787).abs() < f32::EPSILON);
}

#[test]
fn profile_without_anchor_forwards_none() {
    let mut world = World::new(ReadinessSignal::Ready, HWND);
    world.focus = FocusOutcome::Unavailable;
    world.paste(&aimed(false, "微信"), &payload(&[1, 2, 3]), &profile());
    assert_eq!(world.seen_plan.unwrap().anchor, None);
}

#[test]
fn profile_focus_strategy_is_forwarded_as_plan() {
    let mut profile = profile();
    profile.focus_strategy = vec![FocusStrategyStep::Already, FocusStrategyStep::Anchor];
    let mut world = World::new(ReadinessSignal::Ready, HWND);
    world.paste(&aimed(false, "微信"), &payload(&[1, 2, 3]), &profile);
    assert_eq!(
        world.seen_plan.unwrap().steps,
        vec![FocusStep::AlreadyEditable, FocusStep::AnchorClick]
    );
}

#[test]
fn paste_sends_format_copies_without_injecting() {
    let mut profile = profile();
    profile.paste_sends = video_files_sends();
    let (outcome, ops) = run_with_profile(profile, &video_payload());
    assert!(matches!(outcome, TargetPasteOutcome::CopiedOnly { .. }));
    assert!(ops.contains(&Op::Write));
    assert!(!injects(&ops));
}

#[test]
fn paste_sends_feedback_tells_user_to_paste_manually() {
    let mut profile = profile();
    profile.paste_sends = video_files_sends();
    let (outcome, _) = run_with_profile(profile, &video_payload());
    let TargetPasteOutcome::CopiedOnly { feedback } = outcome else {
        panic!("not copied");
    };
    assert_eq!(feedback.action, FeedbackAction::PasteManually);
    assert!(!feedback.hint.is_empty());
}

#[test]
fn paste_sends_falls_back_to_safe_format_when_available() {
    let mut profile = profile();
    profile.paste_sends = SendPolicy::PerKind(KindFormats {
        image: vec![ClipboardFormat::Files],
        ..KindFormats::none()
    });
    let req = payload(&[1, 2, 3]);
    assert_eq!(
        negotiate_detailed(&req, &profile),
        Negotiated::Safe {
            format: ClipboardFormat::Png,
            payload: ClipboardPayload::Png(&[1, 2, 3])
        }
    );
    let (outcome, ops) = run_with_profile(profile, &req);
    assert_eq!(outcome, TargetPasteOutcome::Injected { verified: true });
    assert!(injects(&ops));
}

#[test]
fn unsupported_and_would_send_are_distinct_results() {
    let mut profile = profile();
    profile.paste_sends = video_files_sends();
    assert_eq!(
        negotiate_detailed(&video_payload(), &profile),
        Negotiated::WouldSend {
            format: ClipboardFormat::Files,
            payload: ClipboardPayload::Files(vec!["C:/asset.mp4".to_string()])
        }
    );
    let empty = AssetPayload {
        kind: AssetKind::Video,
        png_bytes: &[],
        source_path: String::new(),
        text: String::new(),
    };
    assert_eq!(negotiate_detailed(&empty, &profile), Negotiated::Unsupported);
    let (outcome, ops) = run_with_profile(profile, &empty);
    assert!(matches!(outcome, TargetPasteOutcome::Failed { .. }));
    assert!(ops.is_empty());
}

#[test]
fn negotiate_skips_paste_sends_formats() {
    let mut profile = profile();
    profile.paste_sends = video_files_sends();
    assert_eq!(negotiate(&video_payload(), &profile), None);
}

#[test]
fn paste_sends_is_per_kind_not_per_format() {
    let mut profile = profile();
    profile.formats.image = vec![ClipboardFormat::Files, ClipboardFormat::Png];
    profile.paste_sends = video_files_sends();
    let image = payload(&[1, 2, 3]);
    assert_eq!(
        negotiate_detailed(&image, &profile),
        Negotiated::Safe {
            format: ClipboardFormat::Files,
            payload: ClipboardPayload::Files(vec!["C:/asset.png".to_string()])
        }
    );
    assert!(matches!(
        negotiate_detailed(&video_payload(), &profile),
        Negotiated::WouldSend { format: ClipboardFormat::Files, .. }
    ));
}

#[test]
fn legacy_flat_paste_sends_still_covers_every_kind() {
    let mut profile = profile();
    profile.formats.image = vec![ClipboardFormat::Files];
    profile.paste_sends = SendPolicy::AllKinds(vec![ClipboardFormat::Files]);
    assert!(matches!(
        negotiate_detailed(&payload(&[]), &profile),
        Negotiated::WouldSend { .. }
    ));
    assert!(matches!(
        negotiate_detailed(&video_payload(), &profile),
        Negotiated::WouldSend { .. }
    ));
}

#[test]
fn only_strict_readiness_pays_for_uia_probe() {
    let count = |ops: &[Op], want: &Op| ops.iter().filter(|op| *op == want).count();
    for mode in [ReadinessMode::UiaShallow, ReadinessMode::P0Only] {
        let (outcome, ops) = run_with_mode(ReadinessSignal::Ready, HWND, false, mode);
        assert_eq!(count(&ops, &Op::Probe), 0, "{mode:?}");
        assert_eq!(count(&ops, &Op::Blockers), 1, "{mode:?}");
        assert!(matches!(outcome, TargetPasteOutcome::Injected { .. }));
    }
    let (outcome, ops) =
        run_with_mode(ReadinessSignal::Ready, HWND, false, ReadinessMode::UiaStrict);
    assert_eq!(count(&ops, &Op::Probe), 1);
    assert_eq!(count(&ops, &Op::Blockers), 0);
    assert!(matches!(outcome, TargetPasteOutcome::Injected { .. }));
}

#[test]
fn shallow_readiness_still_aborts_on_proven_blocker() {
    let (outcome, ops) = run_with_mode(
        ReadinessSignal::Blocked(ReadinessBlocker::WindowGone),
        HWND,
        false,
        ReadinessMode::UiaShallow,
    );
    assert!(matches!(outcome, TargetPasteOutcome::CopiedOnly { .. }));
    assert!(!injects(&ops));
}

#[test]
fn targets_without_a_window_get_a_copy() {
    let session = PasteSession::new(PasteConfig::default());
    let mut world = World::new(ReadinessSignal::Ready, HWND);
    let (outcome, ops) = world.paste(&session, &payload(&[1]), &profile());
    let TargetPasteOutcome::CopiedOnly { feedback } = outcome else {
        panic!("not copied");
    };
    assert_eq!(feedback.action, FeedbackAction::ChooseTarget);
    assert_eq!(ops, vec![Op::Write]);

    let mut session = PasteSession::new(PasteConfig::default());
    let gone = TargetBinding { hwnd: None, ..TargetBinding::new("wechat", HWND, "微信") };
    session.begin_targeted(&Some(gone.clone()));
    assert_eq!(session.target(), Some(&gone));
    let (outcome, ops) = world.paste(&session, &payload(&[1]), &profile());
    let TargetPasteOutcome::CopiedOnly { feedback } = outcome else {
        panic!("not copied");
    };
    assert_eq!(feedback.action, FeedbackAction::OpenTarget);
    assert_eq!(ops, vec![Op::Write]);
}

#[test]
fn windows_that_cannot_be_brought_forward_get_a_copy() {
    let session = aimed(false, "微信");
    let req = payload(&[1]);
    let told = |run: TargetRun<'_>| match run.stage() {
        TargetStage::Finished { outcome: TargetPasteOutcome::CopiedOnly { feedback } } => {
            feedback.diagnostic.clone()
        }
        _ => panic!("goes on"),
    };
    let start = || TargetRun::start(&session, &req, &profile()).written();
    assert_eq!(told(start().activate_failed("gone")).as_deref(), Some("gone"));
    assert_eq!(
        told(start().activated(false)).as_deref(),
        Some("目标窗口未在 200ms 内成为前台")
    );
    let refused = TargetRun::start(&session, &req, &profile()).write_failed("busy");
    assert!(matches!(
        refused.stage(),
        TargetStage::Finished { outcome: TargetPasteOutcome::Failed { .. } }
    ));
}

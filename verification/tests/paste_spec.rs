//! Pasting into the window that was in front before.

use asset_shelf::domain::AssetKind;
use asset_shelf::feedback::{FeedbackAction, FeedbackSeverity, NotReadyReason, PasteFeedback};
use asset_shelf::negotiate::{negotiate, AssetPayload, ClipboardPayload, TargetProfile};
use asset_shelf::paste::{
    PasteConfig, PasteOutcome, PasteRun, PasteSession, PasteStage, WindowHandle, KEY_UP,
    VK_CONTROL, VK_RETURN, VK_V,
};

#[derive(Debug, Clone, PartialEq, Eq)]
enum Op {
    WriteClipboard,
    CheckAlive(WindowHandle),
    Inject(Vec<u16>),
}

const FG: WindowHandle = WindowHandle(0x00AB);

fn image_payload(png: &[u8]) -> AssetPayload<'_> {
    AssetPayload {
        kind: AssetKind::Image,
        png_bytes: png,
        source_path: "C:/library/objects/u1/raw.png".to_string(),
        text: String::new(),
    }
}

fn run_paste(session: &PasteSession, alive: bool, req: &AssetPayload<'_>) -> (PasteOutcome, Vec<Op>) {
    let mut ops = Vec::new();
    let mut run = PasteRun::start(session, req);
    loop {
        run = match run.stage() {
            PasteStage::Writing { .. } => {
                ops.push(Op::WriteClipboard);
                run.written()
            }
            PasteStage::CheckingWindow { window } => {
                ops.push(Op::CheckAlive(*window));
                run.window_checked(alive)
            }
            PasteStage::Injecting { keys } | PasteStage::Sending { keys } => {
                ops.push(Op::Inject(keys.clone()));
                run.injected()
            }
            PasteStage::Finished { outcome } => return (outcome.clone(), ops),
        };
    }
}

fn begun(config: PasteConfig) -> PasteSession {
    let mut session = PasteSession::new(config);
    session.begin_panel(FG);
    session
}

fn inject_sequences(ops: &[Op]) -> Vec<&Vec<u16>> {
    ops.iter()
        .filter_map(|op| match op {
            Op::Inject(seq) => Some(seq),
            _ => None,
        })
        .collect()
}

fn contains_enter(seq: &[u16]) -> bool {
    seq.iter().any(|&event| event & !KEY_UP == VK_RETURN)
}

#[test]
fn format_negotiation_table_image_video_text() {
    let png = vec![0x89, b'P', b'N', b'G'];
    let img = image_payload(&png);
    assert_eq!(negotiate(&img, &TargetProfile::ImGeneric), Some(ClipboardPayload::Png(&png)));

    let video_path = "C:/library/objects/u2/raw.mp4".to_string();
    let video = AssetPayload {
        kind: AssetKind::Video,
        png_bytes: &[],
        source_path: video_path.clone(),
        text: String::new(),
    };
    assert_eq!(
        negotiate(&video, &TargetProfile::ImGeneric),
        Some(ClipboardPayload::Files(vec![video_path]))
    );

    let text = AssetPayload {
        kind: AssetKind::Text,
        png_bytes: &[],
        source_path: "C:/library/objects/u3/raw.txt".to_string(),
        text: "你好 IM".to_string(),
    };
    assert_eq!(
        negotiate(&text, &TargetProfile::ImGeneric),
        Some(ClipboardPayload::Text("你好 IM"))
    );

    let other = AssetPayload {
        kind: AssetKind::Other,
        png_bytes: &[],
        source_path: "C:/library/objects/u4/raw.zip".to_string(),
        text: String::new(),
    };
    assert_eq!(negotiate(&other, &TargetProfile::ImGeneric), None);
}

#[test]
fn sending_is_off_unless_asked_for() {
    assert_eq!(PasteConfig::default(), PasteConfig { auto_send: false });
    assert_eq!(PasteSession::new(PasteConfig::default()).send(), None);
    assert_eq!(
        PasteSession::new(PasteConfig { auto_send: true }).send(),
        Some(vec![VK_RETURN, VK_RETURN | KEY_UP])
    );
}

#[test]
fn previous_foreground_window_recorded_on_panel_invoke() {
    let mut session = PasteSession::new(PasteConfig::default());
    assert_eq!(session.previous_foreground(), None);
    session.begin_panel(FG);
    assert_eq!(session.previous_foreground(), Some(FG));
}

#[test]
fn paste_writes_clipboard_before_focus_switch() {
    let png = vec![1, 2, 3];
    let (outcome, ops) =
        run_paste(&begun(PasteConfig::default()), true, &image_payload(&png));
    assert_eq!(outcome, PasteOutcome::Injected);
    let write_idx = ops.iter().position(|op| matches!(op, Op::WriteClipboard)).unwrap();
    let check_idx = ops.iter().position(|op| matches!(op, Op::CheckAlive(_))).unwrap();
    let inject_idx = ops.iter().position(|op| matches!(op, Op::Inject(_))).unwrap();
    assert!(write_idx < check_idx, "{ops:?}");
    assert!(write_idx < inject_idx, "{ops:?}");
    assert_eq!(ops[check_idx], Op::CheckAlive(FG));
}

#[test]
fn focus_check_failure_degrades_to_copy_only() {
    let png = vec![7, 8, 9];
    let (outcome, ops) =
        run_paste(&begun(PasteConfig::default()), false, &image_payload(&png));
    match outcome {
        PasteOutcome::CopiedOnly { reason } => assert!(!reason.is_empty()),
        other => panic!("{other:?}"),
    }
    assert!(matches!(ops.first(), Some(Op::WriteClipboard)), "{ops:?}");
    assert!(ops.iter().all(|op| !matches!(op, Op::Inject(_))), "{ops:?}");
}

#[test]
fn auto_send_off_never_synththesizes_enter() {
    let png = vec![4, 5, 6];
    let (outcome, ops_off) =
        run_paste(&begun(PasteConfig::default()), true, &image_payload(&png));
    assert_eq!(outcome, PasteOutcome::Injected);
    let off_seqs = inject_sequences(&ops_off);
    assert_eq!(off_seqs.len(), 1, "{off_seqs:?}");
    assert_eq!(
        off_seqs[0].as_slice(),
        &[VK_CONTROL, VK_V, VK_V | KEY_UP, VK_CONTROL | KEY_UP]
    );
    assert!(off_seqs.iter().all(|seq| !contains_enter(seq)));

    let (outcome_on, ops_on) =
        run_paste(&begun(PasteConfig { auto_send: true }), true, &image_payload(&png));
    assert_eq!(outcome_on, PasteOutcome::Injected);
    let on_seqs = inject_sequences(&ops_on);
    assert!(on_seqs.iter().any(|seq| contains_enter(seq)), "{on_seqs:?}");
}

#[test]
fn paste_without_a_window_leaves_a_copy() {
    let png = vec![1];
    let (outcome, ops) =
        run_paste(&PasteSession::new(PasteConfig::default()), true, &image_payload(&png));
    assert_eq!(
        outcome,
        PasteOutcome::CopiedOnly { reason: "唤起面板前未记录前台窗口".to_string() }
    );
    assert_eq!(ops, vec![Op::WriteClipboard]);
}

#[test]
fn failures_on_the_way_are_told() {
    let png = vec![1];
    let session = begun(PasteConfig { auto_send: true });
    let req = image_payload(&png);
    let run = PasteRun::start(&session, &req).write_failed("busy");
    assert!(matches!(run.stage(), PasteStage::Finished { outcome: PasteOutcome::Failed(_) }));
    let run = PasteRun::start(&session, &req).written().window_checked(true).inject_failed("no");
    match run.stage() {
        PasteStage::Finished { outcome } => {
            assert_eq!(*outcome, PasteOutcome::CopiedOnly { reason: "注入失败: no".to_string() })
        }
        _ => panic!("goes on"),
    }
    let run = PasteRun::start(&session, &req)
        .written()
        .window_checked(true)
        .injected()
        .inject_failed("no");
    match run.stage() {
        PasteStage::Finished { outcome } => {
            assert_eq!(*outcome, PasteOutcome::CopiedOnly { reason: "自动发送失败: no".to_string() })
        }
        _ => panic!("goes on"),
    }
    let nothing = AssetPayload {
        kind: AssetKind::Other,
        png_bytes: &[],
        source_path: "x.zip".to_string(),
        text: String::new(),
    };
    let (outcome, ops) = run_paste(&session, true, &nothing);
    assert_eq!(
        outcome,
        PasteOutcome::CopiedOnly { reason: "素材类型无可用剪贴板格式".to_string() }
    );
    assert!(ops.is_empty());
}

const REASONS: [NotReadyReason; 11] = [
    NotReadyReason::NotLoggedIn,
    NotReadyReason::NoConversation,
    NotReadyReason::ReadOnly,
    NotReadyReason::ModalBlocking,
    NotReadyReason::Starting,
    NotReadyReason::ForegroundLost,
    NotReadyReason::WindowGone,
    NotReadyReason::NoTarget,
    NotReadyReason::Ambiguous,
    NotReadyReason::ProbeUnavailable,
    NotReadyReason::PasteWouldSend,
];

#[test]
fn every_not_ready_reason_maps_to_nonempty_feedback() {
    for reason in REASONS {
        let feedback = PasteFeedback::not_ready("微信", reason);
        assert!(!feedback.headline.is_empty());
        assert!(!feedback.hint.is_empty());
    }
}

#[test]
fn feedback_headline_contains_target_label() {
    let feedback = PasteFeedback::not_ready("Telegram", NotReadyReason::NoConversation);
    assert!(feedback.headline.contains("Telegram"));
}

#[test]
fn all_degraded_feedback_mentions_clipboard_copied() {
    let feedback = PasteFeedback::not_ready("QQ", NotReadyReason::ModalBlocking);
    assert!(feedback.headline.contains("已复制"));
    for reason in REASONS {
        assert!(PasteFeedback::not_ready("QQ", reason).headline.contains("已复制"));
    }
}

#[test]
fn failed_feedback_asks_to_try_again() {
    let feedback = PasteFeedback::failed("QQ", "busy");
    assert_eq!(feedback.severity, FeedbackSeverity::Error);
    assert_eq!(feedback.action, FeedbackAction::Retry);
    assert_eq!(feedback.hint, "请检查素材后重试");
    assert_eq!(feedback.diagnostic.as_deref(), Some("busy"));
    let feedback = PasteFeedback::copied("QQ", "hint", FeedbackAction::NoAction).with_diagnostic("d");
    assert_eq!(feedback.severity, FeedbackSeverity::Warning);
    assert_eq!(feedback.target_label, "QQ");
    assert_eq!(feedback.diagnostic.as_deref(), Some("d"));
}

//! What the user is told about a paste.

use vstd::prelude::*;

verus! {

#[derive(Debug, Clone, Copy, PartialEq, Eq, Structural)]
pub enum FeedbackSeverity {
    Success,
    Warning,
    Error,
}

/// What the user can do.
#[derive(Debug, Clone, Copy, PartialEq, Eq, Structural)]
pub enum FeedbackAction {
    NoAction,
    Retry,
    OpenTarget,
    SignIn,
    SelectConversation,
    CloseModal,
    ChooseTarget,
    /// The asset is on the clipboard; pasting it would send it, so the user has to.
    PasteManually,
}

/// Why an asset could not be put into the input box of the target.
#[derive(Debug, Clone, Copy, PartialEq, Eq, Structural)]
pub enum NotReadyReason {
    NotLoggedIn,
    NoConversation,
    ReadOnly,
    ModalBlocking,
    Starting,
    ForegroundLost,
    WindowGone,
    NoTarget,
    Ambiguous,
    ProbeUnavailable,
    PasteWouldSend,
}

#[derive(Debug, Clone, PartialEq, Eq)]
pub struct PasteFeedback {
    pub severity: FeedbackSeverity,
    pub target_label: String,
    pub headline: String,
    pub hint: String,
    pub action: FeedbackAction,
    pub diagnostic: Option<String>,
}

/// The advice for each reason.
pub open spec fn advice(reason: NotReadyReason) -> (Seq<char>, FeedbackAction) {
    match reason {
        NotReadyReason::NotLoggedIn => ("请先登录目标应用"@, FeedbackAction::SignIn),
        NotReadyReason::NoConversation => (
            "请先选择一个会话并让输入框可见"@,
            FeedbackAction::SelectConversation,
        ),
        NotReadyReason::ReadOnly => (
            "当前会话不可输入，请切换到可发送的会话"@,
            FeedbackAction::SelectConversation,
        ),
        NotReadyReason::ModalBlocking => ("请先关闭遮挡输入框的弹窗"@, FeedbackAction::CloseModal),
        NotReadyReason::Starting => ("目标应用仍在启动，请稍后重试"@, FeedbackAction::Retry),
        NotReadyReason::ForegroundLost => (
            "目标窗口不在前台，素材已复制；切回目标窗口后 Ctrl+V 即可粘贴"@,
            FeedbackAction::Retry,
        ),
        NotReadyReason::WindowGone => (
            "目标窗口已关闭，请重新打开后重试"@,
            FeedbackAction::OpenTarget,
        ),
        NotReadyReason::NoTarget => ("请选择一个上框目标"@, FeedbackAction::ChooseTarget),
        NotReadyReason::Ambiguous => (
            "检测到多个可用窗口，请明确选择一个"@,
            FeedbackAction::ChooseTarget,
        ),
        NotReadyReason::ProbeUnavailable => (
            "无法确认输入框状态，请在目标应用中手动粘贴"@,
            FeedbackAction::Retry,
        ),
        NotReadyReason::PasteWouldSend => (
            "该应用会把粘贴的文件直接发出而不进输入框；素材已复制，确认要发送时再手动 Ctrl+V"@,
            FeedbackAction::PasteManually,
        ),
    }
}

fn advise(reason: NotReadyReason) -> (r: (&'static str, FeedbackAction))
    ensures
        (r.0@, r.1) == advice(reason),
{
    match reason {
        NotReadyReason::NotLoggedIn => ("请先登录目标应用", FeedbackAction::SignIn),
        NotReadyReason::NoConversation => (
            "请先选择一个会话并让输入框可见",
            FeedbackAction::SelectConversation,
        ),
        NotReadyReason::ReadOnly => (
            "当前会话不可输入，请切换到可发送的会话",
            FeedbackAction::SelectConversation,
        ),
        NotReadyReason::ModalBlocking => ("请先关闭遮挡输入框的弹窗", FeedbackAction::CloseModal),
        NotReadyReason::Starting => ("目标应用仍在启动，请稍后重试", FeedbackAction::Retry),
        NotReadyReason::ForegroundLost => (
            "目标窗口不在前台，素材已复制；切回目标窗口后 Ctrl+V 即可粘贴",
            FeedbackAction::Retry,
        ),
        NotReadyReason::WindowGone => (
            "目标窗口已关闭，请重新打开后重试",
            FeedbackAction::OpenTarget,
        ),
        NotReadyReason::NoTarget => ("请选择一个上框目标", FeedbackAction::ChooseTarget),
        NotReadyReason::Ambiguous => (
            "检测到多个可用窗口，请明确选择一个",
            FeedbackAction::ChooseTarget,
        ),
        NotReadyReason::ProbeUnavailable => (
            "无法确认输入框状态，请在目标应用中手动粘贴",
            FeedbackAction::Retry,
        ),
        NotReadyReason::PasteWouldSend => (
            "该应用会把粘贴的文件直接发出而不进输入框；素材已复制，确认要发送时再手动 Ctrl+V",
            FeedbackAction::PasteManually,
        ),
    }
}

impl PasteFeedback {
    /// The asset was copied and did not get into the input box.
    pub open spec fn tells_copied(
        self,
        label: Seq<char>,
        hint: Seq<char>,
        action: FeedbackAction,
    ) -> bool {
        &&& self.severity == FeedbackSeverity::Warning
        &&& self.target_label@ == label
        &&& self.headline@ == "已复制，未能上框到 "@ + label
        &&& self.hint@ == hint
        &&& self.action == action
    }

    /// The advice for `reason`, with a note for the log.
    pub open spec fn tells_not_ready(
        self,
        label: Seq<char>,
        reason: NotReadyReason,
        note: Seq<char>,
    ) -> bool {
        &&& self.tells_copied(label, advice(reason).0, advice(reason).1)
        &&& self.diagnostic matches Some(text) && text@ == note
    }

    /// The asset was not even copied.
    pub open spec fn tells_failed(self, label: Seq<char>, note: Seq<char>) -> bool {
        &&& self.severity == FeedbackSeverity::Error
        &&& self.target_label@ == label
        &&& self.headline@ == "未能复制素材到 "@ + label
        &&& self.hint@ == "请检查素材后重试"@
        &&& self.action == FeedbackAction::Retry
        &&& self.diagnostic matches Some(text) && text@ == note
    }

    pub fn copied(target_label: &str, hint: &str, action: FeedbackAction) -> (r: PasteFeedback)
        ensures
            r.tells_copied(target_label@, hint@, action),
            r.diagnostic is None,
            r.severity == FeedbackSeverity::Warning,
            r.target_label@ == target_label@,
            r.headline@ == "已复制，未能上框到 "@ + target_label@,
            r.hint@ == hint@,
            r.action == action,
    {
        PasteFeedback {
            severity: FeedbackSeverity::Warning,
            target_label: target_label.to_owned(),
            headline: "已复制，未能上框到 ".to_owned().concat(target_label),
            hint: hint.to_owned(),
            action,
            diagnostic: None,
        }
    }

    pub fn not_ready(target_label: &str, reason: NotReadyReason) -> (r: PasteFeedback)
        ensures
            r.tells_copied(target_label@, advice(reason).0, advice(reason).1),
            r.diagnostic is None,
            r.severity == FeedbackSeverity::Warning,
            r.target_label@ == target_label@,
            r.headline@ == "已复制，未能上框到 "@ + target_label@,
            match reason {
                NotReadyReason::NotLoggedIn => r.hint@ == "请先登录目标应用"@
                    && r.action == FeedbackAction::SignIn,
                NotReadyReason::NoConversation => r.hint@ == "请先选择一个会话并让输入框可见"@
                    && r.action == FeedbackAction::SelectConversation,
                NotReadyReason::ReadOnly => r.hint@ == "当前会话不可输入，请切换到可发送的会话"@
                    && r.action == FeedbackAction::SelectConversation,
                NotReadyReason::ModalBlocking => r.hint@ == "请先关闭遮挡输入框的弹窗"@
                    && r.action == FeedbackAction::CloseModal,
                NotReadyReason::Starting => r.hint@ == "目标应用仍在启动，请稍后重试"@
                    && r.action == FeedbackAction::Retry,
                NotReadyReason::ForegroundLost => r.hint@ == "目标窗口不在前台，素材已复制；切回目标窗口后 Ctrl+V 即可粘贴"@
                    && r.action == FeedbackAction::Retry,
                NotReadyReason::WindowGone => r.hint@ == "目标窗口已关闭，请重新打开后重试"@
                    && r.action == FeedbackAction::OpenTarget,
                NotReadyReason::NoTarget => r.hint@ == "请选择一个上框目标"@
                    && r.action == FeedbackAction::ChooseTarget,
                NotReadyReason::Ambiguous => r.hint@ == "检测到多个可用窗口，请明确选择一个"@
                    && r.action == FeedbackAction::ChooseTarget,
                NotReadyReason::ProbeUnavailable => r.hint@ == "无法确认输入框状态，请在目标应用中手动粘贴"@
                    && r.action == FeedbackAction::Retry,
                NotReadyReason::PasteWouldSend => r.hint@ == "该应用会把粘贴的文件直接发出而不进输入框；素材已复制，确认要发送时再手动 Ctrl+V"@
                    && r.action == FeedbackAction::PasteManually,
            },
    {
        let (hint, action) = advise(reason);
        PasteFeedback::copied(target_label, hint, action)
    }

    pub fn failed(target_label: &str, diagnostic: &str) -> (r: PasteFeedback)
        ensures
            r.tells_failed(target_label@, diagnostic@),
            r.severity == FeedbackSeverity::Error,
            r.target_label@ == target_label@,
            r.headline@ == "未能复制素材到 "@ + target_label@,
            r.hint@ == "请检查素材后重试"@,
            r.action == FeedbackAction::Retry,
            r.diagnostic matches Some(text) && text@ == diagnostic@,
    {
        PasteFeedback {
            severity: FeedbackSeverity::Error,
            target_label: target_label.to_owned(),
            headline: "未能复制素材到 ".to_owned().concat(target_label),
            hint: "请检查素材后重试".to_owned(),
            action: FeedbackAction::Retry,
            diagnostic: Some(diagnostic.to_owned()),
        }
    }

    /// Adds a note for the log.
    pub fn with_diagnostic(self, diagnostic: &str) -> (r: PasteFeedback)
        ensures
            r.severity == self.severity,
            r.target_label == self.target_label,
            r.headline == self.headline,
            r.hint == self.hint,
            r.action == self.action,
            r.diagnostic matches Some(text) && text@ == diagnostic@,
    {
        PasteFeedback { diagnostic: Some(diagnostic.to_owned()), ..self }
    }
}

/// Whatever keeps an asset out of the input box, the user gets a hint.
pub proof fn every_reason_has_a_hint(reason: NotReadyReason)
    ensures
        advice(reason).0.len() > 0,
        advice(reason).1 != FeedbackAction::NoAction,
{
    reveal_strlit("请先登录目标应用");
    reveal_strlit("请先选择一个会话并让输入框可见");
    reveal_strlit("当前会话不可输入，请切换到可发送的会话");
    reveal_strlit("请先关闭遮挡输入框的弹窗");
    reveal_strlit("目标应用仍在启动，请稍后重试");
    reveal_strlit("目标窗口不在前台，素材已复制；切回目标窗口后 Ctrl+V 即可粘贴");
    reveal_strlit("目标窗口已关闭，请重新打开后重试");
    reveal_strlit("请选择一个上框目标");
    reveal_strlit("检测到多个可用窗口，请明确选择一个");
    reveal_strlit("无法确认输入框状态，请在目标应用中手动粘贴");
    reveal_strlit("该应用会把粘贴的文件直接发出而不进输入框；素材已复制，确认要发送时再手动 Ctrl+V");
}

/// A headline names the target, and that of a degraded paste says that the asset was
/// copied.
pub proof fn headline_names_the_target(feedback: PasteFeedback, label: Seq<char>, hint: Seq<char>, action: FeedbackAction)
    requires
        feedback.tells_copied(label, hint, action),
    ensures
        crate::text::occurs_in(label, feedback.headline@),
        crate::text::occurs_in("已复制"@, feedback.headline@),
{
    reveal_strlit("已复制，未能上框到 ");
    reveal_strlit("已复制");
    let head = "已复制，未能上框到 "@;
    let line = feedback.headline@;
    assert(line.subrange(head.len() as int, (head.len() + label.len()) as int) =~= label);
    assert(crate::text::occurs_at(label, line, head.len() as int));
    assert(line.subrange(0, 3) =~= "已复制"@);
    assert(crate::text::occurs_at("已复制"@, line, 0));
}

/// What a degraded paste tells: a warning with the headline of a copy, the hint and the
/// action for the reason, and the note. A failed one tells an error, and to check the asset.
pub proof fn feedback_tells_its_parts(
    feedback: PasteFeedback,
    label: Seq<char>,
    reason: NotReadyReason,
    note: Seq<char>,
)
    ensures
        feedback.tells_not_ready(label, reason, note) ==> {
            &&& feedback.severity == FeedbackSeverity::Warning
            &&& feedback.target_label@ == label
            &&& feedback.headline@ == "已复制，未能上框到 "@ + label
            &&& feedback.hint@ == advice(reason).0
            &&& feedback.action == advice(reason).1
            &&& feedback.diagnostic matches Some(text) && text@ == note
        },
        feedback.tells_failed(label, note) ==> {
            &&& feedback.severity == FeedbackSeverity::Error
            &&& feedback.target_label@ == label
            &&& feedback.headline@ == "未能复制素材到 "@ + label
            &&& feedback.diagnostic matches Some(text) && text@ == note
        },
        advice(NotReadyReason::NotLoggedIn).1 == FeedbackAction::SignIn,
        advice(NotReadyReason::NoConversation).1 == FeedbackAction::SelectConversation,
        advice(NotReadyReason::ReadOnly).1 == FeedbackAction::SelectConversation,
        advice(NotReadyReason::ModalBlocking).1 == FeedbackAction::CloseModal,
        advice(NotReadyReason::WindowGone).1 == FeedbackAction::OpenTarget,
        advice(NotReadyReason::NoTarget).1 == FeedbackAction::ChooseTarget,
        advice(NotReadyReason::Ambiguous).1 == FeedbackAction::ChooseTarget,
        advice(NotReadyReason::PasteWouldSend).1 == FeedbackAction::PasteManually,
        reason == NotReadyReason::Starting || reason == NotReadyReason::ForegroundLost || reason
            == NotReadyReason::ProbeUnavailable <==> advice(reason).1 == FeedbackAction::Retry,
{
}

} // verus!

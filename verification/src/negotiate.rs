//! Which form of an asset goes on the clipboard for a target.

use vstd::prelude::*;

use crate::domain::AssetKind;

verus! {

/// The forms that a clipboard takes.
#[derive(Debug, Clone, Copy, PartialEq, Eq, Structural)]
pub enum ClipboardFormat {
    Png,
    Dib,
    Files,
    Text,
}

/// What is put on the clipboard.
#[derive(Debug, Clone, PartialEq, Eq)]
pub enum ClipboardPayload<'a> {
    Png(&'a [u8]),
    Files(Vec<String>),
    Text(&'a str),
}

/// An asset that is to be pasted.
#[derive(Debug, Clone)]
pub struct AssetPayload<'a> {
    pub kind: AssetKind,
    /// The picture, encoded as PNG; empty where there is none.
    pub png_bytes: &'a [u8],
    pub source_path: String,
    pub text: String,
}

/// A target of which no more is known than its sort.
#[derive(Debug, Clone, Copy, PartialEq, Eq, Hash, Structural)]
pub enum TargetProfile {
    ImGeneric,
}

/// The formats for each kind of asset, the preferred one first.
#[derive(Debug, Clone, PartialEq, Eq)]
pub struct KindFormats {
    pub image: Vec<ClipboardFormat>,
    pub video: Vec<ClipboardFormat>,
    pub text: Vec<ClipboardFormat>,
    pub other: Vec<ClipboardFormat>,
}

/// The formats that a target takes.
pub type FormatPolicy = KindFormats;

/// In which formats a target sends what is pasted instead of putting it into its input
/// box.
#[derive(Debug, Clone, PartialEq, Eq)]
pub enum SendPolicy {
    /// These formats, whatever the asset.
    AllKinds(Vec<ClipboardFormat>),
    PerKind(KindFormats),
}

impl KindFormats {
    pub open spec fn listed(self, kind: AssetKind) -> Seq<ClipboardFormat> {
        match kind {
            AssetKind::Image => self.image@,
            AssetKind::Video => self.video@,
            AssetKind::Text => self.text@,
            AssetKind::Other => self.other@,
        }
    }

    /// The formats for a kind.
    pub fn for_kind(&self, kind: AssetKind) -> (r: &[ClipboardFormat])
        ensures
            r@ == self.listed(kind),
            kind == AssetKind::Image ==> r@ == self.image@,
            kind == AssetKind::Video ==> r@ == self.video@,
            kind == AssetKind::Text ==> r@ == self.text@,
            kind == AssetKind::Other ==> r@ == self.other@,
    {
        match kind {
            AssetKind::Image => self.image.as_slice(),
            AssetKind::Video => self.video.as_slice(),
            AssetKind::Text => self.text.as_slice(),
            AssetKind::Other => self.other.as_slice(),
        }
    }

    /// No format for any kind.
    pub fn none() -> (r: KindFormats)
        ensures
            forall|kind: AssetKind| #[trigger] r.listed(kind).len() == 0,
            r.image@.len() == 0,
            r.video@.len() == 0,
            r.text@.len() == 0,
            r.other@.len() == 0,
    {
        KindFormats { image: Vec::new(), video: Vec::new(), text: Vec::new(), other: Vec::new() }
    }

    /// What targets take in general.
    pub fn usual() -> (r: KindFormats)
        ensures
            forall|kind: AssetKind| #[trigger] r.listed(kind) == usual_formats(kind),
            r.image@ == seq![ClipboardFormat::Png, ClipboardFormat::Files],
            r.video@ == seq![ClipboardFormat::Files],
            r.text@ == seq![ClipboardFormat::Text],
            r.other@.len() == 0,
    {
        let r = KindFormats {
            image: vec![ClipboardFormat::Png, ClipboardFormat::Files],
            video: vec![ClipboardFormat::Files],
            text: vec![ClipboardFormat::Text],
            other: Vec::new(),
        };
        assert(r.image@ =~= seq![ClipboardFormat::Png, ClipboardFormat::Files]);
        assert(r.video@ =~= seq![ClipboardFormat::Files]);
        assert(r.text@ =~= seq![ClipboardFormat::Text]);
        r
    }
}

/// The formats that targets take in general: a picture as PNG or file, a video as file, a
/// text as text.
pub open spec fn usual_formats(kind: AssetKind) -> Seq<ClipboardFormat> {
    match kind {
        AssetKind::Image => seq![ClipboardFormat::Png, ClipboardFormat::Files],
        AssetKind::Video => seq![ClipboardFormat::Files],
        AssetKind::Text => seq![ClipboardFormat::Text],
        AssetKind::Other => Seq::empty(),
    }
}

fn includes(formats: &[ClipboardFormat], format: ClipboardFormat) -> (r: bool)
    ensures
        r == formats@.contains(format),
{
    let mut i: usize = 0;
    while i < formats.len()
        invariant
            i <= formats@.len(),
            forall|k: int| 0 <= k < i ==> formats@[k] != format,
        decreases formats@.len() - i,
    {
        if formats[i] == format {
            return true;
        }
        i = i + 1;
    }
    false
}

impl SendPolicy {
    pub open spec fn triggers(self, kind: AssetKind, format: ClipboardFormat) -> bool {
        match self {
            SendPolicy::AllKinds(formats) => formats@.contains(format),
            SendPolicy::PerKind(formats) => formats.listed(kind).contains(format),
        }
    }

    /// Whether pasting an asset of this kind in this format sends it.
    pub fn sends(&self, kind: AssetKind, format: ClipboardFormat) -> (r: bool)
        ensures
            r == self.triggers(kind, format),
            r == match *self {
                SendPolicy::AllKinds(formats) => formats@.contains(format),
                SendPolicy::PerKind(formats) => match kind {
                    AssetKind::Image => formats.image@.contains(format),
                    AssetKind::Video => formats.video@.contains(format),
                    AssetKind::Text => formats.text@.contains(format),
                    AssetKind::Other => formats.other@.contains(format),
                },
            },
    {
        match self {
            SendPolicy::AllKinds(formats) => includes(formats.as_slice(), format),
            SendPolicy::PerKind(formats) => includes(formats.for_kind(kind), format),
        }
    }
}

/// What negotiation looks at in a target.
pub trait NegotiationProfile {
    spec fn spec_formats(&self, kind: AssetKind) -> Seq<ClipboardFormat>;

    spec fn spec_paste_sends(&self, kind: AssetKind, format: ClipboardFormat) -> bool;

    /// The formats that the target takes, the preferred one first.
    fn formats(&self, kind: AssetKind) -> (r: Vec<ClipboardFormat>)
        ensures
            r@ == self.spec_formats(kind),
    ;

    /// Whether pasting in this format sends the asset.
    fn paste_sends(&self, kind: AssetKind, format: ClipboardFormat) -> (r: bool)
        ensures
            r == self.spec_paste_sends(kind, format),
    ;
}

impl NegotiationProfile for TargetProfile {
    open spec fn spec_formats(&self, kind: AssetKind) -> Seq<ClipboardFormat> {
        usual_formats(kind)
    }

    open spec fn spec_paste_sends(&self, kind: AssetKind, format: ClipboardFormat) -> bool {
        false
    }

    fn formats(&self, kind: AssetKind) -> (r: Vec<ClipboardFormat>) {
        let r: Vec<ClipboardFormat> = match kind {
            AssetKind::Image => vec![ClipboardFormat::Png, ClipboardFormat::Files],
            AssetKind::Video => vec![ClipboardFormat::Files],
            AssetKind::Text => vec![ClipboardFormat::Text],
            AssetKind::Other => Vec::new(),
        };
        assert(r@ =~= usual_formats(kind));
        r
    }

    fn paste_sends(&self, kind: AssetKind, format: ClipboardFormat) -> (r: bool) {
        false
    }
}

/// The format can hold the asset.
pub open spec fn carries(req: AssetPayload<'_>, format: ClipboardFormat) -> bool {
    match format {
        ClipboardFormat::Png => req.png_bytes@.len() > 0,
        ClipboardFormat::Files => req.source_path@.len() > 0,
        ClipboardFormat::Text => req.text@.len() > 0,
        ClipboardFormat::Dib => false,
    }
}

/// `payload` is the asset in `format`.
pub open spec fn payload_of(
    payload: ClipboardPayload<'_>,
    req: AssetPayload<'_>,
    format: ClipboardFormat,
) -> bool {
    match (format, payload) {
        (ClipboardFormat::Png, ClipboardPayload::Png(bytes)) => bytes@ == req.png_bytes@,
        (ClipboardFormat::Files, ClipboardPayload::Files(paths)) => paths@.len() == 1 && paths@[0]@
            == req.source_path@,
        (ClipboardFormat::Text, ClipboardPayload::Text(text)) => text@ == req.text@,
        _ => false,
    }
}

/// What a negotiation comes to.
#[derive(Debug, Clone, PartialEq, Eq)]
pub enum Negotiated<'a> {
    /// A format that holds the asset and does not send it.
    Safe { format: ClipboardFormat, payload: ClipboardPayload<'a> },
    /// Every format that holds the asset sends it: copy it, do not paste it.
    WouldSend { format: ClipboardFormat, payload: ClipboardPayload<'a> },
    /// No format holds the asset.
    Unsupported,
}

/// The first position from `from` on at which `p` holds; the length where there is none.
pub open spec fn first_where(
    formats: Seq<ClipboardFormat>,
    p: spec_fn(ClipboardFormat) -> bool,
    from: int,
) -> int
    decreases formats.len() - from,
{
    if from >= formats.len() || p(formats[from]) {
        from
    } else {
        first_where(formats, p, from + 1)
    }
}

/// The preferred format that holds the asset and does not send it, else the preferred one
/// that holds it.
pub open spec fn chosen<P: NegotiationProfile>(
    req: AssetPayload<'_>,
    profile: &P,
) -> (Option<ClipboardFormat>, bool) {
    let formats = profile.spec_formats(req.kind);
    let safe = first_where(
        formats,
        |f: ClipboardFormat| carries(req, f) && !profile.spec_paste_sends(req.kind, f),
        0,
    );
    let any = first_where(formats, |f: ClipboardFormat| carries(req, f), 0);
    if safe < formats.len() {
        (Some(formats[safe]), true)
    } else if any < formats.len() {
        (Some(formats[any]), false)
    } else {
        (None, false)
    }
}

/// The result that [`chosen`] calls for.
pub open spec fn agrees<P: NegotiationProfile>(
    result: Negotiated<'_>,
    req: AssetPayload<'_>,
    profile: &P,
) -> bool {
    match (result, chosen(req, profile)) {
        (Negotiated::Safe { format, payload }, (Some(f), true)) => format == f && payload_of(
            payload,
            req,
            format,
        ),
        (Negotiated::WouldSend { format, payload }, (Some(f), false)) => format == f && payload_of(
            payload,
            req,
            format,
        ),
        (Negotiated::Unsupported, (None, _)) => true,
        _ => false,
    }
}

proof fn first_where_step(
    formats: Seq<ClipboardFormat>,
    p: spec_fn(ClipboardFormat) -> bool,
    from: int,
    to: int,
)
    requires
        0 <= from <= to <= formats.len(),
        forall|k: int| from <= k < to ==> !p(#[trigger] formats[k]),
    ensures
        first_where(formats, p, from) == first_where(formats, p, to),
    decreases to - from,
{
    if from < to {
        assert(!p(formats[from]));
        first_where_step(formats, p, from + 1, to);
    }
}

fn carry<'a>(req: &'a AssetPayload<'a>, format: ClipboardFormat) -> (r: Option<ClipboardPayload<'a>>)
    ensures
        r is Some <==> carries(*req, format),
        r matches Some(payload) ==> payload_of(payload, *req, format),
{
    match format {
        ClipboardFormat::Png => if req.png_bytes.len() > 0 {
            Some(ClipboardPayload::Png(req.png_bytes))
        } else {
            None
        },
        ClipboardFormat::Files => if !req.source_path.as_str().is_empty() {
            Some(ClipboardPayload::Files(vec![req.source_path.clone()]))
        } else {
            None
        },
        ClipboardFormat::Text => if !req.text.as_str().is_empty() {
            Some(ClipboardPayload::Text(req.text.as_str()))
        } else {
            None
        },
        ClipboardFormat::Dib => None,
    }
}

/// Chooses the format for an asset, and says whether it would be sent.
pub fn negotiate_detailed<'a, P: NegotiationProfile>(
    req: &'a AssetPayload<'a>,
    profile: &P,
) -> (r: Negotiated<'a>)
    ensures
        agrees(r, *req, profile),
{
    let formats = profile.formats(req.kind);
    let ghost list = formats@;
    let ghost holds = |f: ClipboardFormat| carries(*req, f);
    let ghost safe = |f: ClipboardFormat|
        carries(*req, f) && !profile.spec_paste_sends(req.kind, f);
    let mut would_send: Option<(ClipboardFormat, ClipboardPayload<'a>)> = None;
    let ghost mut at: int = 0;
    let mut i: usize = 0;
    while i < formats.len()
        invariant
            i <= formats@.len(),
            list == formats@,
            list == profile.spec_formats(req.kind),
            holds == (|f: ClipboardFormat| carries(*req, f)),
            safe == (|f: ClipboardFormat|
                carries(*req, f) && !profile.spec_paste_sends(req.kind, f)),
            forall|k: int| 0 <= k < i ==> !safe(#[trigger] list[k]),
            match would_send {
                Some((format, payload)) => {
                    &&& 0 <= at < i
                    &&& list[at] == format
                    &&& holds(format)
                    &&& payload_of(payload, *req, format)
                    &&& forall|k: int| 0 <= k < at ==> !holds(#[trigger] list[k])
                },
                None => forall|k: int| 0 <= k < i ==> !holds(#[trigger] list[k]),
            },
        decreases formats@.len() - i,
    {
        let format = formats[i];
        if let Some(payload) = carry(req, format) {
            if profile.paste_sends(req.kind, format) {
                if would_send.is_none() {
                    would_send = Some((format, payload));
                    proof {
                        at = i as int;
                    }
                }
            } else {
                proof {
                    first_where_step(list, safe, 0, i as int);
                    assert(safe(list[i as int]));
                }
                return Negotiated::Safe { format, payload };
            }
        }
        i = i + 1;
    }
    proof {
        first_where_step(list, safe, 0, list.len() as int);
    }
    match would_send {
        Some((format, payload)) => {
            proof {
                first_where_step(list, holds, 0, at);
            }
            Negotiated::WouldSend { format, payload }
        },
        None => {
            proof {
                first_where_step(list, holds, 0, list.len() as int);
            }
            Negotiated::Unsupported
        },
    }
}

/// The payload for an asset in a format that does not send it.
pub fn negotiate<'a, P: NegotiationProfile>(req: &'a AssetPayload<'a>, profile: &P) -> (r: Option<
    ClipboardPayload<'a>,
>)
    ensures
        match (r, chosen(*req, profile)) {
            (Some(payload), (Some(format), true)) => payload_of(payload, *req, format),
            (None, (_, safe)) => !safe,
            _ => false,
        },
{
    match negotiate_detailed(req, profile) {
        Negotiated::Safe { format: _, payload } => Some(payload),
        _ => None,
    }
}

proof fn first_where_holds(
    formats: Seq<ClipboardFormat>,
    p: spec_fn(ClipboardFormat) -> bool,
    from: int,
)
    requires
        0 <= from <= formats.len(),
    ensures
        from <= first_where(formats, p, from) <= formats.len(),
        first_where(formats, p, from) < formats.len() ==> p(
            formats[first_where(formats, p, from)],
        ),
        forall|k: int| from <= k < first_where(formats, p, from) ==> !p(#[trigger] formats[k]),
    decreases formats.len() - from,
{
    if from < formats.len() && !p(formats[from]) {
        first_where_holds(formats, p, from + 1);
    }
}

/// What is offered as safe is not sent by the target, and the asset is in it.
pub proof fn safe_format_never_sends<P: NegotiationProfile>(
    req: AssetPayload<'_>,
    profile: &P,
    format: ClipboardFormat,
)
    requires
        chosen(req, profile) == (Some(format), true),
    ensures
        !profile.spec_paste_sends(req.kind, format),
        carries(req, format),
        profile.spec_formats(req.kind).contains(format),
{
    let formats = profile.spec_formats(req.kind);
    let safe = |f: ClipboardFormat| carries(req, f) && !profile.spec_paste_sends(req.kind, f);
    first_where_holds(formats, safe, 0);
    let any = |f: ClipboardFormat| carries(req, f);
    first_where_holds(formats, any, 0);
    assert(formats[first_where(formats, safe, 0)] == format);
}

/// An asset is given up as one that would be sent only where no format that holds it is
/// safe.
pub proof fn safe_format_is_found_where_there_is_one<P: NegotiationProfile>(
    req: AssetPayload<'_>,
    profile: &P,
    format: ClipboardFormat,
)
    requires
        profile.spec_formats(req.kind).contains(format),
        carries(req, format),
        !profile.spec_paste_sends(req.kind, format),
    ensures
        chosen(req, profile).1,
{
    let formats = profile.spec_formats(req.kind);
    let safe = |f: ClipboardFormat| carries(req, f) && !profile.spec_paste_sends(req.kind, f);
    first_where_holds(formats, safe, 0);
    let k = choose|k: int| 0 <= k < formats.len() && formats[k] == format;
    assert(safe(formats[k]));
}

/// A format sends an asset exactly where it stands in the list of the policy: the one list,
/// or the one for the kind of the asset.
pub proof fn listed_formats_send(policy: SendPolicy, kind: AssetKind, format: ClipboardFormat)
    ensures
        policy matches SendPolicy::AllKinds(formats) ==> (policy.triggers(kind, format)
            <==> exists|i: int| 0 <= i < formats@.len() && #[trigger] formats@[i] == format),
        policy matches SendPolicy::PerKind(formats) ==> {
            &&& kind == AssetKind::Image ==> (policy.triggers(kind, format)
                <==> formats.image@.contains(format))
            &&& kind == AssetKind::Video ==> (policy.triggers(kind, format)
                <==> formats.video@.contains(format))
            &&& kind == AssetKind::Text ==> (policy.triggers(kind, format)
                <==> formats.text@.contains(format))
            &&& kind == AssetKind::Other ==> (policy.triggers(kind, format)
                <==> formats.other@.contains(format))
        },
{
}

/// A negotiation comes to the first format of the target that holds the asset and is not
/// sent; where every format that holds it is sent, to the first of those, told as such. A
/// format holds an asset that has something to put into it, and the payload is just that.
pub proof fn negotiation_picks_the_first_safe_format<P: NegotiationProfile>(
    req: AssetPayload<'_>,
    profile: &P,
    result: Negotiated<'_>,
)
    requires
        agrees(result, req, profile),
    ensures
        result matches Negotiated::Safe { format, payload } ==> {
            &&& !profile.spec_paste_sends(req.kind, format)
            &&& exists|i: int| #[trigger]
                first_of(profile.spec_formats(req.kind), format, i) && forall|k: int|
                    0 <= k < i ==> profile.spec_paste_sends(
                        req.kind,
                        #[trigger] profile.spec_formats(req.kind)[k],
                    ) || match profile.spec_formats(req.kind)[k] {
                        ClipboardFormat::Png => req.png_bytes@.len() == 0,
                        ClipboardFormat::Files => req.source_path@.len() == 0,
                        ClipboardFormat::Text => req.text@.len() == 0,
                        ClipboardFormat::Dib => true,
                    }
            &&& match payload {
                ClipboardPayload::Png(bytes) => format == ClipboardFormat::Png && bytes@
                    == req.png_bytes@ && bytes@.len() > 0,
                ClipboardPayload::Files(paths) => format == ClipboardFormat::Files && paths@.len()
                    == 1 && paths@[0]@ == req.source_path@ && req.source_path@.len() > 0,
                ClipboardPayload::Text(text) => format == ClipboardFormat::Text && text@
                    == req.text@ && text@.len() > 0,
            }
        },
        result matches Negotiated::WouldSend { format, payload } ==> {
            &&& profile.spec_paste_sends(req.kind, format)
            &&& exists|i: int| #[trigger]
                first_of(profile.spec_formats(req.kind), format, i) && forall|k: int|
                    0 <= k < i ==> match #[trigger] profile.spec_formats(req.kind)[k] {
                        ClipboardFormat::Png => req.png_bytes@.len() == 0,
                        ClipboardFormat::Files => req.source_path@.len() == 0,
                        ClipboardFormat::Text => req.text@.len() == 0,
                        ClipboardFormat::Dib => true,
                    }
            &&& match payload {
                ClipboardPayload::Png(bytes) => format == ClipboardFormat::Png && bytes@
                    == req.png_bytes@ && bytes@.len() > 0,
                ClipboardPayload::Files(paths) => format == ClipboardFormat::Files && paths@.len()
                    == 1 && paths@[0]@ == req.source_path@ && req.source_path@.len() > 0,
                ClipboardPayload::Text(text) => format == ClipboardFormat::Text && text@
                    == req.text@ && text@.len() > 0,
            }
        },
        !(result is Safe) ==> forall|k: int|
            0 <= k < profile.spec_formats(req.kind).len() ==> profile.spec_paste_sends(
                req.kind,
                #[trigger] profile.spec_formats(req.kind)[k],
            ) || match profile.spec_formats(req.kind)[k] {
                ClipboardFormat::Png => req.png_bytes@.len() == 0,
                ClipboardFormat::Files => req.source_path@.len() == 0,
                ClipboardFormat::Text => req.text@.len() == 0,
                ClipboardFormat::Dib => true,
            },
        result is Unsupported ==> forall|k: int|
            0 <= k < profile.spec_formats(req.kind).len() ==> match #[trigger] profile.spec_formats(
                req.kind,
            )[k] {
                ClipboardFormat::Png => req.png_bytes@.len() == 0,
                ClipboardFormat::Files => req.source_path@.len() == 0,
                ClipboardFormat::Text => req.text@.len() == 0,
                ClipboardFormat::Dib => true,
            },
{
    let formats = profile.spec_formats(req.kind);
    let safe = |f: ClipboardFormat| carries(req, f) && !profile.spec_paste_sends(req.kind, f);
    let any = |f: ClipboardFormat| carries(req, f);
    first_where_holds(formats, safe, 0);
    first_where_holds(formats, any, 0);
    let s = first_where(formats, safe, 0);
    let a = first_where(formats, any, 0);
    assert forall|k: int| 0 <= k < s implies !carries(req, #[trigger] formats[k])
        || profile.spec_paste_sends(req.kind, formats[k]) by {
        assert(!safe(formats[k]));
    }
    assert forall|k: int| 0 <= k < a implies !carries(req, #[trigger] formats[k]) by {
        assert(!any(formats[k]));
    }
    if s < formats.len() {
        assert(safe(formats[s]));
        assert(first_of(formats, formats[s], s)) by {
            assert forall|k: int| 0 <= k < s implies #[trigger] formats[k] != formats[s] by {
                assert(!safe(formats[k]));
            }
        }
    } else if a < formats.len() {
        assert(any(formats[a]));
        assert(!safe(formats[a]));
        assert(first_of(formats, formats[a], a)) by {
            assert forall|k: int| 0 <= k < a implies #[trigger] formats[k] != formats[a] by {
                assert(!any(formats[k]));
            }
        }
    }
}

/// `format` stands at `at`, and nowhere before.
pub open spec fn first_of(formats: Seq<ClipboardFormat>, format: ClipboardFormat, at: int) -> bool {
    &&& 0 <= at < formats.len()
    &&& formats[at] == format
    &&& forall|k: int| 0 <= k < at ==> #[trigger] formats[k] != format
}

/// Where no more is known of a target than its sort, a picture goes as PNG or else as file, a
/// video as file, a text as text, and nothing is sent by being pasted.
pub proof fn usual_targets_take_pictures_files_and_texts(
    target: TargetProfile,
    format: ClipboardFormat,
    kind: AssetKind,
)
    ensures
        target.spec_formats(AssetKind::Image) == seq![ClipboardFormat::Png, ClipboardFormat::Files],
        target.spec_formats(AssetKind::Video) == seq![ClipboardFormat::Files],
        target.spec_formats(AssetKind::Text) == seq![ClipboardFormat::Text],
        target.spec_formats(AssetKind::Other).len() == 0,
        !target.spec_paste_sends(kind, format),
{
}

} // verus!

//! The vocabulary that the extensions share with the launcher: result rows,
//! actions, activation effects and previews. Each type has a model that holds
//! its texts as character sequences.
use vstd::prelude::*;
use vstd::utf8::*;

use crate::text::{from_utf8_lossy, lossy_text};

verus! {

/// The score of a row, as the numbers that it is computed from.
#[derive(Debug, Clone, Copy, PartialEq, Eq)]
pub enum Relevance {
    /// A score of its own.
    Fixed(u32),
    /// `top` less the share `index / max(count, 1)` of `span`.
    Ranked { index: usize, count: usize, top: u32, span: u32 },
    /// The share `part / whole` of one hundred.
    Share { part: usize, whole: usize },
}

impl Relevance {
    /// The denominator of the exact score.
    pub open spec fn denominator(self) -> int {
        match self {
            Relevance::Fixed(_) => 1,
            Relevance::Ranked { count, .. } => if count > 0 {
                count as int
            } else {
                1
            },
            Relevance::Share { whole, .. } => whole as int,
        }
    }

    /// The numerator of the exact score over `denominator`.
    pub open spec fn numerator(self) -> int {
        match self {
            Relevance::Fixed(score) => score as int,
            Relevance::Ranked { index, top, span, .. } => top * self.denominator() - index * span,
            Relevance::Share { part, .. } => 100 * part,
        }
    }

    /// Whether the exact score of `self` is above that of `other`.
    pub open spec fn above(self, other: Relevance) -> bool {
        self.numerator() * other.denominator() > other.numerator() * self.denominator()
    }
}

/// Rows of one batch are scored in descending order, so that the launcher keeps
/// the order in which they came.
pub proof fn law_ranked_descending(i: usize, j: usize, count: usize, top: u32, span: u32)
    requires
        i < j,
        span > 0,
    ensures
        (Relevance::Ranked { index: i, count, top, span }).above(
            Relevance::Ranked { index: j, count, top, span },
        ),
{
    let a = Relevance::Ranked { index: i, count, top, span };
    let b = Relevance::Ranked { index: j, count, top, span };
    let d = a.denominator();
    assert(i * span < j * span) by (nonlinear_arith)
        requires
            i < j,
            span > 0,
    ;
    let x = a.numerator();
    let y = b.numerator();
    assert(x * d > y * d) by (nonlinear_arith)
        requires
            x > y,
            d > 0,
    ;
}

/// The scores of a batch lie above `top - span` and no higher than `top`.
pub proof fn law_ranked_bounds(i: usize, count: usize, top: u32, span: u32)
    requires
        i < count,
        span > 0,
    ensures
        ({
            let r = Relevance::Ranked { index: i, count, top, span };
            (top - span) * r.denominator() < r.numerator() <= top * r.denominator()
        }),
{
    assert((top - span) * count < top * count - i * span <= top * count) by (nonlinear_arith)
        requires
            i < count,
            span > 0,
    ;
}

/// One entry of a row's action menu.
#[derive(Debug, PartialEq, Eq)]
pub struct Action {
    pub id: String,
    pub label: String,
    pub hint: Option<String>,
    pub opens_form: bool,
    pub shortcut: Option<String>,
}

#[verifier::ext_equal]
pub struct ActionModel {
    pub id: Seq<char>,
    pub label: Seq<char>,
    pub hint: Option<Seq<char>>,
    pub opens_form: bool,
    pub shortcut: Option<Seq<char>>,
}

impl DeepView for Action {
    type V = ActionModel;

    open spec fn deep_view(&self) -> ActionModel {
        ActionModel {
            id: self.id@,
            label: self.label@,
            hint: self.hint.deep_view(),
            opens_form: self.opens_form,
            shortcut: self.shortcut.deep_view(),
        }
    }
}

/// An action without hint or shortcut.
pub open spec fn plain_action(id: Seq<char>, label: Seq<char>) -> ActionModel {
    ActionModel { id, label, hint: None, opens_form: false, shortcut: None }
}

/// An action with a hint and no shortcut.
pub open spec fn hinted_action(id: Seq<char>, label: Seq<char>, hint: Seq<char>) -> ActionModel {
    ActionModel { id, label, hint: Some(hint), opens_form: false, shortcut: None }
}

impl Action {
    /// An action without hint or shortcut.
    pub fn plain(id: &str, label: &str) -> (r: Action)
        ensures
            r.deep_view() == plain_action(id@, label@),
    {
        Action {
            id: id.to_owned(),
            label: label.to_owned(),
            hint: None,
            opens_form: false,
            shortcut: None,
        }
    }

    /// An action with a hint and no shortcut.
    pub fn hinted(id: &str, label: &str, hint: &str) -> (r: Action)
        ensures
            r.deep_view() == hinted_action(id@, label@, hint@),
    {
        Action {
            id: id.to_owned(),
            label: label.to_owned(),
            hint: Some(hint.to_owned()),
            opens_form: false,
            shortcut: None,
        }
    }
}

/// The pictures that come with the extensions.
#[derive(Debug, Clone, Copy, PartialEq, Eq)]
pub enum IconAsset {
    Repo,
    Star,
    Bell,
    Code,
    User,
    PullRequest,
    Issue,
    Emoji,
    Music,
}

/// The picture of a row: one that comes with the extension, or one given by
/// its type and data.
#[derive(Debug, PartialEq, Eq)]
pub enum ResultIcon {
    Asset(IconAsset),
    Inline { mime: String, data_base64: String },
}

#[verifier::ext_equal]
pub enum ResultIconModel {
    Asset(IconAsset),
    Inline { mime: Seq<char>, data_base64: Seq<char> },
}

impl DeepView for ResultIcon {
    type V = ResultIconModel;

    open spec fn deep_view(&self) -> ResultIconModel {
        match self {
            ResultIcon::Asset(a) => ResultIconModel::Asset(*a),
            ResultIcon::Inline { mime, data_base64 } => ResultIconModel::Inline {
                mime: mime@,
                data_base64: data_base64@,
            },
        }
    }
}

impl ResultIcon {
    /// A copy of the icon.
    pub fn copy(&self) -> (r: ResultIcon)
        ensures
            r.deep_view() == self.deep_view(),
    {
        match self {
            ResultIcon::Asset(a) => ResultIcon::Asset(*a),
            ResultIcon::Inline { mime, data_base64 } => ResultIcon::Inline {
                mime: mime.clone(),
                data_base64: data_base64.clone(),
            },
        }
    }
}

/// One row in the launcher.
#[derive(Debug, PartialEq, Eq)]
pub struct ExtensionResult {
    pub id: String,
    pub title: String,
    pub subtitle: Option<String>,
    pub relevance: Relevance,
    pub actions: Vec<Action>,
    pub icon: Option<ResultIcon>,
    pub badge: Option<String>,
}

#[verifier::ext_equal]
pub struct ResultModel {
    pub id: Seq<char>,
    pub title: Seq<char>,
    pub subtitle: Option<Seq<char>>,
    pub relevance: Relevance,
    pub actions: Seq<ActionModel>,
    pub icon: Option<ResultIconModel>,
    pub badge: Option<Seq<char>>,
}

impl DeepView for ExtensionResult {
    type V = ResultModel;

    open spec fn deep_view(&self) -> ResultModel {
        ResultModel {
            id: self.id@,
            title: self.title@,
            subtitle: self.subtitle.deep_view(),
            relevance: self.relevance,
            actions: self.actions.deep_view(),
            icon: self.icon.deep_view(),
            badge: self.badge.deep_view(),
        }
    }
}

/// How a toast is shown.
#[derive(Debug, Clone, Copy, PartialEq, Eq)]
pub enum ToastLevel {
    Success,
    Error,
}

/// One choice of a select field.
#[derive(Debug, PartialEq, Eq)]
pub struct FormOption {
    pub value: String,
    pub label: String,
}

#[verifier::ext_equal]
pub struct FormOptionModel {
    pub value: Seq<char>,
    pub label: Seq<char>,
}

impl DeepView for FormOption {
    type V = FormOptionModel;

    open spec fn deep_view(&self) -> FormOptionModel {
        FormOptionModel { value: self.value@, label: self.label@ }
    }
}

/// One field of a form.
#[derive(Debug, PartialEq, Eq)]
pub struct FormField {
    pub id: String,
    pub label: String,
    pub kind: String,
    pub required: bool,
    pub placeholder: Option<String>,
    pub options: Vec<FormOption>,
}

#[verifier::ext_equal]
pub struct FormFieldModel {
    pub id: Seq<char>,
    pub label: Seq<char>,
    pub kind: Seq<char>,
    pub required: bool,
    pub placeholder: Option<Seq<char>>,
    pub options: Seq<FormOptionModel>,
}

impl DeepView for FormField {
    type V = FormFieldModel;

    open spec fn deep_view(&self) -> FormFieldModel {
        FormFieldModel {
            id: self.id@,
            label: self.label@,
            kind: self.kind@,
            required: self.required,
            placeholder: self.placeholder.deep_view(),
            options: self.options.deep_view(),
        }
    }
}

/// What the launcher does when a row is activated.
#[derive(Debug, PartialEq, Eq)]
pub enum ActivateEffect {
    OpenUrl { url: String },
    CopyText { text: String },
    ShowToast { message: String, level: ToastLevel },
    ShowForm {
        title: String,
        fields: Vec<FormField>,
        submit_action: String,
        submit_label: Option<String>,
    },
    KeepOpen,
    Hide,
    RefreshResults,
}

#[verifier::ext_equal]
pub enum EffectModel {
    OpenUrl { url: Seq<char> },
    CopyText { text: Seq<char> },
    ShowToast { message: Seq<char>, level: ToastLevel },
    ShowForm {
        title: Seq<char>,
        fields: Seq<FormFieldModel>,
        submit_action: Seq<char>,
        submit_label: Option<Seq<char>>,
    },
    KeepOpen,
    Hide,
    RefreshResults,
}

impl DeepView for ActivateEffect {
    type V = EffectModel;

    open spec fn deep_view(&self) -> EffectModel {
        match self {
            ActivateEffect::OpenUrl { url } => EffectModel::OpenUrl { url: url@ },
            ActivateEffect::CopyText { text } => EffectModel::CopyText { text: text@ },
            ActivateEffect::ShowToast { message, level } => EffectModel::ShowToast {
                message: message@,
                level: *level,
            },
            ActivateEffect::ShowForm { title, fields, submit_action, submit_label } =>
                EffectModel::ShowForm {
                title: title@,
                fields: fields.deep_view(),
                submit_action: submit_action@,
                submit_label: submit_label.deep_view(),
            },
            ActivateEffect::KeepOpen => EffectModel::KeepOpen,
            ActivateEffect::Hide => EffectModel::Hide,
            ActivateEffect::RefreshResults => EffectModel::RefreshResults,
        }
    }
}

/// The effects that open `url`.
pub open spec fn opening(url: Seq<char>) -> Seq<EffectModel> {
    seq![EffectModel::OpenUrl { url }]
}

/// The effects that show one toast.
pub open spec fn toasting(message: Seq<char>, level: ToastLevel) -> Seq<EffectModel> {
    seq![EffectModel::ShowToast { message, level }]
}

/// The effects that copy `text` and say so.
pub open spec fn copying(text: Seq<char>, message: Seq<char>) -> Seq<EffectModel> {
    seq![
        EffectModel::CopyText { text },
        EffectModel::ShowToast { message, level: ToastLevel::Success },
    ]
}

/// Opens `url`.
pub fn open(url: String) -> (r: Vec<ActivateEffect>)
    ensures
        r.deep_view() == opening(url@),
{
    vec![ActivateEffect::OpenUrl { url }]
}

/// Shows one toast.
pub fn toast(message: String, level: ToastLevel) -> (r: Vec<ActivateEffect>)
    ensures
        r.deep_view() == toasting(message@, level),
{
    vec![ActivateEffect::ShowToast { message, level }]
}

/// Copies `text` and shows the toast `msg`.
pub fn copy_toast(text: String, msg: &str) -> (r: Vec<ActivateEffect>)
    ensures
        r.deep_view() == copying(text@, msg@),
{
    vec![
        ActivateEffect::CopyText { text },
        ActivateEffect::ShowToast { message: msg.to_owned(), level: ToastLevel::Success },
    ]
}

/// One line of a metadata preview.
#[derive(Debug, PartialEq, Eq)]
pub struct MetadataItem {
    pub label: String,
    pub value: String,
}

#[verifier::ext_equal]
pub struct MetadataModel {
    pub label: Seq<char>,
    pub value: Seq<char>,
}

impl DeepView for MetadataItem {
    type V = MetadataModel;

    open spec fn deep_view(&self) -> MetadataModel {
        MetadataModel { label: self.label@, value: self.value@ }
    }
}

/// The metadata line `label`: `value`.
pub open spec fn meta(label: Seq<char>, value: Seq<char>) -> MetadataModel {
    MetadataModel { label, value }
}

/// The metadata line `label`: `value`.
pub fn item(label: &str, value: String) -> (r: MetadataItem)
    ensures
        r.deep_view() == meta(label@, value@),
{
    MetadataItem { label: label.to_owned(), value }
}

/// What the preview pane shows.
#[derive(Debug, PartialEq, Eq)]
pub enum PreviewContent {
    Metadata { items: Vec<MetadataItem> },
    Markdown { content: String },
    Html { content: String },
    Code { lang: String, content: String },
}

#[verifier::ext_equal]
pub enum PreviewModel {
    Metadata { items: Seq<MetadataModel> },
    Markdown { content: Seq<char> },
    Html { content: Seq<char> },
    Code { lang: Seq<char>, content: Seq<char> },
}

impl DeepView for PreviewContent {
    type V = PreviewModel;

    open spec fn deep_view(&self) -> PreviewModel {
        match self {
            PreviewContent::Metadata { items } => PreviewModel::Metadata {
                items: items.deep_view(),
            },
            PreviewContent::Markdown { content } => PreviewModel::Markdown { content: content@ },
            PreviewContent::Html { content } => PreviewModel::Html { content: content@ },
            PreviewContent::Code { lang, content } => PreviewModel::Code {
                lang: lang@,
                content: content@,
            },
        }
    }
}

impl PreviewContent {
    /// A copy of what is shown.
    pub fn copy(&self) -> (r: PreviewContent)
        ensures
            r.deep_view() == self.deep_view(),
    {
        match self {
            PreviewContent::Metadata { items } => {
                let mut out: Vec<MetadataItem> = Vec::new();
                let mut i: usize = 0;
                while i < items.len()
                    invariant
                        i <= items.len(),
                        out.deep_view() == items.deep_view().take(i as int),
                    decreases items.len() - i,
                {
                    let ghost before = out.deep_view();
                    out.push(item(items[i].label.as_str(), items[i].value.clone()));
                    assert(out.deep_view() =~= before.push(items.deep_view()[i as int]));
                    assert(items.deep_view().take(i + 1) =~= before.push(
                        items.deep_view()[i as int],
                    ));
                    i = i + 1;
                }
                assert(items.deep_view().take(i as int) =~= items.deep_view());
                PreviewContent::Metadata { items: out }
            },
            PreviewContent::Markdown { content } => PreviewContent::Markdown {
                content: content.clone(),
            },
            PreviewContent::Html { content } => PreviewContent::Html { content: content.clone() },
            PreviewContent::Code { lang, content } => PreviewContent::Code {
                lang: lang.clone(),
                content: content.clone(),
            },
        }
    }
}

// ---------------------------------------------------------------------------
// Requests
// ---------------------------------------------------------------------------

/// A request for the launcher to send; `GET` where it names no method.
#[derive(Debug, PartialEq, Eq)]
pub struct Request {
    pub method: Option<String>,
    pub url: String,
    pub headers: Vec<(String, String)>,
    pub body: Option<String>,
}

#[verifier::ext_equal]
pub struct RequestModel {
    pub method: Option<Seq<char>>,
    pub url: Seq<char>,
    pub headers: Seq<(Seq<char>, Seq<char>)>,
    pub body: Option<Seq<char>>,
}

impl DeepView for Request {
    type V = RequestModel;

    open spec fn deep_view(&self) -> RequestModel {
        RequestModel {
            method: self.method.deep_view(),
            url: self.url@,
            headers: self.headers.deep_view(),
            body: self.body.deep_view(),
        }
    }
}

/// The text of a reply's body.
pub fn body_text(body: &[u8]) -> (r: String)
    ensures
        r@ == lossy_text(body@),
        valid_utf8(body@) ==> r@ == decode_utf8(body@),
{
    from_utf8_lossy(body)
}

/// Opening, copying and saying something each do just that: a page is opened, a
/// text is copied and that is said as a success, a message is shown.
pub proof fn law_effects_do_one_thing(text: Seq<char>, message: Seq<char>, level: ToastLevel)
    ensures
        opening(text) == seq![EffectModel::OpenUrl { url: text }],
        toasting(message, level) == seq![EffectModel::ShowToast { message, level }],
        copying(text, message).len() == 2,
        copying(text, message)[0] == (EffectModel::CopyText { text }),
        copying(text, message)[1] == (EffectModel::ShowToast {
            message,
            level: ToastLevel::Success,
        }),
{
}

/// Of two names that a term begins, the share of the shorter is above that of the
/// longer, and a fixed score is above another just where it is higher.
pub proof fn law_scores_compare(part: usize, short: usize, long: usize, a: u32, b: u32)
    requires
        0 < part,
        0 < short < long,
    ensures
        (Relevance::Share { part, whole: short }).above(Relevance::Share { part, whole: long }),
        (Relevance::Fixed(a)).above(Relevance::Fixed(b)) <==> a > b,
{
    assert(100 * part * long > 100 * part * short) by (nonlinear_arith)
        requires
            0 < part,
            0 < short < long,
    ;
}

/// An action is called by its id and shown with its label, and with a hint where
/// one is given; it opens no form and has no shortcut.
pub proof fn law_actions_are_what_they_are_given(id: Seq<char>, label: Seq<char>, hint: Seq<char>)
    ensures
        plain_action(id, label).id == id && plain_action(id, label).label == label,
        plain_action(id, label).hint is None && plain_action(id, label).shortcut is None,
        hinted_action(id, label, hint).id == id && hinted_action(id, label, hint).label == label,
        hinted_action(id, label, hint).hint == Some(hint),
        !plain_action(id, label).opens_form && !hinted_action(id, label, hint).opens_form,
        meta(label, hint).label == label && meta(label, hint).value == hint,
{
}

} // verus!

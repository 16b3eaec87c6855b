//! Activity records: the raw payload a session sends and the canonical
//! record published for it.

use vstd::prelude::*;

verus! {

/// The characters of an optional string.
pub open spec fn opt_text(o: Option<String>) -> Option<Seq<char>> {
    match o {
        Some(s) => Some(s@),
        None => None,
    }
}

/// The characters of each string of a list, in order.
pub open spec fn texts(v: Seq<String>) -> Seq<Seq<char>> {
    Seq::new(v.len(), |i: int| v[i]@)
}

/// Image keys and hover texts of an activity. Every field is optional.
#[derive(Debug, PartialEq, Eq)]
pub struct Assets {
    pub large_image: Option<String>,
    pub large_text: Option<String>,
    pub small_image: Option<String>,
    pub small_text: Option<String>,
}

/// What a [`Assets`] stands for in contracts: the same value with its
/// strings and lists as sequences.
pub struct AssetsView {
    pub large_image: Option<Seq<char>>,
    pub large_text: Option<Seq<char>>,
    pub small_image: Option<Seq<char>>,
    pub small_text: Option<Seq<char>>,
}

impl View for Assets {
    type V = AssetsView;

    open spec fn view(&self) -> AssetsView {
        AssetsView {
            large_image: opt_text(self.large_image),
            large_text: opt_text(self.large_text),
            small_image: opt_text(self.small_image),
            small_text: opt_text(self.small_text),
        }
    }
}

impl AssetsView {
    /// No field is set.
    pub open spec fn is_empty(self) -> bool {
        &&& self.large_image is None
        &&& self.large_text is None
        &&& self.small_image is None
        &&& self.small_text is None
    }
}

impl Clone for Assets {
    fn clone(&self) -> (res: Self)
        ensures
            res@ == self@,
    {
        Assets {
            large_image: clone_opt_string(&self.large_image),
            large_text: clone_opt_string(&self.large_text),
            small_image: clone_opt_string(&self.small_image),
            small_text: clone_opt_string(&self.small_text),
        }
    }
}

impl Assets {
    /// Whether no image and no text is set.
    pub fn is_empty(&self) -> (empty: bool)
        ensures
            empty == self@.is_empty(),
    {
        self.large_image.is_none() && self.large_text.is_none() && self.small_image.is_none()
            && self.small_text.is_none()
    }
}

/// A copy of an optional string.
pub(crate) fn clone_opt_string(o: &Option<String>) -> (res: Option<String>)
    ensures
        res == *o,
{
    match o {
        Some(s) => Some(s.clone()),
        None => None,
    }
}

/// A copy of a list of strings.
pub(crate) fn clone_strings(v: &Vec<String>) -> (res: Vec<String>)
    ensures
        res@ == v@,
{
    let mut res: Vec<String> = Vec::new();
    let mut i: usize = 0;
    while i < v.len()
        invariant
            i <= v.len(),
            res@ == v@.take(i as int),
        decreases v.len() - i,
    {
        res.push(v[i].clone());
        i = i + 1;
    }
    res
}

/// A button as an application states it: a label and the link behind it.
#[derive(Debug, PartialEq, Eq)]
pub struct Button {
    pub label: String,
    pub url: String,
}

/// What a [`Button`] stands for in contracts: the same value with its
/// strings and lists as sequences.
pub struct ButtonView {
    pub label: Seq<char>,
    pub url: Seq<char>,
}

impl View for Button {
    type V = ButtonView;

    open spec fn view(&self) -> ButtonView {
        ButtonView { label: self.label@, url: self.url@ }
    }
}

impl Clone for Button {
    fn clone(&self) -> (res: Self)
        ensures
            res@ == self@,
    {
        Button { label: self.label.clone(), url: self.url.clone() }
    }
}

/// The view of each button of a list, in order.
pub open spec fn button_views(v: Seq<Button>) -> Seq<ButtonView> {
    Seq::new(v.len(), |i: int| v[i]@)
}

/// The labels of a list of buttons, in order.
pub open spec fn button_labels(buttons: Seq<ButtonView>) -> Seq<Seq<char>> {
    Seq::new(buttons.len(), |i: int| buttons[i].label)
}

/// The links of a list of buttons, in order.
pub open spec fn button_urls(buttons: Seq<ButtonView>) -> Seq<Seq<char>> {
    Seq::new(buttons.len(), |i: int| buttons[i].url)
}

/// When an activity started and, if known, when it ends.
#[derive(Debug, Clone, Copy, PartialEq, Eq)]
pub struct Timestamps {
    pub start: u64,
    pub end: Option<u64>,
}

/// The activity payload as a session sends it.
#[derive(Debug, PartialEq, Eq)]
pub struct IpcPartialActivity {
    pub state: String,
    pub details: String,
    pub assets: Assets,
    pub buttons: Vec<Button>,
    pub instance: bool,
    pub timestamps: Option<Timestamps>,
}

/// What a [`IpcPartialActivity`] stands for in contracts: the same value with its
/// strings and lists as sequences.
pub struct IpcPartialActivityView {
    pub state: Seq<char>,
    pub details: Seq<char>,
    pub assets: AssetsView,
    pub buttons: Seq<ButtonView>,
    pub instance: bool,
    pub timestamps: Option<Timestamps>,
}

impl View for IpcPartialActivity {
    type V = IpcPartialActivityView;

    open spec fn view(&self) -> IpcPartialActivityView {
        IpcPartialActivityView {
            state: self.state@,
            details: self.details@,
            assets: self.assets@,
            buttons: button_views(self.buttons@),
            instance: self.instance,
            timestamps: self.timestamps,
        }
    }
}

impl Clone for IpcPartialActivity {
    fn clone(&self) -> (res: Self)
        ensures
            res@ == self@,
    {
        let mut buttons: Vec<Button> = Vec::new();
        let mut i: usize = 0;
        while i < self.buttons.len()
            invariant
                i <= self.buttons.len(),
                buttons@.len() == i,
                forall|j: int| 0 <= j < i ==> buttons@[j]@ == self.buttons@[j]@,
            decreases self.buttons.len() - i,
        {
            buttons.push(self.buttons[i].clone());
            i = i + 1;
        }
        proof {
            assert(button_views(buttons@) =~= button_views(self.buttons@));
        }
        IpcPartialActivity {
            state: self.state.clone(),
            details: self.details.clone(),
            assets: self.assets.clone(),
            buttons,
            instance: self.instance,
            timestamps: self.timestamps,
        }
    }
}

/// The view of an optional raw activity.
pub open spec fn opt_partial_view(o: Option<IpcPartialActivity>) -> Option<IpcPartialActivityView> {
    match o {
        Some(a) => Some(a@),
        None => None,
    }
}

/// A raw activity together with the session and process it came from.
#[derive(Debug, PartialEq, Eq)]
pub struct IpcPartialActivityMessage {
    pub activity: Option<IpcPartialActivity>,
    pub socket_id: String,
    pub pid: usize,
}

/// What a [`IpcPartialActivityMessage`] stands for in contracts: the same value with its
/// strings and lists as sequences.
pub struct IpcPartialActivityMessageView {
    pub activity: Option<IpcPartialActivityView>,
    pub socket_id: Seq<char>,
    pub pid: usize,
}

impl View for IpcPartialActivityMessage {
    type V = IpcPartialActivityMessageView;

    open spec fn view(&self) -> IpcPartialActivityMessageView {
        IpcPartialActivityMessageView {
            activity: opt_partial_view(self.activity),
            socket_id: self.socket_id@,
            pid: self.pid,
        }
    }
}

/// What a published activity carries beside its visible fields.
#[derive(Debug, PartialEq, Eq)]
pub struct IpcActivityMetadata {
    pub button_urls: Vec<String>,
}

/// What a [`IpcActivityMetadata`] stands for in contracts: the same value with its
/// strings and lists as sequences.
pub struct IpcActivityMetadataView {
    pub button_urls: Seq<Seq<char>>,
}

impl View for IpcActivityMetadata {
    type V = IpcActivityMetadataView;

    open spec fn view(&self) -> IpcActivityMetadataView {
        IpcActivityMetadataView { button_urls: texts(self.button_urls@) }
    }
}

/// The canonical activity record published for one session.
///
/// `buttons` and `metadata.button_urls` are parallel: entry `i` of each
/// comes from button `i` of the raw activity.
#[derive(Debug, PartialEq, Eq)]
pub struct IpcActivity {
    pub application_id: String,
    pub state: String,
    pub details: String,
    pub flags: u64,
    pub activity_type: u64,
    pub assets: Assets,
    pub buttons: Vec<String>,
    pub metadata: IpcActivityMetadata,
    pub instance: bool,
    pub timestamps: Option<Timestamps>,
}

/// What a [`IpcActivity`] stands for in contracts: the same value with its
/// strings and lists as sequences.
pub struct IpcActivityView {
    pub application_id: Seq<char>,
    pub state: Seq<char>,
    pub details: Seq<char>,
    pub flags: u64,
    pub activity_type: u64,
    pub assets: AssetsView,
    pub buttons: Seq<Seq<char>>,
    pub metadata: IpcActivityMetadataView,
    pub instance: bool,
    pub timestamps: Option<Timestamps>,
}

impl View for IpcActivity {
    type V = IpcActivityView;

    open spec fn view(&self) -> IpcActivityView {
        IpcActivityView {
            application_id: self.application_id@,
            state: self.state@,
            details: self.details@,
            flags: self.flags,
            activity_type: self.activity_type,
            assets: self.assets@,
            buttons: texts(self.buttons@),
            metadata: self.metadata@,
            instance: self.instance,
            timestamps: self.timestamps,
        }
    }
}

impl IpcActivityView {
    /// What holds of every record that the gateway makes: there are as
    /// many links as labels, `flags` says whether the activity is
    /// instanced, and the type is 0.
    pub open spec fn well_formed(self) -> bool {
        &&& self.buttons.len() == self.metadata.button_urls.len()
        &&& self.flags == if self.instance { 1u64 } else { 0u64 }
        &&& self.activity_type == 0
    }
}

impl Clone for IpcActivity {
    fn clone(&self) -> (res: Self)
        ensures
            res@ == self@,
    {
        IpcActivity {
            application_id: self.application_id.clone(),
            state: self.state.clone(),
            details: self.details.clone(),
            flags: self.flags,
            activity_type: self.activity_type,
            assets: self.assets.clone(),
            buttons: clone_strings(&self.buttons),
            metadata: IpcActivityMetadata { button_urls: clone_strings(&self.metadata.button_urls) },
            instance: self.instance,
            timestamps: self.timestamps,
        }
    }
}

/// The view of an optional activity record.
pub open spec fn opt_activity_view(o: Option<IpcActivity>) -> Option<IpcActivityView> {
    match o {
        Some(a) => Some(a@),
        None => None,
    }
}

/// What the relay publishes for a session: its activity record, or `None`
/// to clear what was shown for it.
#[derive(Debug, PartialEq, Eq)]
pub struct IpcActivityMessage {
    pub activity: Option<IpcActivity>,
    pub socket_id: String,
    pub pid: usize,
}

/// What a [`IpcActivityMessage`] stands for in contracts: the same value with its
/// strings and lists as sequences.
pub struct IpcActivityMessageView {
    pub activity: Option<IpcActivityView>,
    pub socket_id: Seq<char>,
    pub pid: usize,
}

impl View for IpcActivityMessage {
    type V = IpcActivityMessageView;

    open spec fn view(&self) -> IpcActivityMessageView {
        IpcActivityMessageView {
            activity: opt_activity_view(self.activity),
            socket_id: self.socket_id@,
            pid: self.pid,
        }
    }
}

impl Clone for IpcActivityMessage {
    fn clone(&self) -> (res: Self)
        ensures
            res@ == self@,
    {
        IpcActivityMessage {
            activity: match &self.activity {
                Some(a) => Some(a.clone()),
                None => None,
            },
            socket_id: self.socket_id.clone(),
            pid: self.pid,
        }
    }
}

/// The canonical record for a raw activity: the application is the
/// session's client identity (empty while unknown), `flags` is 1 for an
/// instanced activity and 0 otherwise, the type is 0, the labels and the
/// links of the buttons are split into two parallel lists, and everything
/// else is passed through.
pub open spec fn normalize_activity(
    raw: IpcPartialActivityView,
    client_id: Option<Seq<char>>,
) -> IpcActivityView {
    IpcActivityView {
        application_id: match client_id {
            Some(id) => id,
            None => Seq::empty(),
        },
        state: raw.state,
        details: raw.details,
        flags: if raw.instance { 1 } else { 0 },
        activity_type: 0,
        assets: raw.assets,
        buttons: button_labels(raw.buttons),
        metadata: IpcActivityMetadataView { button_urls: button_urls(raw.buttons) },
        instance: raw.instance,
        timestamps: raw.timestamps,
    }
}

/// The message published for a raw payload: no activity where the payload
/// is absent, its canonical record otherwise.
pub open spec fn normalize(
    partial: Option<IpcPartialActivityView>,
    pid: usize,
    socket_id: Seq<char>,
    client_id: Option<Seq<char>>,
) -> IpcActivityMessageView {
    IpcActivityMessageView {
        activity: match partial {
            Some(raw) => Some(normalize_activity(raw, client_id)),
            None => None,
        },
        socket_id,
        pid,
    }
}

impl IpcPartialActivityMessage {
    /// Turns a session's raw payload into the message to publish for it.
    pub fn to_full_message(
        partial: Option<IpcPartialActivity>,
        pid: usize,
        socket_id: String,
        client_id: &Option<String>,
    ) -> (message: IpcActivityMessage)
        ensures
            message@ == normalize(opt_partial_view(partial), pid, socket_id@, opt_text(*client_id)),
            message@.activity matches Some(activity) ==> activity.well_formed(),
    {
        let activity = match partial {
            Some(raw) => {
                let application_id = match client_id {
                    Some(id) => id.clone(),
                    None => String::new(),
                };
                let flags: u64 = if raw.instance { 1 } else { 0 };
                let mut labels: Vec<String> = Vec::new();
                let mut urls: Vec<String> = Vec::new();
                let mut i: usize = 0;
                while i < raw.buttons.len()
                    invariant
                        i <= raw.buttons.len(),
                        labels@.len() == i,
                        urls@.len() == i,
                        forall|j: int| 0 <= j < i ==> labels@[j]@ == raw.buttons@[j].label@,
                        forall|j: int| 0 <= j < i ==> urls@[j]@ == raw.buttons@[j].url@,
                    decreases raw.buttons.len() - i,
                {
                    labels.push(raw.buttons[i].label.clone());
                    urls.push(raw.buttons[i].url.clone());
                    i = i + 1;
                }
                proof {
                    assert(texts(labels@) =~= button_labels(raw@.buttons));
                    assert(texts(urls@) =~= button_urls(raw@.buttons));
                }
                Some(
                    IpcActivity {
                        application_id,
                        state: raw.state,
                        details: raw.details,
                        flags,
                        activity_type: 0,
                        assets: raw.assets,
                        buttons: labels,
                        metadata: IpcActivityMetadata { button_urls: urls },
                        instance: raw.instance,
                        timestamps: raw.timestamps,
                    },
                )
            },
            None => None,
        };
        IpcActivityMessage { activity, socket_id, pid }
    }
}

/// Button correspondence: the record made from a raw activity with `n`
/// buttons has `n` labels and `n` links, and label `i` and link `i` are
/// those of button `i`.
pub proof fn lemma_buttons_correspond(raw: IpcPartialActivityView, client_id: Option<Seq<char>>)
    ensures
        normalize_activity(raw, client_id).well_formed(),
        normalize_activity(raw, client_id).buttons.len() == raw.buttons.len(),
        normalize_activity(raw, client_id).metadata.button_urls.len() == raw.buttons.len(),
        forall|i: int|
            0 <= i < raw.buttons.len() ==> {
                &&& #[trigger] normalize_activity(raw, client_id).buttons[i] == raw.buttons[i].label
                &&& normalize_activity(raw, client_id).metadata.button_urls[i]
                    == raw.buttons[i].url
            },
{
}

} // verus!

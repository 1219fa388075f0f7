//! The new/edit connection dialog.
//!
//! Every input is made from the schema of the chosen service, so the form asks for exactly
//! what that backend needs and nothing else.

use vstd::prelude::*;
use crate::entry::Icon;
use crate::text::{
    cat, decimal, is_empty, lemma_trimmed_twice, number, same, text_option, trim, trimmed,
};
use crate::text_map::TextMap;

verus! {

/// The scheme of the service that was removed. What was saved for it can be shown and
/// removed, but neither connected nor edited.
pub const REMOVED_SCHEME: &'static str = "sftp";

/// How a field is filled in.
#[derive(Clone, Copy, Debug)]
pub enum FieldKind {
    Text,
    Secret,
    Path,
    /// One of two values.
    Toggle { on: &'static str, off: &'static str },
}

/// A field of a service's schema.
#[derive(Clone, Copy, Debug)]
pub struct Field {
    pub key: &'static str,
    pub label: &'static str,
    pub hint: &'static str,
    pub required: bool,
    pub secret: bool,
    pub kind: FieldKind,
    /// What the field holds to begin with.
    pub default_value: &'static str,
}

/// A kind of backend, with the fields it needs.
#[derive(Debug)]
pub struct Service {
    pub scheme: &'static str,
    pub label: &'static str,
    pub fields: Vec<Field>,
}

/// One field of the form, holding whichever kind of state it needs.
#[derive(Debug)]
pub struct FieldInput {
    pub field: Field,
    /// The text typed, absent for a toggle.
    pub text: Option<String>,
    /// Whether a toggle is on.
    pub on: bool,
    /// What the empty input shows.
    pub placeholder: Option<&'static str>,
    /// Whether the text is drawn as dots.
    pub masked: bool,
}

/// A [`FieldInput`] by what it holds.
pub struct InputState {
    pub field: Field,
    pub text: Option<Seq<char>>,
    pub on: bool,
    pub placeholder: Option<&'static str>,
    pub masked: bool,
}

impl View for FieldInput {
    type V = InputState;

    open spec fn view(&self) -> InputState {
        InputState {
            field: self.field,
            text: text_option(self.text),
            on: self.on,
            placeholder: self.placeholder,
            masked: self.masked,
        }
    }
}

/// The form.
#[derive(Debug)]
pub struct ConnectionForm {
    /// The connection that saving replaces. Without one, saving adds a connection.
    editing: Option<String>,
    name: String,
    scheme: &'static str,
    label: &'static str,
    fields: Vec<FieldInput>,
}

/// A [`ConnectionForm`] by what it holds.
pub struct FormState {
    pub editing: Option<Seq<char>>,
    pub name: Seq<char>,
    pub scheme: &'static str,
    pub label: &'static str,
    pub fields: Seq<InputState>,
}

/// The inputs by what they hold.
pub open spec fn inputs_of(fields: Seq<FieldInput>) -> Seq<InputState> {
    fields.map_values(|input: FieldInput| input@)
}

impl View for ConnectionForm {
    type V = FormState;

    closed spec fn view(&self) -> FormState {
        FormState {
            editing: text_option(self.editing),
            name: self.name@,
            scheme: self.scheme,
            label: self.label,
            fields: inputs_of(self.fields@),
        }
    }
}

/// What a field is filled with: the value given for it, or its default.
pub open spec fn seed(field: Field, values: Map<Seq<char>, Seq<char>>) -> Seq<char> {
    if values.contains_key(field.key@) {
        values[field.key@]
    } else {
        field.default_value@
    }
}

/// What an empty input says. The numeric ids and ports of network shares say what leaving
/// them out means.
pub open spec fn hint_of(field: Field) -> Seq<char> {
    if field.key@ == "uid"@ || field.key@ == "gid"@ {
        "默认 65534"@
    } else if field.key@ == "nfs_port"@ || field.key@ == "mount_port"@ {
        "自动发现"@
    } else {
        field.hint@
    }
}

/// Whether an input is one for the field, filled from the values.
pub open spec fn seeded(
    input: InputState,
    field: Field,
    values: Map<Seq<char>, Seq<char>>,
) -> bool {
    &&& input.field == field
    &&& match field.kind {
        FieldKind::Toggle { on, .. } => {
            &&& input.text is None
            &&& input.on == (seed(field, values) == on@)
            &&& input.placeholder is None
            &&& !input.masked
        },
        _ => {
            &&& input.text == Some(seed(field, values))
            &&& !input.on
            &&& match input.placeholder {
                Some(hint) => hint@ == hint_of(field) && hint@.len() > 0,
                None => hint_of(field).len() == 0,
            }
            &&& input.masked == field.secret
        },
    }
}

/// Whether the inputs are those of a schema, filled from the values.
pub open spec fn filled(
    inputs: Seq<InputState>,
    fields: Seq<Field>,
    values: Map<Seq<char>, Seq<char>>,
) -> bool {
    &&& inputs.len() == fields.len()
    &&& forall|i: int| 0 <= i < inputs.len() ==> seeded(#[trigger] inputs[i], fields[i], values)
}

/// An input's value: its text without the white space around it, or the one of a toggle's
/// two values that is chosen.
pub open spec fn value_of(input: InputState) -> Seq<char> {
    match input.text {
        Some(text) => trimmed(text),
        None => match input.field.kind {
            FieldKind::Toggle { on, off } => if input.on {
                on@
            } else {
                off@
            },
            _ => Seq::empty(),
        },
    }
}

/// The inputs' values by their fields' keys.
pub open spec fn values_of(inputs: Seq<InputState>) -> Map<Seq<char>, Seq<char>>
    decreases inputs.len(),
{
    if inputs.len() == 0 {
        Map::empty()
    } else {
        values_of(inputs.drop_last()).insert(inputs.last().field.key@, value_of(inputs.last()))
    }
}

impl FieldInput {
    pub fn value(&self) -> (r: String)
        ensures
            r@ == value_of(self@),
    {
        match &self.text {
            Some(text) => trim(text.as_str()).to_owned(),
            None => match self.field.kind {
                FieldKind::Toggle { on, off } => if self.on {
                    on.to_owned()
                } else {
                    off.to_owned()
                },
                _ => String::new(),
            },
        }
    }
}

fn hint_for(field: &Field) -> (r: &'static str)
    ensures
        r@ == hint_of(*field),
{
    if same(field.key, "uid") || same(field.key, "gid") {
        "默认 65534"
    } else if same(field.key, "nfs_port") || same(field.key, "mount_port") {
        "自动发现"
    } else {
        field.hint
    }
}

fn input_for(field: &Field, values: &TextMap) -> (r: FieldInput)
    ensures
        seeded(r@, *field, values@),
{
    let seeded: &str = match values.get(field.key) {
        Some(value) => value,
        None => field.default_value,
    };
    match field.kind {
        FieldKind::Toggle { on, .. } => FieldInput {
            field: *field,
            text: None,
            on: same(seeded, on),
            placeholder: None,
            masked: false,
        },
        _ => {
            let hint = hint_for(field);
            FieldInput {
                field: *field,
                text: Some(seeded.to_owned()),
                on: false,
                placeholder: if is_empty(hint) {
                    None
                } else {
                    Some(hint)
                },
                masked: field.secret,
            }
        },
    }
}

/// The inputs for a schema, filled from `values`.
fn inputs_for(fields: &Vec<Field>, values: &TextMap) -> (r: Vec<FieldInput>)
    ensures
        filled(inputs_of(r@), fields@, values@),
{
    let mut r: Vec<FieldInput> = Vec::new();
    let mut i: usize = 0;
    while i < fields.len()
        invariant
            i <= fields@.len(),
            r@.len() == i,
            forall|k: int| 0 <= k < i ==> seeded((#[trigger] r@[k])@, fields@[k], values@),
        decreases fields@.len() - i,
    {
        r.push(input_for(&fields[i], values));
        i = i + 1;
    }
    assert forall|k: int| 0 <= k < inputs_of(r@).len() implies seeded(
        #[trigger] inputs_of(r@)[k],
        fields@[k],
        values@,
    ) by {
        assert(inputs_of(r@)[k] == r@[k]@);
    }
    r
}

/// A connection ready to be saved.
#[derive(Debug)]
pub struct Draft {
    pub id: String,
    pub name: String,
    pub scheme: &'static str,
    pub values: TextMap,
}

/// A form once a text was typed into a field. There is nothing to type into a toggle.
pub open spec fn typed_into(f: FormState, ix: int, text: Seq<char>) -> FormState {
    if 0 <= ix < f.fields.len() && f.fields[ix].text is Some {
        FormState {
            fields: f.fields.update(ix, InputState { text: Some(text), ..f.fields[ix] }),
            ..f
        }
    } else {
        f
    }
}

/// A form once a toggle was moved.
pub open spec fn flipped(f: FormState, ix: int, on: bool) -> FormState {
    if 0 <= ix < f.fields.len() {
        FormState { fields: f.fields.update(ix, InputState { on, ..f.fields[ix] }), ..f }
    } else {
        f
    }
}

/// Whether a draft is what a form describes.
pub open spec fn drafted(draft: Draft, f: FormState, fresh_id: Seq<char>) -> bool {
    &&& draft.name@ == trimmed(f.name)
    &&& draft.id@ == (match f.editing {
        Some(id) => id,
        None => fresh_id,
    })
    &&& draft.scheme == f.scheme
    &&& draft.values@ == values_of(f.fields)
}

impl ConnectionForm {
    /// An empty form for a service.
    pub fn new(service: &Service) -> (r: ConnectionForm)
        ensures
            r@.editing is None,
            r@.name == Seq::<char>::empty(),
            r@.scheme == service.scheme,
            r@.label == service.label,
            filled(r@.fields, service.fields@, Map::empty()),
    {
        let values = TextMap::new();
        ConnectionForm {
            editing: None,
            name: String::new(),
            scheme: service.scheme,
            label: service.label,
            fields: inputs_for(&service.fields, &values),
        }
    }

    /// A form that shows a stored connection. `known` is the service of its scheme. Without
    /// one there is no form: fields that there is no schema for cannot be shown, and saving
    /// the fields of another service would silently rewrite the connection. There is none
    /// for the removed service either.
    pub fn editing(id: &str, name: &str, known: Option<&Service>, values: &TextMap) -> (r: Option<
        ConnectionForm,
    >)
        ensures
            match r {
                Some(form) => known is Some && known->0.scheme@ != REMOVED_SCHEME@ && form@ == (FormState {
                    editing: Some(id@),
                    name: name@,
                    scheme: known->0.scheme,
                    label: known->0.label,
                    fields: form@.fields,
                }) && filled(form@.fields, known->0.fields@, values@),
                None => known is None || known->0.scheme@ == REMOVED_SCHEME@,
            },
    {
        match known {
            Some(service) => if same(service.scheme, REMOVED_SCHEME) {
                None
            } else {
                Some(
                    ConnectionForm {
                        editing: Some(id.to_owned()),
                        name: name.to_owned(),
                        scheme: service.scheme,
                        label: service.label,
                        fields: inputs_for(&service.fields, values),
                    },
                )
            },
            None => None,
        }
    }

    /// Preselects a service. `known` is absent for a scheme that there is no service of, and
    /// nothing changes.
    pub fn select_service(&mut self, known: Option<&Service>)
        ensures
            match known {
                Some(service) => switched(old(self)@, final(self)@, *service),
                None => final(self)@ == old(self)@,
            },
    {
        match known {
            Some(service) => self.set_scheme(service),
            None => {},
        }
    }

    /// Switches to a service, carrying over any field that it also has. Choosing the service
    /// that is chosen changes nothing.
    pub fn set_scheme(&mut self, service: &Service)
        ensures
            switched(old(self)@, final(self)@, *service),
    {
        if same(self.scheme, service.scheme) {
            return;
        }
        let carried = self.values();
        self.scheme = service.scheme;
        self.label = service.label;
        self.fields = inputs_for(&service.fields, &carried);
    }

    pub fn scheme(&self) -> (r: &'static str)
        ensures
            r == self@.scheme,
    {
        self.scheme
    }

    /// The chosen service's name.
    pub fn label(&self) -> (r: &'static str)
        ensures
            r == self@.label,
    {
        self.label
    }

    pub fn name(&self) -> (r: &str)
        ensures
            r@ == self@.name,
    {
        self.name.as_str()
    }

    pub fn fields(&self) -> (r: &Vec<FieldInput>)
        ensures
            inputs_of(r@) == self@.fields,
    {
        &self.fields
    }

    pub fn set_name(&mut self, name: &str)
        ensures
            final(self)@ == (FormState { name: name@, ..old(self)@ }),
    {
        self.name = name.to_owned();
    }

    /// Takes the text typed into a field. There is nothing to type into a toggle.
    pub fn set_text(&mut self, ix: usize, text: &str)
        ensures
            final(self)@ == typed_into(old(self)@, ix as int, text@),
    {
        let ghost before = self@;
        if ix >= self.fields.len() {
            return;
        }
        let typed = match &self.fields[ix].text {
            Some(_) => true,
            None => false,
        };
        assert(before.fields[ix as int] == self.fields@[ix as int]@);
        if typed {
            let input = &self.fields[ix];
            let new = FieldInput {
                field: input.field,
                text: Some(text.to_owned()),
                on: input.on,
                placeholder: input.placeholder,
                masked: input.masked,
            };
            self.fields.set(ix, new);
            assert(inputs_of(self.fields@) =~= before.fields.update(
                ix as int,
                InputState { text: Some(text@), ..before.fields[ix as int] },
            ));
        }
    }

    /// Takes a toggle's new position.
    pub fn set_toggle(&mut self, ix: usize, on: bool)
        ensures
            final(self)@ == flipped(old(self)@, ix as int, on),
    {
        let ghost before = self@;
        if ix >= self.fields.len() {
            return;
        }
        let input = &self.fields[ix];
        let new = FieldInput {
            field: input.field,
            text: match &input.text {
                Some(text) => Some(text.clone()),
                None => None,
            },
            on,
            placeholder: input.placeholder,
            masked: input.masked,
        };
        assert(before.fields[ix as int] == self.fields@[ix as int]@);
        self.fields.set(ix, new);
        assert(inputs_of(self.fields@) =~= before.fields.update(
            ix as int,
            InputState { on, ..before.fields[ix as int] },
        ));
    }

    /// The values by their fields' keys.
    pub fn values(&self) -> (r: TextMap)
        ensures
            r@ == values_of(self@.fields),
    {
        let mut r = TextMap::new();
        let mut i: usize = 0;
        while i < self.fields.len()
            invariant
                i <= self.fields@.len(),
                r@ == values_of(inputs_of(self.fields@).take(i as int)),
            decreases self.fields@.len() - i,
        {
            proof {
                let all = inputs_of(self.fields@);
                assert(all.take(i + 1).drop_last() =~= all.take(i as int));
                assert(all.take(i + 1).last() == self.fields@[i as int]@);
            }
            let input = &self.fields[i];
            r.insert(input.field.key, input.value());
            i = i + 1;
        }
        assert(inputs_of(self.fields@).take(i as int) =~= inputs_of(self.fields@));
        r
    }

    /// The connection to save. A new one takes `fresh_id`, an id made from its name that no
    /// other connection has. Without a name there is none.
    pub fn build(&self, fresh_id: &str) -> (r: Result<Draft, &'static str>)
        ensures
            match r {
                Ok(draft) => trimmed(self@.name).len() > 0 && drafted(draft, self@, fresh_id@),
                Err(reason) => trimmed(self@.name).len() == 0 && reason@ == "请填写连接名称"@,
            },
    {
        let name = trim(self.name.as_str());
        if is_empty(name) {
            return Err("请填写连接名称");
        }
        let id = match &self.editing {
            Some(id) => id.clone(),
            None => fresh_id.to_owned(),
        };
        Ok(Draft { id, name: name.to_owned(), scheme: self.scheme, values: self.values() })
    }
}

/// What choosing a service does to a form.
pub open spec fn switched(before: FormState, after: FormState, service: Service) -> bool {
    if before.scheme@ == service.scheme@ {
        after == before
    } else {
        &&& after == (FormState {
            scheme: service.scheme,
            label: service.label,
            fields: after.fields,
            ..before
        })
        &&& filled(after.fields, service.fields@, values_of(before.fields))
    }
}

/// How a service is shown among the others: its short name, what it is, and its picture.
#[derive(Debug)]
pub struct Presentation {
    pub label: &'static str,
    pub detail: &'static str,
    pub icon: Icon,
}

/// What a scheme is shown as, where the form knows the scheme.
pub open spec fn known_presentation(scheme: Seq<char>) -> Option<(Seq<char>, Seq<char>, Icon)> {
    if scheme == "fs"@ {
        Some(("本机磁盘"@, "本地文件夹"@, Icon::FolderClosed))
    } else if scheme == "s3"@ {
        Some(("S3"@, "兼容对象存储"@, Icon::Inbox))
    } else if scheme == "gcs"@ {
        Some(("Google Cloud"@, "Cloud Storage"@, Icon::Globe))
    } else if scheme == "azblob"@ {
        Some(("Azure Blob"@, "Microsoft Azure"@, Icon::Building))
    } else if scheme == "webdav"@ {
        Some(("WebDAV"@, "远程文件服务"@, Icon::Globe))
    } else if scheme == "nfs"@ {
        Some(("NFS"@, "网络共享 · v3"@, Icon::FolderClosed))
    } else {
        None
    }
}

/// What a service is shown as. One that the form does not know keeps its own name.
pub open spec fn presentation_of(scheme: Seq<char>, label: Seq<char>) -> (
    Seq<char>,
    Seq<char>,
    Icon,
) {
    match known_presentation(scheme) {
        Some(shown) => shown,
        None => (label, ""@, Icon::Globe),
    }
}

/// How a service is shown. The words belong to the form; the schema owns the fields.
pub fn service_presentation(service: &Service) -> (r: Presentation)
    ensures
        (r.label@, r.detail@, r.icon) == presentation_of(service.scheme@, service.label@),
{
    let scheme = service.scheme;
    if same(scheme, "fs") {
        Presentation { label: "本机磁盘", detail: "本地文件夹", icon: Icon::FolderClosed }
    } else if same(scheme, "s3") {
        Presentation { label: "S3", detail: "兼容对象存储", icon: Icon::Inbox }
    } else if same(scheme, "gcs") {
        Presentation { label: "Google Cloud", detail: "Cloud Storage", icon: Icon::Globe }
    } else if same(scheme, "azblob") {
        Presentation { label: "Azure Blob", detail: "Microsoft Azure", icon: Icon::Building }
    } else if same(scheme, "webdav") {
        Presentation { label: "WebDAV", detail: "远程文件服务", icon: Icon::Globe }
    } else if same(scheme, "nfs") {
        Presentation { label: "NFS", detail: "网络共享 · v3", icon: Icon::FolderClosed }
    } else {
        Presentation { label: service.label, detail: "", icon: Icon::Globe }
    }
}

/// What a scheme's form says it is for.
pub open spec fn description_of(scheme: Seq<char>) -> Seq<char> {
    if scheme == "fs"@ {
        "选择一个本地文件夹，作为浏览文件的起点。"@
    } else if scheme == "s3"@ {
        "连接 AWS S3 或兼容的对象存储服务。"@
    } else if scheme == "gcs"@ {
        "连接 Google Cloud Storage 存储桶。"@
    } else if scheme == "azblob"@ {
        "连接 Azure Blob Storage 容器。"@
    } else if scheme == "webdav"@ {
        "通过 WebDAV 访问服务器或 NAS 上的文件。"@
    } else if scheme == "nfs"@ {
        "直接访问 NFSv3 共享，无需先挂载到系统。"@
    } else {
        "填写连接信息以开始浏览文件。"@
    }
}

pub fn service_description(scheme: &str) -> (r: &'static str)
    ensures
        r@ == description_of(scheme@),
{
    if same(scheme, "fs") {
        "选择一个本地文件夹，作为浏览文件的起点。"
    } else if same(scheme, "s3") {
        "连接 AWS S3 或兼容的对象存储服务。"
    } else if same(scheme, "gcs") {
        "连接 Google Cloud Storage 存储桶。"
    } else if same(scheme, "azblob") {
        "连接 Azure Blob Storage 容器。"
    } else if same(scheme, "webdav") {
        "通过 WebDAV 访问服务器或 NAS 上的文件。"
    } else if same(scheme, "nfs") {
        "直接访问 NFSv3 共享，无需先挂载到系统。"
    } else {
        "填写连接信息以开始浏览文件。"
    }
}

/// Where in the form a field stands.
#[derive(Clone, Copy, PartialEq, Eq, Structural, Debug)]
pub enum FieldSection {
    Location,
    Identity,
    Advanced,
}

/// Where a field stands: ports are for experts, and who one is stands together.
pub open spec fn section_of(field: Field) -> FieldSection {
    let key = field.key@;
    if key == "nfs_port"@ || key == "mount_port"@ {
        FieldSection::Advanced
    } else if key == "username"@ || key == "access_key_id"@ || key == "uid"@ || key == "gid"@
        || field.secret {
        FieldSection::Identity
    } else {
        FieldSection::Location
    }
}

pub fn field_section(field: &Field) -> (r: FieldSection)
    ensures
        r == section_of(*field),
{
    let key = field.key;
    if same(key, "nfs_port") || same(key, "mount_port") {
        FieldSection::Advanced
    } else if same(key, "username") || same(key, "access_key_id") || same(key, "uid") || same(
        key,
        "gid",
    ) || field.secret {
        FieldSection::Identity
    } else {
        FieldSection::Location
    }
}

/// A service to choose.
#[derive(Debug)]
pub struct ServiceCard {
    pub id: String,
    pub scheme: &'static str,
    /// The service's full name, for those who hear it.
    pub spoken: &'static str,
    pub label: &'static str,
    pub detail: &'static str,
    pub icon: Icon,
    pub selected: bool,
}

/// Whether a card shows a service, while the form is at `scheme`.
pub open spec fn card_shows(card: ServiceCard, service: Service, scheme: Seq<char>) -> bool {
    &&& card.id@ == "svc-"@ + service.scheme@
    &&& card.scheme == service.scheme
    &&& card.spoken == service.label
    &&& (card.label@, card.detail@, card.icon) == presentation_of(
        service.scheme@,
        service.label@,
    )
    &&& card.selected == (service.scheme@ == scheme)
}

/// How an input is drawn.
#[derive(Debug)]
pub enum Control {
    /// An input under its label, which says whether it must be filled in.
    Input { label: &'static str, mark: &'static str },
    /// A switch beside its label and what it means.
    Switch { id: String, label: &'static str, hint: &'static str, on: bool },
    /// Nothing.
    Blank,
}

/// Says whether something must be filled in.
pub open spec fn mark_of(required: bool) -> Seq<char> {
    if required {
        "必填"@
    } else {
        "选填"@
    }
}

pub fn required_mark(required: bool) -> (r: &'static str)
    ensures
        r@ == mark_of(required),
{
    if required {
        "必填"
    } else {
        "选填"
    }
}

/// Whether a control is the one for the input at `ix`.
pub open spec fn control_for(control: Control, ix: nat, input: InputState) -> bool {
    match control {
        Control::Input { label, mark } => input.text is Some && label == input.field.label && mark@
            == mark_of(input.field.required),
        Control::Switch { id, label, hint, on } => input.text is None
            && input.field.kind is Toggle && id@ == "tg-"@ + decimal(ix) && label
            == input.field.label && hint == input.field.hint && on == input.on,
        Control::Blank => input.text is None && !(input.field.kind is Toggle),
    }
}

/// A group of the form's inputs.
#[derive(Debug)]
pub struct Section {
    pub section: FieldSection,
    pub title: &'static str,
    pub hint: Option<&'static str>,
    /// Whether the inputs stand side by side.
    pub paired: bool,
    /// The places of the inputs, in their order.
    pub inputs: Vec<usize>,
}

/// The places of the inputs that stand in a section, in their order.
pub open spec fn places_in(inputs: Seq<InputState>, section: FieldSection) -> Seq<int>
    decreases inputs.len(),
{
    if inputs.len() == 0 {
        Seq::empty()
    } else {
        let before = places_in(inputs.drop_last(), section);
        if section_of(inputs.last().field) == section {
            before.push(inputs.len() - 1)
        } else {
            before
        }
    }
}

/// A section's title.
pub open spec fn title_of(section: FieldSection, nfs: bool) -> Seq<char> {
    match section {
        FieldSection::Location => "连接信息"@,
        FieldSection::Identity => if nfs {
            "访问身份"@
        } else {
            "身份凭据"@
        },
        FieldSection::Advanced => "高级选项"@,
    }
}

/// What a section says of itself: a network share's ids are numbers, secrets are kept where
/// `note` says, and ports are found where none is given.
pub open spec fn section_hint_of(
    section: FieldSection,
    nfs: bool,
    secrets: bool,
    note: Seq<char>,
) -> Option<Seq<char>> {
    match section {
        FieldSection::Identity => if nfs {
            Some("填写服务端用户和组的数字 ID，以 AUTH_SYS 身份访问共享。"@)
        } else if secrets {
            Some(note)
        } else {
            None
        },
        FieldSection::Advanced => Some("通常无需修改，留空时自动发现服务端口。"@),
        FieldSection::Location => None,
    }
}

/// Whether a section has a secret.
pub open spec fn has_secret(inputs: Seq<InputState>, section: FieldSection) -> bool {
    exists|i: int|
        0 <= i < inputs.len() && section_of((#[trigger] inputs[i]).field) == section
            && inputs[i].field.secret
}

/// Whether a section is the one of the form.
pub open spec fn section_shows(
    s: Section,
    section: FieldSection,
    inputs: Seq<InputState>,
    scheme: Seq<char>,
    note: Seq<char>,
) -> bool {
    let nfs = scheme == "nfs"@;
    &&& s.section == section
    &&& s.title@ == title_of(section, nfs)
    &&& match s.hint {
        Some(hint) => Some(hint@) == section_hint_of(
            section,
            nfs,
            has_secret(inputs, section),
            note,
        ),
        None => section_hint_of(section, nfs, has_secret(inputs, section), note) is None,
    }
    &&& s.paired == (nfs && section != FieldSection::Location)
    &&& s.inputs@.map_values(|ix: usize| ix as int) == places_in(inputs, section)
}

/// The sections that have inputs, in the order of the form.
pub open spec fn sections_of(inputs: Seq<InputState>) -> Seq<FieldSection> {
    let location = if places_in(inputs, FieldSection::Location).len() > 0 {
        seq![FieldSection::Location]
    } else {
        Seq::empty()
    };
    let identity = if places_in(inputs, FieldSection::Identity).len() > 0 {
        seq![FieldSection::Identity]
    } else {
        Seq::empty()
    };
    let advanced = if places_in(inputs, FieldSection::Advanced).len() > 0 {
        seq![FieldSection::Advanced]
    } else {
        Seq::empty()
    };
    location + identity + advanced
}

impl ConnectionForm {
    /// The services to choose from.
    pub fn cards(&self, services: &Vec<Service>) -> (r: Vec<ServiceCard>)
        ensures
            r@.len() == services@.len(),
            forall|i: int|
                0 <= i < r@.len() ==> card_shows(#[trigger] r@[i], services@[i], self@.scheme@),
    {
        let mut r: Vec<ServiceCard> = Vec::new();
        let mut i: usize = 0;
        while i < services.len()
            invariant
                i <= services@.len(),
                r@.len() == i,
                forall|k: int|
                    0 <= k < i ==> card_shows(#[trigger] r@[k], services@[k], self@.scheme@),
            decreases services@.len() - i,
        {
            let service = &services[i];
            let shown = service_presentation(service);
            r.push(
                ServiceCard {
                    id: cat("svc-", service.scheme),
                    scheme: service.scheme,
                    spoken: service.label,
                    label: shown.label,
                    detail: shown.detail,
                    icon: shown.icon,
                    selected: same(service.scheme, self.scheme),
                },
            );
            i = i + 1;
        }
        r
    }

    /// How the input at `ix` is drawn.
    pub fn control(&self, ix: usize) -> (r: Control)
        requires
            ix < self@.fields.len(),
        ensures
            control_for(r, ix as nat, self@.fields[ix as int]),
    {
        let input = &self.fields[ix];
        assert(self@.fields[ix as int] == input@);
        match &input.text {
            Some(_) => Control::Input {
                label: input.field.label,
                mark: required_mark(input.field.required),
            },
            None => match input.field.kind {
                FieldKind::Toggle { .. } => Control::Switch {
                    id: cat("tg-", number(ix as u64).as_str()),
                    label: input.field.label,
                    hint: input.field.hint,
                    on: input.on,
                },
                _ => Control::Blank,
            },
        }
    }

    fn places(&self, section: FieldSection) -> (r: Vec<usize>)
        ensures
            r@.map_values(|ix: usize| ix as int) == places_in(self@.fields, section),
    {
        let ghost all = inputs_of(self.fields@);
        let mut r: Vec<usize> = Vec::new();
        let mut i: usize = 0;
        assert(r@.map_values(|ix: usize| ix as int) =~= Seq::<int>::empty());
        while i < self.fields.len()
            invariant
                i <= self.fields@.len(),
                all == inputs_of(self.fields@),
                r@.map_values(|ix: usize| ix as int) == places_in(all.take(i as int), section),
            decreases self.fields@.len() - i,
        {
            proof {
                assert(all.take(i + 1).drop_last() =~= all.take(i as int));
                assert(all.take(i + 1).last() == self.fields@[i as int]@);
            }
            if field_section(&self.fields[i].field) == section {
                let ghost before = r@;
                r.push(i);
                assert(r@.map_values(|ix: usize| ix as int) =~= before.map_values(
                    |ix: usize| ix as int,
                ).push(i as int));
            }
            i = i + 1;
        }
        assert(all.take(i as int) =~= all);
        r
    }

    fn any_secret(&self, section: FieldSection) -> (r: bool)
        ensures
            r == has_secret(self@.fields, section),
    {
        let mut i: usize = 0;
        while i < self.fields.len()
            invariant
                i <= self.fields@.len(),
                forall|k: int|
                    0 <= k < i ==> !(section_of((#[trigger] self@.fields[k]).field) == section
                        && self@.fields[k].field.secret),
            decreases self.fields@.len() - i,
        {
            assert(self@.fields[i as int] == self.fields@[i as int]@);
            if self.fields[i].field.secret && field_section(&self.fields[i].field) == section {
                return true;
            }
            i = i + 1;
        }
        false
    }

    fn section(&self, section: FieldSection, credential_note: &'static str) -> (r: Option<Section>)
        ensures
            match r {
                Some(s) => places_in(self@.fields, section).len() > 0 && section_shows(
                    s,
                    section,
                    self@.fields,
                    self@.scheme@,
                    credential_note@,
                ),
                None => places_in(self@.fields, section).len() == 0,
            },
    {
        let inputs = self.places(section);
        assert(inputs@.map_values(|ix: usize| ix as int).len() == inputs@.len());
        if inputs.len() == 0 {
            return None;
        }
        let nfs = same(self.scheme, "nfs");
        let title: &'static str = match section {
            FieldSection::Location => "连接信息",
            FieldSection::Identity => if nfs {
                "访问身份"
            } else {
                "身份凭据"
            },
            FieldSection::Advanced => "高级选项",
        };
        let hint: Option<&'static str> = match section {
            FieldSection::Identity => if nfs {
                Some("填写服务端用户和组的数字 ID，以 AUTH_SYS 身份访问共享。")
            } else if self.any_secret(section) {
                Some(credential_note)
            } else {
                None
            },
            FieldSection::Advanced => Some("通常无需修改，留空时自动发现服务端口。"),
            FieldSection::Location => None,
        };
        let paired = nfs && section != FieldSection::Location;
        Some(Section { section, title, hint, paired, inputs })
    }

    /// The form's sections, those without inputs left out. `credential_note` says where
    /// secrets are kept.
    pub fn sections(&self, credential_note: &'static str) -> (r: Vec<Section>)
        ensures
            r@.map_values(|s: Section| s.section) == sections_of(self@.fields),
            forall|i: int|
                0 <= i < r@.len() ==> section_shows(
                    #[trigger] r@[i],
                    r@[i].section,
                    self@.fields,
                    self@.scheme@,
                    credential_note@,
                ),
    {
        let mut r: Vec<Section> = Vec::new();
        match self.section(FieldSection::Location, credential_note) {
            Some(s) => r.push(s),
            None => {},
        }
        match self.section(FieldSection::Identity, credential_note) {
            Some(s) => r.push(s),
            None => {},
        }
        match self.section(FieldSection::Advanced, credential_note) {
            Some(s) => r.push(s),
            None => {},
        }
        assert(r@.map_values(|s: Section| s.section) =~= sections_of(self@.fields));
        r
    }
}

/// Where an input's key stands only once among the inputs, the value under that key is the
/// input's.
proof fn lemma_values_hold(inputs: Seq<InputState>, j: int)
    requires
        0 <= j < inputs.len(),
        forall|k: int|
            0 <= k < inputs.len() && k != j ==> (#[trigger] inputs[k]).field.key@
                != inputs[j].field.key@,
    ensures
        values_of(inputs).contains_key(inputs[j].field.key@),
        values_of(inputs)[inputs[j].field.key@] == value_of(inputs[j]),
    decreases inputs.len(),
{
    if j < inputs.len() - 1 {
        let rest = inputs.drop_last();
        assert forall|k: int| 0 <= k < rest.len() && k != j implies (#[trigger] rest[k]).field.key@
            != rest[j].field.key@ by {
            assert(rest[k] == inputs[k]);
        }
        lemma_values_hold(rest, j);
        assert(inputs.last() == inputs[inputs.len() - 1]);
    }
}

/// Switching to another service keeps every value whose field both have: a text as it was
/// typed but for the white space around it, and a toggle's where the new service's toggle
/// has that value.
pub proof fn law_switching_keeps_shared_fields(
    before: FormState,
    after: FormState,
    service: Service,
    j: int,
    i: int,
)
    requires
        switched(before, after, service),
        before.scheme@ != service.scheme@,
        0 <= j < before.fields.len(),
        forall|k: int|
            0 <= k < before.fields.len() && k != j ==> (#[trigger] before.fields[k]).field.key@
                != before.fields[j].field.key@,
        0 <= i < after.fields.len(),
        after.fields[i].field.key@ == before.fields[j].field.key@,
        match after.fields[i].field.kind {
            FieldKind::Toggle { on, off } => value_of(before.fields[j]) == on@ || value_of(
                before.fields[j],
            ) == off@,
            _ => before.fields[j].text is Some,
        },
    ensures
        value_of(after.fields[i]) == value_of(before.fields[j]),
{
    lemma_values_hold(before.fields, j);
    assert(seeded(after.fields[i], service.fields@[i], values_of(before.fields)));
    match before.fields[j].text {
        Some(text) => lemma_trimmed_twice(text),
        None => {},
    }
}

/// A form's values are under the keys of its fields, and under no others: what only the
/// service before had does not follow to another one.
pub proof fn law_values_are_of_the_schema(
    inputs: Seq<InputState>,
    fields: Seq<Field>,
    values: Map<Seq<char>, Seq<char>>,
    key: Seq<char>,
)
    requires
        filled(inputs, fields, values),
    ensures
        values_of(inputs).contains_key(key) <==> exists|i: int|
            0 <= i < fields.len() && (#[trigger] fields[i]).key@ == key,
{
    lemma_value_keys(inputs, key);
    if exists|i: int| 0 <= i < inputs.len() && (#[trigger] inputs[i]).field.key@ == key {
        let i = choose|i: int|
            0 <= i < inputs.len() && (#[trigger] inputs[i]).field.key@ == key;
        assert(seeded(inputs[i], fields[i], values));
        assert(fields[i].key@ == key);
    }
    if exists|i: int| 0 <= i < fields.len() && (#[trigger] fields[i]).key@ == key {
        let i = choose|i: int| 0 <= i < fields.len() && (#[trigger] fields[i]).key@ == key;
        assert(seeded(inputs[i], fields[i], values));
        assert(inputs[i].field.key@ == key);
    }
}

proof fn lemma_value_keys(inputs: Seq<InputState>, key: Seq<char>)
    ensures
        values_of(inputs).contains_key(key) <==> exists|i: int|
            0 <= i < inputs.len() && (#[trigger] inputs[i]).field.key@ == key,
    decreases inputs.len(),
{
    if inputs.len() > 0 {
        let rest = inputs.drop_last();
        lemma_value_keys(rest, key);
        if exists|i: int| 0 <= i < rest.len() && (#[trigger] rest[i]).field.key@ == key {
            let i = choose|i: int| 0 <= i < rest.len() && (#[trigger] rest[i]).field.key@ == key;
            assert(inputs[i].field.key@ == key);
        }
        if inputs.last().field.key@ == key {
            assert(inputs[inputs.len() - 1].field.key@ == key);
        }
        if exists|i: int| 0 <= i < inputs.len() && (#[trigger] inputs[i]).field.key@ == key {
            let i = choose|i: int|
                0 <= i < inputs.len() && (#[trigger] inputs[i]).field.key@ == key;
            if i < rest.len() {
                assert(rest[i].field.key@ == key);
            }
        }
    }
}

/// Switching service changes neither the connection's name nor which connection is edited.
pub proof fn law_switching_keeps_the_name(before: FormState, after: FormState, service: Service)
    requires
        switched(before, after, service),
    ensures
        after.name == before.name,
        after.editing == before.editing,
        after.scheme@ == service.scheme@,
{
}

/// Every input stands in exactly one section of the form, the one its field belongs to.
pub proof fn law_every_field_is_drawn_once(inputs: Seq<InputState>, i: int, section: FieldSection)
    requires
        0 <= i < inputs.len(),
    ensures
        places_in(inputs, section).contains(i) <==> section_of(inputs[i].field) == section,
        places_in(inputs, section).no_duplicates(),
        sections_of(inputs).contains(section_of(inputs[i].field)),
{
    lemma_places(inputs, section);
    let own = section_of(inputs[i].field);
    lemma_places(inputs, own);
    assert(places_in(inputs, own).contains(i));
    let all = sections_of(inputs);
    match own {
        FieldSection::Location => assert(all[0] == own),
        FieldSection::Identity => {
            let n: int = if places_in(inputs, FieldSection::Location).len() > 0 {
                1
            } else {
                0
            };
            assert(all[n] == own);
        },
        FieldSection::Advanced => assert(all[all.len() - 1] == own),
    }
}

proof fn lemma_places(inputs: Seq<InputState>, section: FieldSection)
    ensures
        forall|i: int|
            places_in(inputs, section).contains(i) <==> 0 <= i < inputs.len() && section_of(
                inputs[i].field,
            ) == section,
        places_in(inputs, section).no_duplicates(),
    decreases inputs.len(),
{
    if inputs.len() > 0 {
        let rest = inputs.drop_last();
        lemma_places(rest, section);
        let before = places_in(rest, section);
        let all = places_in(inputs, section);
        let last = inputs.len() - 1;
        assert forall|i: int| all.contains(i) <==> 0 <= i < inputs.len() && section_of(
            inputs[i].field,
        ) == section by {
            if before.contains(i) {
                let k = choose|k: int| 0 <= k < before.len() && before[k] == i;
                assert(all[k] == i);
                assert(rest[i] == inputs[i]);
            }
            if all.contains(i) {
                let k = choose|k: int| 0 <= k < all.len() && all[k] == i;
                if k < before.len() {
                    assert(before[k] == i);
                }
            }
            if i == last && section_of(inputs[last].field) == section {
                assert(all[all.len() - 1] == last);
            }
            if 0 <= i < last && section_of(inputs[i].field) == section {
                assert(rest[i] == inputs[i]);
                assert(before.contains(i));
            }
        }
        assert(!before.contains(last));
        assert(all.no_duplicates());
    }
}

/// Whatever a schema asks for can be filled in: no input of a form made from a schema is
/// drawn as nothing.
pub proof fn law_every_field_has_a_control(
    inputs: Seq<InputState>,
    fields: Seq<Field>,
    values: Map<Seq<char>, Seq<char>>,
    i: int,
    control: Control,
)
    requires
        filled(inputs, fields, values),
        0 <= i < inputs.len(),
        control_for(control, i as nat, inputs[i]),
    ensures
        !(control is Blank),
        control is Switch <==> fields[i].kind is Toggle,
{
    assert(seeded(inputs[i], fields[i], values));
}

/// A form that edits a connection gives the stored values back, but for the white space
/// around texts, as long as nothing is typed and a toggle's value is one of its two.
pub proof fn law_editing_shows_what_is_stored(
    inputs: Seq<InputState>,
    fields: Seq<Field>,
    values: Map<Seq<char>, Seq<char>>,
    i: int,
)
    requires
        filled(inputs, fields, values),
        0 <= i < fields.len(),
        values.contains_key(fields[i].key@),
        match fields[i].kind {
            FieldKind::Toggle { on, off } => values[fields[i].key@] == on@
                || values[fields[i].key@] == off@,
            _ => true,
        },
    ensures
        value_of(inputs[i]) == (if fields[i].kind is Toggle {
            values[fields[i].key@]
        } else {
            trimmed(values[fields[i].key@])
        }),
{
    assert(seeded(inputs[i], fields[i], values));
}

/// The card that chooses a service shows that service in the form's own words; one that the
/// form has no words for keeps its name. It is marked where it is the chosen one.
pub proof fn law_cards(card: ServiceCard, service: Service, scheme: Seq<char>)
    requires
        card_shows(card, service, scheme),
    ensures
        card.scheme == service.scheme,
        card.spoken == service.label,
        card.id@ == "svc-"@ + service.scheme@,
        card.selected <==> service.scheme@ == scheme,
        service.scheme@ == "fs"@ ==> card.label@ == "本机磁盘"@ && card.detail@ == "本地文件夹"@
            && card.icon is FolderClosed,
        service.scheme@ == "s3"@ ==> card.label@ == "S3"@ && card.detail@ == "兼容对象存储"@
            && card.icon is Inbox,
        service.scheme@ == "gcs"@ ==> card.label@ == "Google Cloud"@ && card.detail@ == "Cloud Storage"@
            && card.icon is Globe,
        service.scheme@ == "azblob"@ ==> card.label@ == "Azure Blob"@ && card.detail@ == "Microsoft Azure"@
            && card.icon is Building,
        service.scheme@ == "webdav"@ ==> card.label@ == "WebDAV"@ && card.detail@ == "远程文件服务"@
            && card.icon is Globe,
        service.scheme@ == "nfs"@ ==> card.label@ == "NFS"@ && card.detail@ == "网络共享 · v3"@
            && card.icon is FolderClosed,
        service.scheme@ != "fs"@ && service.scheme@ != "s3"@ && service.scheme@ != "gcs"@ && service.scheme@ != "azblob"@ && service.scheme@ != "webdav"@ && service.scheme@ != "nfs"@ ==> card.label@
            == service.label@ && card.detail@ == ""@ && card.icon is Globe,
{
    reveal_strlit("fs");
    assert("fs"@.len() == 2 && "fs"@[0] == 'f');
    reveal_strlit("s3");
    assert("s3"@.len() == 2 && "s3"@[0] == 's');
    reveal_strlit("gcs");
    assert("gcs"@.len() == 3 && "gcs"@[0] == 'g');
    reveal_strlit("azblob");
    assert("azblob"@.len() == 6 && "azblob"@[0] == 'a');
    reveal_strlit("webdav");
    assert("webdav"@.len() == 6 && "webdav"@[0] == 'w');
    reveal_strlit("nfs");
    assert("nfs"@.len() == 3 && "nfs"@[0] == 'n');
}

/// The form says of each service what it connects to.
pub proof fn law_descriptions(scheme: Seq<char>)
    ensures
        description_of("fs"@) == "选择一个本地文件夹，作为浏览文件的起点。"@,
        description_of("s3"@) == "连接 AWS S3 或兼容的对象存储服务。"@,
        description_of("gcs"@) == "连接 Google Cloud Storage 存储桶。"@,
        description_of("azblob"@) == "连接 Azure Blob Storage 容器。"@,
        description_of("webdav"@) == "通过 WebDAV 访问服务器或 NAS 上的文件。"@,
        description_of("nfs"@) == "直接访问 NFSv3 共享，无需先挂载到系统。"@,
        scheme != "fs"@ && scheme != "s3"@ && scheme != "gcs"@ && scheme != "azblob"@ && scheme != "webdav"@ && scheme != "nfs"@
            ==> description_of(scheme) == "填写连接信息以开始浏览文件。"@,
{
    reveal_strlit("fs");
    assert("fs"@.len() == 2 && "fs"@[0] == 'f');
    reveal_strlit("s3");
    assert("s3"@.len() == 2 && "s3"@[0] == 's');
    reveal_strlit("gcs");
    assert("gcs"@.len() == 3 && "gcs"@[0] == 'g');
    reveal_strlit("azblob");
    assert("azblob"@.len() == 6 && "azblob"@[0] == 'a');
    reveal_strlit("webdav");
    assert("webdav"@.len() == 6 && "webdav"@[0] == 'w');
    reveal_strlit("nfs");
    assert("nfs"@.len() == 3 && "nfs"@[0] == 'n');
}

/// Who one is stands in the section of identities: the names and numbers of a user, and every
/// secret. Ports stand in the last section, and everything else in the first.
pub proof fn law_sections_of_fields(field: Field)
    ensures
        field.key@ == "nfs_port"@ ==> section_of(field) is Advanced,
        field.key@ == "mount_port"@ ==> section_of(field) is Advanced,
        field.key@ == "username"@ ==> section_of(field) is Identity,
        field.key@ == "access_key_id"@ ==> section_of(field) is Identity,
        field.key@ == "uid"@ ==> section_of(field) is Identity,
        field.key@ == "gid"@ ==> section_of(field) is Identity,
        field.secret && field.key@ != "nfs_port"@ && field.key@ != "mount_port"@ ==> section_of(
            field,
        ) is Identity,
        !field.secret && field.key@ != "nfs_port"@ && field.key@ != "mount_port"@ && field.key@
            != "username"@ && field.key@ != "access_key_id"@ && field.key@ != "uid"@ && field.key@
            != "gid"@ ==> section_of(field) is Location,
{
    reveal_strlit("uid");
    assert("uid"@.len() == 3 && "uid"@[0] == 'u');
    reveal_strlit("gid");
    assert("gid"@.len() == 3 && "gid"@[0] == 'g');
    reveal_strlit("nfs_port");
    assert("nfs_port"@.len() == 8 && "nfs_port"@[0] == 'n');
    reveal_strlit("mount_port");
    assert("mount_port"@.len() == 10 && "mount_port"@[0] == 'm');
    reveal_strlit("username");
    assert("username"@.len() == 8 && "username"@[0] == 'u');
    reveal_strlit("access_key_id");
    assert("access_key_id"@.len() == 13 && "access_key_id"@[0] == 'a');
}

/// An empty input says what leaving it empty means for a network share's numbers, and for any
/// other field what its schema says.
pub proof fn law_hints(field: Field)
    ensures
        field.key@ == "uid"@ ==> hint_of(field) == "默认 65534"@,
        field.key@ == "gid"@ ==> hint_of(field) == "默认 65534"@,
        field.key@ == "nfs_port"@ ==> hint_of(field) == "自动发现"@,
        field.key@ == "mount_port"@ ==> hint_of(field) == "自动发现"@,
        field.key@ != "uid"@ && field.key@ != "gid"@ && field.key@ != "nfs_port"@ && field.key@
            != "mount_port"@ ==> hint_of(field) == field.hint@,
{
    reveal_strlit("uid");
    assert("uid"@.len() == 3 && "uid"@[0] == 'u');
    reveal_strlit("gid");
    assert("gid"@.len() == 3 && "gid"@[0] == 'g');
    reveal_strlit("nfs_port");
    assert("nfs_port"@.len() == 8 && "nfs_port"@[0] == 'n');
    reveal_strlit("mount_port");
    assert("mount_port"@.len() == 10 && "mount_port"@[0] == 'm');
    reveal_strlit("username");
    assert("username"@.len() == 8 && "username"@[0] == 'u');
    reveal_strlit("access_key_id");
    assert("access_key_id"@.len() == 13 && "access_key_id"@[0] == 'a');
}

/// Each input of a form is one for the field at its place in the schema. It starts with the
/// value given for the field's key, or with the field's default; a secret one is masked, and a
/// toggle is on exactly where that value is the one for on.
pub proof fn law_inputs_start_filled(
    inputs: Seq<InputState>,
    fields: Seq<Field>,
    values: Map<Seq<char>, Seq<char>>,
    i: int,
)
    requires
        filled(inputs, fields, values),
        0 <= i < fields.len(),
    ensures
        inputs.len() == fields.len(),
        inputs[i].field == fields[i],
        ({
            let start = if values.contains_key(fields[i].key@) {
                values[fields[i].key@]
            } else {
                fields[i].default_value@
            };
            match fields[i].kind {
                FieldKind::Toggle { on, off } => inputs[i].text is None && (inputs[i].on <==> start
                    == on@) && !inputs[i].masked && inputs[i].placeholder is None,
                _ => inputs[i].text == Some(start) && !inputs[i].on && (inputs[i].masked
                    <==> fields[i].secret),
            }
        }),
        !(fields[i].kind is Toggle) && hint_of(fields[i]).len() > 0 ==> inputs[i].placeholder
            is Some && inputs[i].placeholder->0@ == hint_of(fields[i]),
        hint_of(fields[i]).len() == 0 ==> inputs[i].placeholder is None,
{
    assert(seeded(inputs[i], fields[i], values));
}

/// An input's value is its text without the white space around it, or the one of a toggle's
/// two values that it stands at.
pub proof fn law_input_values(
    input: InputState,
    text: Seq<char>,
    on: &'static str,
    off: &'static str,
)
    ensures
        input.text == Some(text) ==> value_of(input) == trimmed(text),
        input.text is None && input.field.kind == (FieldKind::Toggle { on, off }) && input.on
            ==> value_of(input) == on@,
        input.text is None && input.field.kind == (FieldKind::Toggle { on, off }) && !input.on
            ==> value_of(input) == off@,
{
}

/// The form's value under a field's key is that field's, where no other field has the key.
pub proof fn law_values_by_key(inputs: Seq<InputState>, j: int)
    requires
        0 <= j < inputs.len(),
        forall|k: int|
            0 <= k < inputs.len() && k != j ==> (#[trigger] inputs[k]).field.key@
                != inputs[j].field.key@,
    ensures
        values_of(inputs).contains_key(inputs[j].field.key@),
        values_of(inputs)[inputs[j].field.key@] == value_of(inputs[j]),
{
    lemma_values_hold(inputs, j);
}

/// Choosing the service that is chosen changes nothing, and choosing another one shows that
/// service's fields, filled from what was there.
pub proof fn law_switching_shows_the_service(
    before: FormState,
    after: FormState,
    service: Service,
    i: int,
)
    requires
        switched(before, after, service),
    ensures
        before.scheme@ == service.scheme@ ==> after == before,
        before.scheme@ != service.scheme@ ==> after.scheme == service.scheme && after.label
            == service.label && after.fields.len() == service.fields@.len(),
        before.scheme@ != service.scheme@ && 0 <= i < service.fields@.len()
            ==> after.fields[i].field == service.fields@[i],
{
    if before.scheme@ != service.scheme@ && 0 <= i < service.fields@.len() {
        assert(seeded(after.fields[i], service.fields@[i], values_of(before.fields)));
    }
}

/// A field is drawn as an input under its own label, which says whether it must be filled in,
/// and a toggle as a switch that stands where it does.
pub proof fn law_controls(control: Control, ix: nat, input: InputState)
    requires
        control_for(control, ix, input),
    ensures
        control is Input <==> input.text is Some,
        control is Switch <==> input.text is None && input.field.kind is Toggle,
        control matches Control::Input { label, mark } ==> label == input.field.label && (
        input.field.required ==> mark@ == "必填"@) && (!input.field.required ==> mark@ == "选填"@),
        control matches Control::Switch { id, label, hint, on } ==> label == input.field.label
            && hint == input.field.hint && on == input.on && id@ == "tg-"@ + decimal(ix),
        mark_of(true) == "必填"@,
        mark_of(false) == "选填"@,
{
}

/// The sections stand in one order, each only where it has inputs, and hold their inputs in
/// the order of the schema.
pub proof fn law_section_order(inputs: Seq<InputState>, section: FieldSection)
    ensures
        sections_of(inputs).contains(section) <==> exists|i: int|
            0 <= i < inputs.len() && section_of((#[trigger] inputs[i]).field) == section,
        sections_of(inputs).len() <= 3,
        forall|k: int|
            0 <= k < sections_of(inputs).len() && (#[trigger] sections_of(inputs)[k]) is Location
                ==> k == 0,
        forall|k: int|
            0 <= k < sections_of(inputs).len() && (#[trigger] sections_of(inputs)[k]) is Advanced
                ==> k == sections_of(inputs).len() - 1,
        sections_of(inputs).no_duplicates(),
        forall|k: int, l: int|
            0 <= k < l < places_in(inputs, section).len() ==> #[trigger] places_in(
                inputs,
                section,
            )[k] < #[trigger] places_in(inputs, section)[l],
{
    lemma_places(inputs, section);
    lemma_places(inputs, FieldSection::Location);
    lemma_places(inputs, FieldSection::Identity);
    lemma_places(inputs, FieldSection::Advanced);
    lemma_increasing(inputs, section);
    let all = sections_of(inputs);
    let places = places_in(inputs, section);
    if places.len() > 0 {
        assert(places.contains(places[0]));
        assert(section_of(inputs[places[0]].field) == section);
        law_every_field_is_drawn_once(inputs, places[0], section);
    }
    if exists|i: int|
        0 <= i < inputs.len() && section_of((#[trigger] inputs[i]).field) == section {
        let i = choose|i: int|
            0 <= i < inputs.len() && section_of((#[trigger] inputs[i]).field) == section;
        law_every_field_is_drawn_once(inputs, i, section);
    }
    if all.contains(section) {
        let k = choose|k: int| 0 <= k < all.len() && all[k] == section;
        assert(places.len() > 0);
    }
}

proof fn lemma_increasing(inputs: Seq<InputState>, section: FieldSection)
    ensures
        forall|k: int|
            0 <= k < places_in(inputs, section).len() ==> 0 <= #[trigger] places_in(
                inputs,
                section,
            )[k] < inputs.len(),
        forall|k: int, l: int|
            0 <= k < l < places_in(inputs, section).len() ==> #[trigger] places_in(
                inputs,
                section,
            )[k] < #[trigger] places_in(inputs, section)[l],
    decreases inputs.len(),
{
    if inputs.len() > 0 {
        let rest = inputs.drop_last();
        lemma_increasing(rest, section);
        let before = places_in(rest, section);
        let all = places_in(inputs, section);
        assert forall|k: int| 0 <= k < all.len() implies 0 <= #[trigger] all[k] < inputs.len() by {
            if k < before.len() {
                assert(all[k] == before[k]);
            }
        }
        assert forall|k: int, l: int| 0 <= k < l < all.len() implies #[trigger] all[k]
            < #[trigger] all[l] by {
            assert(all[k] == before[k]);
            if l < before.len() {
                assert(all[l] == before[l]);
            }
        }
    }
}

/// A section is titled by what it asks for, says what is special about it, and stands side by
/// side only for a network share's numbers.
pub proof fn law_section_words(
    s: Section,
    section: FieldSection,
    inputs: Seq<InputState>,
    scheme: Seq<char>,
    note: Seq<char>,
)
    requires
        section_shows(s, section, inputs, scheme, note),
    ensures
        s.section == section,
        section is Location ==> s.title@ == "连接信息"@ && s.hint is None && !s.paired,
        section is Advanced ==> s.title@ == "高级选项"@ && s.hint is Some && s.hint->0@
            == "通常无需修改，留空时自动发现服务端口。"@,
        section is Identity && scheme == "nfs"@ ==> s.title@ == "访问身份"@ && s.hint is Some
            && s.hint->0@ == "填写服务端用户和组的数字 ID，以 AUTH_SYS 身份访问共享。"@,
        section is Identity && scheme != "nfs"@ ==> s.title@ == "身份凭据"@ && (s.hint is Some
            <==> exists|i: int|
            0 <= i < inputs.len() && section_of((#[trigger] inputs[i]).field) is Identity
                && inputs[i].field.secret) && (s.hint is Some ==> s.hint->0@ == note),
        s.paired <==> scheme == "nfs"@ && !(section is Location),
        s.inputs@.len() == places_in(inputs, section).len(),
        forall|k: int|
            0 <= k < s.inputs@.len() ==> (#[trigger] s.inputs@[k]) == places_in(inputs, section)[k],
{
    let places = s.inputs@.map_values(|ix: usize| ix as int);
    assert(places.len() == s.inputs@.len());
    assert forall|k: int| 0 <= k < s.inputs@.len() implies (#[trigger] s.inputs@[k]) == places_in(
        inputs,
        section,
    )[k] by {
        assert(places[k] == s.inputs@[k] as int);
    }
}

/// The inputs are taken by what they hold.
pub proof fn law_inputs(fields: Seq<FieldInput>, i: int)
    requires
        0 <= i < fields.len(),
    ensures
        inputs_of(fields).len() == fields.len(),
        inputs_of(fields)[i].field == fields[i].field,
        inputs_of(fields)[i].on == fields[i].on,
        inputs_of(fields)[i].placeholder == fields[i].placeholder,
        inputs_of(fields)[i].masked == fields[i].masked,
        inputs_of(fields)[i].text is Some <==> fields[i].text is Some,
        fields[i].text matches Some(text) ==> inputs_of(fields)[i].text == Some(text@),
        REMOVED_SCHEME@ == "sftp"@,
{
}

/// Typing and toggling reach the field that is meant and no other, and leave everything else
/// of the form as it is. What was typed last is what the field holds.
pub proof fn law_typing(f: FormState, ix: int, other: int, text: Seq<char>, later: Seq<char>, on: bool)
    requires
        0 <= ix < f.fields.len(),
        0 <= other < f.fields.len(),
        other != ix,
    ensures
        typed_into(f, ix, text).fields.len() == f.fields.len(),
        typed_into(f, ix, text).fields[other] == f.fields[other],
        typed_into(f, ix, text).fields[ix].field == f.fields[ix].field,
        typed_into(f, ix, text).fields[ix].on == f.fields[ix].on,
        f.fields[ix].text is Some ==> typed_into(f, ix, text).fields[ix].text == Some(text),
        f.fields[ix].text is None ==> typed_into(f, ix, text) == f,
        typed_into(typed_into(f, ix, text), ix, later) == typed_into(f, ix, later),
        typed_into(f, ix, text).name == f.name && typed_into(f, ix, text).editing == f.editing
            && typed_into(f, ix, text).scheme == f.scheme && typed_into(f, ix, text).label
            == f.label,
        flipped(f, ix, on).fields.len() == f.fields.len(),
        flipped(f, ix, on).fields[other] == f.fields[other],
        flipped(f, ix, on).fields[ix].field == f.fields[ix].field,
        flipped(f, ix, on).fields[ix].text == f.fields[ix].text,
        flipped(f, ix, on).fields[ix].on == on,
        flipped(f, ix, f.fields[ix].on) == f,
        flipped(f, ix, on).name == f.name && flipped(f, ix, on).editing == f.editing && flipped(
            f,
            ix,
            on,
        ).scheme == f.scheme && flipped(f, ix, on).label == f.label,
        typed_into(f, -1, text) == f && typed_into(f, f.fields.len() as int, text) == f,
        flipped(f, -1, on) == f && flipped(f, f.fields.len() as int, on) == f,
{
    assert(typed_into(typed_into(f, ix, text), ix, later).fields =~= typed_into(
        f,
        ix,
        later,
    ).fields);
    assert(flipped(f, ix, f.fields[ix].on).fields =~= f.fields);
}

/// A draft is of the form's service, under the trimmed name and with the values of the fields.
/// Editing keeps the connection's id; only a new connection takes the fresh one.
pub proof fn law_drafts(draft: Draft, f: FormState, id: Seq<char>, fresh_id: Seq<char>)
    requires
        drafted(draft, f, fresh_id),
    ensures
        f.editing is None ==> draft.id@ == fresh_id,
        f.editing == Some(id) ==> draft.id@ == id,
        draft.name@ == trimmed(f.name),
        draft.scheme == f.scheme,
        draft.values@ == values_of(f.fields),
{
}

} // verus!

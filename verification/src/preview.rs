//! The right-hand preview panel.

use vstd::prelude::*;
use vstd::utf8::{decode_utf8, valid_utf8};
use crate::entry::DirEntry;
use crate::text::{cat, same};

verus! {

/// The image formats that can be drawn.
#[derive(Clone, Copy, PartialEq, Eq, Structural, Debug)]
pub enum ImageKind {
    Png,
    Jpeg,
    Gif,
    Webp,
    Bmp,
}

/// What a file's name and size say it is.
#[derive(Clone, Copy, Debug)]
pub enum PreviewKind {
    Text,
    Markdown,
    Image(ImageKind),
    /// It has no preview, for the reason given.
    Unavailable(&'static str),
}

/// What the panel is currently showing.
#[derive(Debug)]
enum State {
    /// Nothing selected.
    Idle,
    Loading,
    Text { body: String, truncated: bool },
    Markdown { body: String, truncated: bool },
    Image { kind: ImageKind, bytes: Vec<u8> },
    /// Why there is nothing to show.
    Unavailable(String),
}

/// The preview panel.
#[derive(Debug)]
pub struct PreviewPanel {
    entry: Option<DirEntry>,
    state: State,
    /// Bumped per request. A read that finishes after the selection moved on is discarded,
    /// the same guard the listing uses.
    generation: u64,
}

/// What a panel shows.
pub enum Shown {
    Idle,
    Loading,
    Text { body: Seq<char>, truncated: bool },
    Markdown { body: Seq<char>, truncated: bool },
    Image { kind: ImageKind, bytes: Seq<u8> },
    Unavailable(Seq<char>),
}

/// A [`PreviewPanel`] by what it holds.
pub struct Panel {
    pub entry: Option<DirEntry>,
    pub shown: Shown,
    pub generation: nat,
}

impl View for State {
    type V = Shown;

    closed spec fn view(&self) -> Shown {
        match self {
            State::Idle => Shown::Idle,
            State::Loading => Shown::Loading,
            State::Text { body, truncated } => Shown::Text { body: body@, truncated: *truncated },
            State::Markdown { body, truncated } => Shown::Markdown {
                body: body@,
                truncated: *truncated,
            },
            State::Image { kind, bytes } => Shown::Image { kind: *kind, bytes: bytes@ },
            State::Unavailable(reason) => Shown::Unavailable(reason@),
        }
    }
}

impl View for PreviewPanel {
    type V = Panel;

    closed spec fn view(&self) -> Panel {
        Panel {
            entry: self.entry,
            shown: self.state@,
            generation: self.generation as nat,
        }
    }
}

/// The text that `String::from_utf8_lossy` makes of some bytes.
pub uninterp spec fn utf8_lossy(bytes: Seq<u8>) -> Seq<char>;

/// `String::from_utf8_lossy`: a text for any bytes, the same for the same bytes. Bytes that
/// are UTF-8 give exactly the characters they encode. What replacement characters the
/// other bytes give is left to the name.
#[verifier::external_body]
fn lossy_text(bytes: &Vec<u8>) -> (r: String)
    ensures
        r@ == utf8_lossy(bytes@) && (valid_utf8(bytes@) ==> r@ == decode_utf8(bytes@)),
{
    String::from_utf8_lossy(bytes).into_owned()
}

/// The path of an entry, where there is one.
pub open spec fn path_of(entry: Option<DirEntry>) -> Option<Seq<char>> {
    match entry {
        Some(entry) => Some(entry.path@),
        None => None,
    }
}

/// What fetched bytes show. A read that returns exactly the limit very likely left more
/// behind. `binary` says whether the bytes look binary: the name was a guess, and the
/// bytes get the final say. `body` is the bytes as text.
pub open spec fn rendered(
    kind: PreviewKind,
    bytes: Seq<u8>,
    limit: u64,
    binary: bool,
    body: Seq<char>,
) -> Shown {
    let truncated = bytes.len() >= limit;
    match kind {
        PreviewKind::Image(kind) => Shown::Image { kind, bytes },
        PreviewKind::Unavailable(reason) => Shown::Unavailable(reason@),
        PreviewKind::Text => if binary {
            Shown::Unavailable("二进制文件，暂不预览"@)
        } else {
            Shown::Text { body, truncated }
        },
        PreviewKind::Markdown => if binary {
            Shown::Unavailable("二进制文件，暂不预览"@)
        } else {
            Shown::Markdown { body, truncated }
        },
    }
}

/// What a panel shows as soon as an entry is chosen.
pub open spec fn first_shown(entry: Option<DirEntry>, kind: PreviewKind) -> Shown {
    match entry {
        None => Shown::Idle,
        Some(entry) => if entry.dir() {
            Shown::Unavailable("目录没有预览"@)
        } else {
            match kind {
                PreviewKind::Unavailable(reason) => Shown::Unavailable(reason@),
                _ => Shown::Loading,
            }
        },
    }
}

/// A panel after an entry was chosen. Choosing the entry that is shown changes nothing.
pub open spec fn chosen(p: Panel, entry: Option<DirEntry>, kind: PreviewKind) -> Panel {
    if path_of(p.entry) == path_of(entry) {
        p
    } else {
        Panel { entry, shown: first_shown(entry, kind), generation: p.generation + 1 }
    }
}

/// A panel after a read has come back: what it brought, with its bytes as `body`, or why it
/// failed. One of an older generation is discarded.
pub open spec fn finished(
    p: Panel,
    generation: nat,
    kind: PreviewKind,
    limit: u64,
    bytes: Result<Seq<u8>, Seq<char>>,
    binary: bool,
    body: Seq<char>,
) -> Panel {
    if generation != p.generation {
        p
    } else {
        Panel {
            shown: match bytes {
                Ok(bytes) => rendered(kind, bytes, limit, binary, body),
                Err(reason) => Shown::Unavailable(reason),
            },
            ..p
        }
    }
}

/// The note that stands in the place of something to draw.
pub open spec fn note_of(shown: Shown) -> Option<Seq<char>> {
    match shown {
        Shown::Idle => Some("选中一个文件查看预览"@),
        Shown::Loading => Some("正在载入…"@),
        Shown::Unavailable(reason) => Some(reason),
        _ => None,
    }
}

/// The name of what is shown.
pub open spec fn label_of(shown: Shown) -> Seq<char> {
    match shown {
        Shown::Idle => "idle"@,
        Shown::Loading => "loading"@,
        Shown::Text { .. } => "text"@,
        Shown::Markdown { .. } => "markdown"@,
        Shown::Image { .. } => "image"@,
        Shown::Unavailable(_) => "unavailable"@,
    }
}

/// The text that is shown, or the reason there is none.
pub open spec fn body_of(shown: Shown) -> Option<Seq<char>> {
    match shown {
        Shown::Text { body, .. } => Some(body),
        Shown::Markdown { body, .. } => Some(body),
        Shown::Unavailable(reason) => Some(reason),
        _ => None,
    }
}

/// Whether the text very likely goes on behind what is shown.
pub open spec fn cut_short(shown: Shown) -> bool {
    match shown {
        Shown::Text { truncated, .. } => truncated,
        Shown::Markdown { truncated, .. } => truncated,
        _ => false,
    }
}

/// A read that a choice asks for.
#[derive(Debug)]
pub struct ReadRequest {
    pub generation: u64,
    pub path: String,
    pub kind: PreviewKind,
    pub limit: u64,
}

/// Who the previewed entry is, as the panel's head says it.
#[derive(Debug)]
pub struct Meta {
    pub name: String,
    pub size: String,
    pub modified: String,
    pub path: String,
}

fn same_path(a: &Option<DirEntry>, b: &Option<DirEntry>) -> (r: bool)
    ensures
        r == (path_of(*a) == path_of(*b)),
{
    match (a, b) {
        (Some(a), Some(b)) => same(a.path.as_str(), b.path.as_str()),
        (None, None) => true,
        (_, _) => false,
    }
}

/// Turns fetched bytes into what is shown, given the text that they make.
fn render_text(kind: PreviewKind, bytes: Vec<u8>, limit: u64, binary: bool, body: String) -> (r:
    State)
    ensures
        r@ == rendered(kind, bytes@, limit, binary, body@),
{
    let truncated = bytes.len() as u64 >= limit;
    match kind {
        PreviewKind::Image(kind) => State::Image { kind, bytes },
        PreviewKind::Unavailable(reason) => State::Unavailable(reason.to_owned()),
        PreviewKind::Text => if binary {
            State::Unavailable("二进制文件，暂不预览".to_owned())
        } else {
            State::Text { body, truncated }
        },
        PreviewKind::Markdown => if binary {
            State::Unavailable("二进制文件，暂不预览".to_owned())
        } else {
            State::Markdown { body, truncated }
        },
    }
}

/// Turns fetched bytes into what is shown.
fn render_state(kind: PreviewKind, bytes: Vec<u8>, limit: u64, binary: bool) -> (r: State)
    ensures
        r@ == rendered(kind, bytes@, limit, binary, utf8_lossy(bytes@)),
        valid_utf8(bytes@) ==> r@ == rendered(
            kind,
            bytes@,
            limit,
            binary,
            decode_utf8(bytes@),
        ),
{
    let body = lossy_text(&bytes);
    render_text(kind, bytes, limit, binary, body)
}

impl PreviewPanel {
    pub fn new() -> (r: PreviewPanel)
        ensures
            r@ == (Panel { entry: None, shown: Shown::Idle, generation: 0 }),
    {
        PreviewPanel { entry: None, state: State::Idle, generation: 0 }
    }

    /// Follows the pane to another session: nothing is previewed.
    pub fn set_vfs(&mut self)
        requires
            old(self)@.generation < u64::MAX,
        ensures
            final(self)@ == chosen(old(self)@, None, PreviewKind::Text),
    {
        let _ = self.set_entry(None, PreviewKind::Text, 0);
    }

    /// Shows an entry, or clears the panel. `kind` is what a file of that name and size is,
    /// and `limit` how much is read of such a file; neither matters for a directory.
    ///
    /// Choosing the same entry again does not fetch it again: toggling the panel would
    /// otherwise re-read the object every time.
    pub fn set_entry(&mut self, entry: Option<DirEntry>, kind: PreviewKind, limit: u64) -> (r:
        Option<ReadRequest>)
        requires
            old(self)@.generation < u64::MAX,
        ensures
            final(self)@ == chosen(old(self)@, entry, kind),
            match r {
                Some(read) => path_of(old(self)@.entry) != path_of(entry) && first_shown(
                    entry,
                    kind,
                ) is Loading && read.generation == final(self)@.generation && Some(read.path@)
                    == path_of(entry) && read.kind == kind && read.limit == limit,
                None => path_of(old(self)@.entry) == path_of(entry) || !(first_shown(
                    entry,
                    kind,
                ) is Loading),
            },
    {
        if same_path(&self.entry, &entry) {
            return None;
        }
        self.generation = self.generation + 1;
        let path = match &entry {
            None => {
                self.state = State::Idle;
                None
            },
            Some(entry) => if entry.is_dir() {
                self.state = State::Unavailable("目录没有预览".to_owned());
                None
            } else {
                match kind {
                    PreviewKind::Unavailable(reason) => {
                        self.state = State::Unavailable(reason.to_owned());
                        None
                    },
                    _ => {
                        self.state = State::Loading;
                        Some(entry.path.clone())
                    },
                }
            },
        };
        self.entry = entry;
        match path {
            Some(path) => Some(ReadRequest { generation: self.generation, path, kind, limit }),
            None => None,
        }
    }

    /// Shows what a read brought, and says whether it did: a read of an older generation is
    /// discarded, as the selection has moved on. `binary` says whether the bytes look
    /// binary.
    pub fn finish_read(&mut self, read: &ReadRequest, bytes: Result<Vec<u8>, String>, binary: bool)
        -> (r: bool)
        ensures
            r == (read.generation == old(self)@.generation),
            final(self)@ == (if !r {
                old(self)@
            } else {
                Panel {
                    shown: match bytes {
                        Ok(bytes) => rendered(
                            read.kind,
                            bytes@,
                            read.limit,
                            binary,
                            utf8_lossy(bytes@),
                        ),
                        Err(reason) => Shown::Unavailable(reason@),
                    },
                    ..old(self)@
                }
            }),
            bytes matches Ok(all) ==> final(self)@ == finished(
                old(self)@,
                read.generation as nat,
                read.kind,
                read.limit,
                Ok(all@),
                binary,
                utf8_lossy(all@),
            ),
            bytes matches Err(reason) ==> final(self)@ == finished(
                old(self)@,
                read.generation as nat,
                read.kind,
                read.limit,
                Err(reason@),
                binary,
                Seq::empty(),
            ),
            r && bytes is Ok && valid_utf8(bytes->Ok_0@) ==> final(self)@.shown == rendered(
                read.kind,
                bytes->Ok_0@,
                read.limit,
                binary,
                decode_utf8(bytes->Ok_0@),
            ),
    {
        if read.generation != self.generation {
            return false;
        }
        self.state = match bytes {
            Ok(bytes) => render_state(read.kind, bytes, read.limit, binary),
            Err(reason) => State::Unavailable(reason),
        };
        true
    }

    /// Shows what a read brought as [`PreviewPanel::finish_read`] does, with the bytes'
    /// text given.
    pub fn show_bytes(&mut self, read: &ReadRequest, bytes: Vec<u8>, binary: bool, body: String)
        -> (r: bool)
        ensures
            r == (read.generation == old(self)@.generation),
            final(self)@ == (if !r {
                old(self)@
            } else {
                Panel {
                    shown: rendered(read.kind, bytes@, read.limit, binary, body@),
                    ..old(self)@
                }
            }),
            final(self)@ == finished(
                old(self)@,
                read.generation as nat,
                read.kind,
                read.limit,
                Ok(bytes@),
                binary,
                body@,
            ),
    {
        if read.generation != self.generation {
            return false;
        }
        self.state = render_text(read.kind, bytes, read.limit, binary, body);
        true
    }

    /// The generation of the latest choice.
    pub fn generation(&self) -> (r: u64)
        ensures
            r == self@.generation,
    {
        self.generation
    }

    pub fn entry(&self) -> (r: Option<&DirEntry>)
        ensures
            match r {
                Some(entry) => self@.entry == Some(*entry),
                None => self@.entry is None,
            },
    {
        match &self.entry {
            Some(entry) => Some(entry),
            None => None,
        }
    }

    /// The state's name.
    pub fn state_label(&self) -> (r: &'static str)
        ensures
            r@ == label_of(self@.shown),
    {
        match &self.state {
            State::Idle => "idle",
            State::Loading => "loading",
            State::Text { .. } => "text",
            State::Markdown { .. } => "markdown",
            State::Image { .. } => "image",
            State::Unavailable(_) => "unavailable",
        }
    }

    /// The text in the panel's body, or the reason there is none.
    pub fn body_text(&self) -> (r: Option<&str>)
        ensures
            match r {
                Some(body) => body_of(self@.shown) == Some(body@),
                None => body_of(self@.shown) is None,
            },
    {
        match &self.state {
            State::Text { body, .. } => Some(body.as_str()),
            State::Markdown { body, .. } => Some(body.as_str()),
            State::Unavailable(reason) => Some(reason.as_str()),
            _ => None,
        }
    }

    /// Whether the text very likely goes on behind what is shown.
    pub fn is_truncated(&self) -> (r: bool)
        ensures
            r == cut_short(self@.shown),
    {
        match &self.state {
            State::Text { truncated, .. } => *truncated,
            State::Markdown { truncated, .. } => *truncated,
            _ => false,
        }
    }

    /// The image to draw.
    pub fn image(&self) -> (r: Option<(ImageKind, &Vec<u8>)>)
        ensures
            match self@.shown {
                Shown::Image { kind, bytes } => r is Some && r.unwrap().0 == kind && r.unwrap().1@
                    == bytes,
                _ => r is None,
            },
    {
        match &self.state {
            State::Image { kind, bytes } => Some((*kind, bytes)),
            _ => None,
        }
    }

    /// The note that stands in the panel's place, where there is nothing to draw.
    pub fn note(&self) -> (r: Option<&str>)
        ensures
            match r {
                Some(note) => note_of(self@.shown) == Some(note@),
                None => note_of(self@.shown) is None,
            },
            match self@.shown {
                Shown::Idle => r is Some && r->0@ == "选中一个文件查看预览"@,
                Shown::Loading => r is Some && r->0@ == "正在载入…"@,
                Shown::Unavailable(reason) => r is Some && r->0@ == reason,
                _ => r is None,
            },
    {
        match &self.state {
            State::Idle => Some("选中一个文件查看预览"),
            State::Loading => Some("正在载入…"),
            State::Unavailable(reason) => Some(reason.as_str()),
            _ => None,
        }
    }
}

impl Default for PreviewPanel {
    fn default() -> (r: PreviewPanel)
        ensures
            r@ == (Panel { entry: None, shown: Shown::Idle, generation: 0 }),
    {
        PreviewPanel::new()
    }
}

/// What the panel's head says of an entry. `size` and `modified` are the entry's size and
/// time as they are written.
pub fn meta(entry: &DirEntry, size: &str, modified: &str) -> (r: Meta)
    ensures
        r.name@ == entry.name@,
        r.size@ == (if entry.dir() {
            "目录"@
        } else {
            size@
        }),
        r.modified@ == modified@,
        r.path@ == entry.path@,
{
    let size = if entry.is_dir() {
        "目录".to_owned()
    } else {
        size.to_owned()
    };
    Meta { name: entry.name.clone(), size, modified: modified.to_owned(), path: entry.path.clone() }
}

/// Says that a text was cut off, and where: a preview that silently stops looks like a file
/// that does.
pub fn truncation_note(limit: &str) -> (r: String)
    ensures
        r@ == "只显示前 "@ + limit@,
{
    cat("只显示前 ", limit)
}

/// Choosing the entry that is shown changes nothing, so it cannot make a read that is under
/// way stale either.
pub proof fn law_choosing_again_changes_nothing(
    p: Panel,
    entry: Option<DirEntry>,
    kind: PreviewKind,
    again: PreviewKind,
)
    ensures
        chosen(chosen(p, entry, kind), entry, again) == chosen(p, entry, kind),
{
}

/// Choosing another entry makes every read that is under way stale, and shows nothing of
/// the entry before.
pub proof fn law_moving_on_discards_reads(
    p: Panel,
    entry: Option<DirEntry>,
    kind: PreviewKind,
    generation: nat,
)
    requires
        path_of(p.entry) != path_of(entry),
        generation <= p.generation,
    ensures
        generation < chosen(p, entry, kind).generation,
        chosen(p, entry, kind).shown == first_shown(entry, kind),
        chosen(p, entry, kind).entry == entry,
{
}

/// A read of an image is shown as that image, of whatever kind it is and whatever its bytes
/// look like, all of them.
pub proof fn law_images_are_shown(
    p: Panel,
    kind: ImageKind,
    limit: u64,
    bytes: Seq<u8>,
    binary: bool,
    body: Seq<char>,
)
    ensures
        finished(
            p,
            p.generation,
            PreviewKind::Image(kind),
            limit,
            Ok(bytes),
            binary,
            body,
        ).shown == (Shown::Image { kind, bytes }),
{
}

/// A read of a text is shown as that text, in the way of its kind, unless its bytes look
/// binary; it is said to be cut off exactly where the read brought as much as it asked for.
pub proof fn law_texts_are_shown(p: Panel, limit: u64, bytes: Seq<u8>, body: Seq<char>)
    ensures
        finished(p, p.generation, PreviewKind::Text, limit, Ok(bytes), false, body).shown == (
        Shown::Text { body, truncated: bytes.len() >= limit }),
        finished(p, p.generation, PreviewKind::Markdown, limit, Ok(bytes), false, body).shown == (
        Shown::Markdown { body, truncated: bytes.len() >= limit }),
        finished(p, p.generation, PreviewKind::Text, limit, Ok(bytes), true, body).shown
            == Shown::Unavailable("二进制文件，暂不预览"@),
        finished(p, p.generation, PreviewKind::Markdown, limit, Ok(bytes), true, body).shown
            == Shown::Unavailable("二进制文件，暂不预览"@),
{
}

/// A read that fails says why, whatever was read. A read that is not the latest changes
/// nothing, and none changes which entry is chosen.
pub proof fn law_reads(
    p: Panel,
    generation: nat,
    kind: PreviewKind,
    limit: u64,
    bytes: Result<Seq<u8>, Seq<char>>,
    reason: Seq<char>,
    binary: bool,
    body: Seq<char>,
)
    ensures
        finished(p, p.generation, kind, limit, Err(reason), binary, body).shown
            == Shown::Unavailable(reason),
        generation != p.generation ==> finished(
            p,
            generation,
            kind,
            limit,
            bytes,
            binary,
            body,
        ) == p,
        finished(p, generation, kind, limit, bytes, binary, body).entry == p.entry,
        finished(p, generation, kind, limit, bytes, binary, body).generation == p.generation,
{
}

/// Choosing nothing clears the panel, a directory has no preview, a file that has none says
/// why, and any other file is read.
pub proof fn law_choices(entry: DirEntry, reason: &'static str, image: ImageKind)
    ensures
        first_shown(None, PreviewKind::Text) is Idle,
        entry.kind is Dir ==> forall|kind: PreviewKind| #[trigger]
            first_shown(Some(entry), kind) == Shown::Unavailable("目录没有预览"@),
        !(entry.kind is Dir) ==> first_shown(Some(entry), PreviewKind::Unavailable(reason))
            == Shown::Unavailable(reason@),
        !(entry.kind is Dir) ==> first_shown(Some(entry), PreviewKind::Text) is Loading,
        !(entry.kind is Dir) ==> first_shown(Some(entry), PreviewKind::Markdown) is Loading,
        !(entry.kind is Dir) ==> first_shown(Some(entry), PreviewKind::Image(image)) is Loading,
        path_of(Some(entry)) == Some(entry.path@),
        path_of(None) is None,
{
}

/// An entry is chosen anew exactly where its path is another one: only then does the panel
/// take it over and count a generation.
pub proof fn law_choosing(p: Panel, old_entry: DirEntry, entry: DirEntry, kind: PreviewKind)
    requires
        p.entry == Some(old_entry),
    ensures
        old_entry.path@ == entry.path@ ==> chosen(p, Some(entry), kind) == p,
        old_entry.path@ != entry.path@ ==> chosen(p, Some(entry), kind).entry == Some(entry)
            && chosen(p, Some(entry), kind).generation == p.generation + 1,
        chosen(p, None, kind).entry is None,
        chosen(p, None, kind).shown is Idle,
        chosen(p, None, kind).generation == p.generation + 1,
{
}

/// Where there is nothing to draw the panel says what to do, that it loads, or why not.
pub proof fn law_notes(reason: Seq<char>, body: Seq<char>, truncated: bool)
    ensures
        note_of(Shown::Idle) == Some("选中一个文件查看预览"@),
        note_of(Shown::Loading) == Some("正在载入…"@),
        note_of(Shown::Unavailable(reason)) == Some(reason),
        note_of(Shown::Text { body, truncated }) is None,
        note_of(Shown::Markdown { body, truncated }) is None,
{
}

/// A read of a text leaves exactly its text in the panel, marked as cut short exactly where it
/// filled the limit; a read that failed leaves the reason. Pictures and what is under way have
/// no text and are never cut short.
pub proof fn law_what_a_panel_says(
    p: Panel,
    limit: u64,
    bytes: Seq<u8>,
    body: Seq<char>,
    reason: Seq<char>,
    image: ImageKind,
)
    ensures
        ({
            let text = finished(p, p.generation, PreviewKind::Text, limit, Ok(bytes), false, body);
            let markdown = finished(
                p,
                p.generation,
                PreviewKind::Markdown,
                limit,
                Ok(bytes),
                false,
                body,
            );
            let picture = finished(
                p,
                p.generation,
                PreviewKind::Image(image),
                limit,
                Ok(bytes),
                false,
                body,
            );
            let broken = finished(
                p,
                p.generation,
                PreviewKind::Text,
                limit,
                Err(reason),
                false,
                body,
            );
            &&& body_of(text.shown) == Some(body) && body_of(markdown.shown) == Some(body)
            &&& body_of(broken.shown) == Some(reason) && body_of(picture.shown) is None
            &&& cut_short(text.shown) == (bytes.len() >= limit)
            &&& cut_short(markdown.shown) == (bytes.len() >= limit)
            &&& !cut_short(picture.shown) && !cut_short(broken.shown)
            &&& label_of(text.shown) == "text"@ && label_of(markdown.shown) == "markdown"@
            &&& label_of(picture.shown) == "image"@ && label_of(broken.shown) == "unavailable"@
        }),
        body_of(Shown::Idle) is None && body_of(Shown::Loading) is None,
        !cut_short(Shown::Idle) && !cut_short(Shown::Loading),
        label_of(Shown::Idle) == "idle"@ && label_of(Shown::Loading) == "loading"@,
{
}

} // verus!
